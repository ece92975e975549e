//! Core logic of a kata catalog and code playground backend.

pub mod models;
pub mod routes;
pub mod services;
pub mod sorting;
pub mod text;
