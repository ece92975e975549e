//! The decisions behind the playground and the catalog.

pub mod kata_loader;
pub mod sandbox;
