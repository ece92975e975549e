//! What the catalog's endpoints answer.

pub mod katas;
