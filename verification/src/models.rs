//! Plain data carried between the catalog, the playground and their callers.

pub mod execution;
pub mod kata;
