//! Protection of a project against insecure changes and dependencies.

pub mod dependency;
pub mod investigate;
pub mod types;
