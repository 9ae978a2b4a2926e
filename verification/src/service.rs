//! The jobs of the service.

pub mod jobs;
pub mod types;
