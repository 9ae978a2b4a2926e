//! The rules of a service that keeps patched branches in step with their upstream.

pub mod calls;
pub mod command;
pub mod config;
pub mod data;
pub mod digest;
pub mod fault;
pub mod journal;
pub mod llm;
pub mod path;
pub mod protection;
pub mod replay;
pub mod repo;
pub mod report;
pub mod service;
pub mod sync;
pub mod text;
