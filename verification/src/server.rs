//! Server-side configuration.

pub mod config;
