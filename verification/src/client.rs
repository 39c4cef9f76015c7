//! Client-side configuration.

pub mod config;
