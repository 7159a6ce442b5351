//! Per-client abuse and scraping classifier for an API gateway.

pub mod common;
pub mod config;
pub mod double;
pub mod jev;
pub mod json;
pub mod laws;
pub mod policy;
pub mod screen;
pub mod text;
