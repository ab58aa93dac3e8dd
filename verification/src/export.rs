//! The export side: caching what arrives and serving it as one document.

pub mod config;
pub mod constants;
pub mod data;
pub mod document;
pub mod exporter;
pub mod reply;
