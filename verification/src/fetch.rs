//! The fetch side: scraping sources and packing what they return.

pub mod config;
pub mod constants;
pub mod exporter;
pub mod massage;
pub mod scrape;
pub mod usage;
