//! Transport of Prometheus exposition text over MQTT.
//!
//! The fetch side scrapes sources, parses what they return into messages
//! ([`fetch::massage`]) and wraps the serialised messages into an envelope
//! ([`envelope`]). The export side unwraps envelopes, keeps the latest
//! message of each source for as long as it is valid ([`export::data`]) and
//! rebuilds one exposition document from what it holds ([`export::reply`]);
//! what holds of the lines of that document is in [`export::document`].
//!
//! Everything here computes on plain values: reading configuration files,
//! talking to the broker, serving HTTP and asking for the time are left to
//! the program that uses the library. The decisions that such a program has
//! to take are here too: when a source is due ([`fetch::scrape`]), how often
//! to try the broker again ([`mqtt`]), what a request is answered with
//! ([`http`]) and which configurations are refused ([`config`]).

pub mod config;
pub mod constants;
pub mod envelope;
pub mod export;
pub mod fetch;
pub mod http;
pub mod labels;
pub mod mqtt;
pub mod payload;
pub mod text;
pub mod usage;
