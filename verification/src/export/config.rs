//! The configuration of the export side.

use vstd::prelude::*;
use vstd::string::*;
use crate::config::{
    mqtt_fault, topic_is_valid, url_fault, validate_mqtt, validate_url, ConfigError,
    ConfigErrorView,
};
use crate::export::constants::{DEFAULT_LISTEN_ADDR, DEFAULT_METRICS_PATH};
use crate::mqtt::MQTT;

verus! {

/// Where the combined document is served.
#[derive(Clone, Debug)]
pub struct Prometheus {
    pub listen: String,
    pub path: String,
}

/// Everything the export side is configured with.
#[derive(Clone, Debug)]
pub struct Configuration {
    pub prometheus: Prometheus,
    pub mqtt: MQTT,
}

pub fn prometheus_default_listen() -> (s: String)
    ensures
        s@ == DEFAULT_LISTEN_ADDR@,
{
    String::from_str(DEFAULT_LISTEN_ADDR)
}

pub fn prometheus_default_path() -> (s: String)
    ensures
        s@ == DEFAULT_METRICS_PATH@,
{
    String::from_str(DEFAULT_METRICS_PATH)
}

impl Default for Prometheus {
    fn default() -> (p: Self)
        ensures
            p.listen@ == DEFAULT_LISTEN_ADDR@,
            p.path@ == DEFAULT_METRICS_PATH@,
    {
        Prometheus { listen: prometheus_default_listen(), path: prometheus_default_path() }
    }
}

/// The first thing wrong with an export configuration: the broker URL, then
/// the broker settings, then the listener address, then the metrics path.
pub open spec fn fault(cfg: &Configuration, broker_fault: Option<Seq<char>>) -> Option<
    ConfigErrorView,
> {
    let mqtt = mqtt_fault(
        cfg.mqtt.qos as int,
        cfg.mqtt.topic@,
        cfg.mqtt.timeout as int,
        cfg.mqtt.reconnect_timeout as int,
    );
    if broker_fault is Some {
        Some(ConfigErrorView::InvalidBrokerUrl(broker_fault->0))
    } else if mqtt is Some {
        mqtt
    } else if cfg.prometheus.listen@.len() == 0 {
        Some(ConfigErrorView::InvalidListen)
    } else if cfg.prometheus.path@.len() == 0 {
        Some(ConfigErrorView::InvalidPath)
    } else {
        None
    }
}

/// What holds of a configuration that is not refused: the broker URL
/// parses, the quality of service is 0, 1 or 2, the topic is not empty and
/// has no wildcard, both timeouts of the broker are positive, and neither
/// the listener address nor the metrics path is empty.
pub proof fn lemma_valid_configuration(cfg: &Configuration)
    requires
        fault(cfg, url_fault(cfg.mqtt.broker@)) is None,
    ensures
        url_fault(cfg.mqtt.broker@) is None,
        0 <= cfg.mqtt.qos <= 2,
        topic_is_valid(cfg.mqtt.topic@),
        cfg.mqtt.timeout > 0,
        cfg.mqtt.reconnect_timeout > 0,
        cfg.prometheus.listen@.len() > 0,
        cfg.prometheus.path@.len() > 0,
{
}

/// Checks a configuration, given what parsing the broker URL came to.
pub fn validate_parsed(cfg: &Configuration, broker: Result<(), String>) -> (r: Result<
    (),
    ConfigError,
>)
    ensures
        match fault(
            cfg,
            match broker {
                Ok(_) => None,
                Err(why) => Some(why@),
            },
        ) {
            Some(e) => r matches Err(x) && x@ == e,
            None => r is Ok,
        },
{
    if let Err(why) = broker {
        return Err(ConfigError::InvalidBrokerUrl(why));
    }
    validate_mqtt(&cfg.mqtt)?;
    if cfg.prometheus.listen.as_str().is_empty() {
        return Err(ConfigError::InvalidListen);
    }
    if cfg.prometheus.path.as_str().is_empty() {
        return Err(ConfigError::InvalidPath);
    }
    Ok(())
}

/// Checks a configuration before the exporter starts.
pub fn validate(cfg: &Configuration) -> (r: Result<(), ConfigError>)
    ensures
        match fault(cfg, url_fault(cfg.mqtt.broker@)) {
            Some(e) => r matches Err(x) && x@ == e,
            None => r is Ok,
        },
{
    let broker = validate_url(cfg.mqtt.broker.as_str());
    validate_parsed(cfg, broker)
}

} // verus!
