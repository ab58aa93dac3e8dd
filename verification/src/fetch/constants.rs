//! Defaults and fixed texts of the fetch side.

use vstd::prelude::*;
use vstd::string::*;
use crate::constants::{PACKAGE_NAME, VERSION};

verus! {

pub const DEFAULT_CONFIG_FILE: &'static str = "/etc/prometheus-mqtt-transport/fetch.yaml";

pub const DEFAULT_INTERVAL: i64 = 60;

pub const DEFAULT_SCRAPE_TIMEOUT: u64 = 10;

pub const SCRAPE_NAME_LABEL: &'static str = "prom2mqtt_fetch_scrape";

pub const DEFAULT_PROMETHEUS_LISTEN: &'static str = "localhost:9998";

pub const DEFAULT_PROMETHEUS_PATH: &'static str = "/metrics";

pub const HTML_ROOT: &'static str =
    "<html>\n<head><title>Prometheus MQTT transport - scraper</title></head>\n<body>\n<h1>Prometheus MQTT transport - scraper</h1>\n<p><a href=\"/metrics\">Metrics</a></p>\n</body>\n</html>\n";

pub const METRIC_SCRAPE_DURATION_NAME: &'static str = "prom2mqtt_fetch_scrape_duration_seconds";

pub const METRIC_SCRAPE_DURATION_HELP: &'static str = "Duration of metric scrape";

pub const METRIC_SCRAPE_SUCCESS_NAME: &'static str = "prom2mqtt_fetch_scrape_success";

pub const METRIC_SCRAPE_SUCCESS_HELP: &'static str = "Success status of scrape";

pub const METRIC_COMPRESSION_NAME: &'static str = "prom2mqtt_fetch_compression";

pub const METRIC_COMPRESSION_HELP: &'static str =
    "Whether gzip compression of scraped data is enabled";

pub const METRIC_METRICS_SIZE_NAME: &'static str = "prom2mqtt_fetch_metrics_bytes";

pub const METRIC_METRICS_SIZE_HELP: &'static str = "Size of all scraped metrics";

pub const METRIC_COMPRESSED_SIZE_NAME: &'static str = "prom2mqtt_fetch_compressed_metrics_bytes";

pub const METRIC_COMPRESSED_SIZE_HELP: &'static str = "Compressed size of all metrics";

pub const METRIC_COMPRESS_TIME_NAME: &'static str = "prom2mqtt_fetch_compress_seconds";

pub const METRIC_COMPRESS_TIME_HELP: &'static str = "Time to compress metric data";

pub const METRIC_MQTT_QOS_NAME: &'static str = "prom2mqtt_fetch_mqtt_qos";

pub const METRIC_MQTT_QOS_HELP: &'static str = "QoS for MQTT messages";

pub const METRIC_MQTT_SEND_TIME_NAME: &'static str = "prom2mqtt_fetch_mqtt_send_seconds";

pub const METRIC_MQTT_SEND_TIME_HELP: &'static str = "Time to send MQTT data";

pub const METRIC_MQTT_SUCCESS_NAME: &'static str = "prom2mqtt_fetch_mqtt_send_success";

pub const METRIC_MQTT_SUCCESS_HELP: &'static str = "Success status of MQTT message publishing";

/// The name the scraper gives itself in its requests: package name, a slash
/// and the version.
pub fn generate_user_agent() -> (agent: String)
    ensures
        agent@ == PACKAGE_NAME@ + "/"@ + VERSION@,
{
    let mut agent = String::from_str(PACKAGE_NAME);
    agent.append("/");
    agent.append(VERSION);
    agent
}

} // verus!
