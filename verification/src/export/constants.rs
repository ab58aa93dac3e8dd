//! Defaults and fixed texts of the export side.

use vstd::prelude::*;

verus! {

pub const DEFAULT_CONFIG_FILE: &'static str = "/etc/prometheus-mqtt-transport/export.yaml";

pub const DEFAULT_LISTEN_ADDR: &'static str = "localhost:9991";

pub const DEFAULT_METRICS_PATH: &'static str = "/metrics";

pub const HTML_ROOT: &'static str =
    "<html>\n<head><title>Prometheus MQTT transport</title></head>\n<body>\n<h1>Prometheus MQTT transport</h1>\n<p><a href=\"/metrics\">Metrics</a></p>\n</body>\n</html>\n";

pub const METRICS_BYTES_RECEIVED_NO_COMP_TOTAL_NAME: &'static str =
    "prom2mqtt_export_uncompressed_bytes_received_total";

pub const METRICS_BYTES_RECEIVED_NO_COMP_TOTAL_HELP: &'static str =
    "Bytes of uncompressed metric received";

pub const METRICS_MESSAGES_RECEIVED_NO_COMP_TOTAL_NAME: &'static str =
    "prom2mqtt_export_uncompressed_messages_received_total";

pub const METRICS_MESSAGES_RECEIVED_NO_COMP_TOTAL_HELP: &'static str =
    "Uncompressed metric messages received";

pub const METRICS_BYTES_RECEIVED_COMP_TOTAL_NAME: &'static str =
    "prom2mqtt_export_compressed_bytes_received_total";

pub const METRICS_BYTES_RECEIVED_COMP_TOTAL_HELP: &'static str =
    "Bytes of compressed metric received";

pub const METRICS_MESSAGES_RECEIVED_COMP_TOTAL_NAME: &'static str =
    "prom2mqtt_export_compressed_messages_received_total";

pub const METRICS_MESSAGES_RECEIVED_COMP_TOTAL_HELP: &'static str =
    "Compressed metric messages received";

pub const METRICS_BYTES_RECEIVED_DECOMP_TOTAL_NAME: &'static str =
    "prom2mqtt_export_decompressed_bytes_received_total";

pub const METRICS_BYTES_RECEIVED_DECOMP_TOTAL_HELP: &'static str =
    "Decompressed size of compressed metric received";

pub const METRICS_DECOMPRESS_TIME_NAME: &'static str = "prom2mqtt_export_decompress_seconds";

pub const METRICS_DECOMPRESS_TIME_HELP: &'static str =
    "Time to decompress compressed metric data";

pub const METRICS_PAYLOAD_PARSE_TIME_NAME: &'static str = "prom2mqtt_export_payload_parse_seconds";

pub const METRICS_PAYLOAD_PARSE_TIME_HELP: &'static str = "Time to parse received payload";

} // verus!
