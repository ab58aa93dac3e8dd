//! Names and defaults shared by the fetch side and the export side.

use vstd::prelude::*;

verus! {

pub const VERSION: &'static str = "0.1.0";

pub const PACKAGE_NAME: &'static str = "prometheus-mqtt-transport";

pub const DEFAULT_MQTT_TIMEOUT: u64 = 15;

pub const DEFAULT_MQTT_RECONNECT_TIMEOUT: u64 = 300;

pub const MAXIMAL_CLIENT_ID_LENGTH: usize = 23;

} // verus!
