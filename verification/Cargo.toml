[package]
name = "prometheus-mqtt-transport"
version = "0.1.0"
edition = "2021"
publish = false

[dependencies]
chrono = "=0.4.45"
fern = "=0.6.2"
flate2 = "=1.1.10"
gethostname = "=0.4.3"
getopts = "=0.2.24"
lazy_static = "=1.5.1"
log = "=0.4.34"
paho-mqtt = { version = "=0.12.5", default-features = false, features = ["ssl"] }
prometheus = "=0.13.4"
rand = "=0.8.8"
reqwest = { version = "=0.11.27", features = ["blocking"] }
serde = { version = "=1.0.229", features = ["derive"] }
serde_json = "=1.0.154"
serde_yaml = "=0.9.34"
simple-error = "=0.3.3"
tiny_http = "=0.12.0"
url = "=2.5.8"
