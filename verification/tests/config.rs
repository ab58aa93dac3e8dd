use prometheus_mqtt_transport::config::{validate_mqtt, ConfigError};
use prometheus_mqtt_transport::export;
use prometheus_mqtt_transport::fetch;
use prometheus_mqtt_transport::fetch::config::{check_scrape, label_scrapes, prepare, Global, Scrape};
use prometheus_mqtt_transport::labels::Labels;
use prometheus_mqtt_transport::mqtt::MQTT;

fn mqtt() -> MQTT {
    MQTT {
        broker: "tcp://localhost:1883".to_string(),
        ca_cert: String::new(),
        clean_session: false,
        client_id: "client".to_string(),
        insecure_ssl: false,
        password: "secret".to_string(),
        qos: 0,
        reconnect_timeout: 300,
        timeout: 15,
        topic: "metrics/prometheus".to_string(),
        user: "user".to_string(),
    }
}

fn scrape(name: &str, url: &str) -> Scrape {
    Scrape {
        interval: None,
        labels: Labels::new(),
        last_scrape: 0,
        name: name.to_string(),
        suppress_scrape_name: false,
        timeout: None,
        url: url.to_string(),
    }
}

fn fetch_config(scrapes: Vec<Scrape>) -> fetch::config::Configuration {
    fetch::config::Configuration {
        global: Global::default(),
        mqtt: mqtt(),
        prometheus: fetch::config::Prometheus::default(),
        scrape: scrapes,
    }
}

fn export_config() -> export::config::Configuration {
    export::config::Configuration { prometheus: export::config::Prometheus::default(), mqtt: mqtt() }
}

fn text(r: Result<(), ConfigError>) -> String {
    match r {
        Ok(()) => "ok".to_string(),
        Err(e) => e.message(),
    }
}

#[test]
fn defaults() {
    let g = Global::default();
    assert_eq!(g.interval, 60);
    assert!(!g.compress);
    assert_eq!(g.timeout, 10);
    assert_eq!(fetch::config::default_global_interval(), 60);
    assert_eq!(fetch::config::default_global_timeout(), 10);
    let p = fetch::config::Prometheus::default();
    assert_eq!(p.listen, "localhost:9998");
    assert_eq!(p.path, "/metrics");
    assert_eq!(fetch::config::default_prometheus_listen(), "localhost:9998");
    assert_eq!(fetch::config::default_prometheus_path(), "/metrics");
    let p = export::config::Prometheus::default();
    assert_eq!(p.listen, "localhost:9991");
    assert_eq!(p.path, "/metrics");
    assert_eq!(export::config::prometheus_default_listen(), "localhost:9991");
    assert_eq!(export::config::prometheus_default_path(), "/metrics");
}

#[test]
fn broker_settings_are_checked_in_order() {
    assert_eq!(text(validate_mqtt(&mqtt())), "ok");
    let mut m = mqtt();
    m.qos = 3;
    m.topic = String::new();
    assert_eq!(text(validate_mqtt(&m)), "invalid MQTT QoS setting");
    m.qos = -1;
    assert_eq!(text(validate_mqtt(&m)), "invalid MQTT QoS setting");
    m.qos = 2;
    m.timeout = 0;
    assert_eq!(text(validate_mqtt(&m)), "invalid MQTT topic");
    m.topic = "a/+/b".to_string();
    assert_eq!(text(validate_mqtt(&m)), "invalid MQTT topic");
    m.topic = "a/#".to_string();
    assert_eq!(text(validate_mqtt(&m)), "invalid MQTT topic");
    m.topic = "a/b".to_string();
    m.reconnect_timeout = 0;
    assert_eq!(text(validate_mqtt(&m)), "invalid MQTT timeout");
    m.timeout = 1;
    assert_eq!(text(validate_mqtt(&m)), "invalid MQTT reconnect timeout");
    m.reconnect_timeout = 1;
    assert_eq!(text(validate_mqtt(&m)), "ok");
}

#[test]
fn fetch_configuration_is_checked() {
    let ok = fetch_config(vec![scrape("a", "http://localhost:9100/metrics"), scrape("b", "https://example.net/")]);
    assert_eq!(text(fetch::config::validate(&ok)), "ok");
    assert_eq!(text(fetch::config::validate(&fetch_config(vec![]))), "ok");

    let mut c = fetch_config(vec![scrape("a", "http://localhost/")]);
    c.global.interval = 0;
    c.mqtt.qos = 7;
    assert_eq!(text(fetch::config::validate(&c)), "invalid interval value in global section");
    c.global.interval = 1;
    assert_eq!(text(fetch::config::validate(&c)), "invalid MQTT QoS setting");

    let c = fetch_config(vec![scrape("a", "http://localhost/"), scrape("", "")]);
    assert_eq!(text(fetch::config::validate(&c)), "no name set for scrape job");
    let c = fetch_config(vec![scrape("a", "http://localhost/"), scrape("b", "x"), scrape("a", "")]);
    assert_eq!(
        text(fetch::config::validate(&c)),
        "invalid URL for scrape 'b' - relative URL without a base"
    );
    let c = fetch_config(vec![scrape("a", "http://localhost/"), scrape("b", "http://b/"), scrape("a", "")]);
    assert_eq!(text(fetch::config::validate(&c)), "duplicate scrape name 'a'");
    let c = fetch_config(vec![scrape("a", "")]);
    assert_eq!(text(fetch::config::validate(&c)), "no URL to scrape found");
    let mut s = scrape("a", "http://localhost/");
    s.interval = Some(0);
    assert_eq!(
        text(fetch::config::validate(&fetch_config(vec![s]))),
        "invalid interval value for scrape interval in a"
    );
    let mut s = scrape("a", "http://localhost/");
    s.interval = Some(1);
    assert_eq!(text(fetch::config::validate(&fetch_config(vec![s]))), "ok");
}

#[test]
fn check_scrape_takes_the_outcome_of_parsing() {
    let scrapes = vec![scrape("a", "http://localhost/"), scrape("b", "whatever")];
    assert_eq!(text(check_scrape(&scrapes, 1, Ok(()))), "ok");
    assert_eq!(
        text(check_scrape(&scrapes, 1, Err("empty host".to_string()))),
        "invalid URL for scrape 'b' - empty host"
    );
}

#[test]
fn export_configuration_is_checked() {
    assert_eq!(text(export::config::validate(&export_config())), "ok");
    let mut c = export_config();
    c.mqtt.broker = "localhost".to_string();
    c.mqtt.qos = 5;
    assert_eq!(text(export::config::validate(&c)), "invalid broker URL - relative URL without a base");
    c.mqtt.broker = "ssl://broker.example:8883".to_string();
    assert_eq!(text(export::config::validate(&c)), "invalid MQTT QoS setting");
    c.mqtt.qos = 1;
    c.prometheus.listen = String::new();
    c.prometheus.path = String::new();
    assert_eq!(text(export::config::validate(&c)), "invalid listener address");
    c.prometheus.listen = "localhost:1".to_string();
    assert_eq!(text(export::config::validate(&c)), "invalid metrics path");
    c.prometheus.path = "/m".to_string();
    assert_eq!(text(export::config::validate(&c)), "ok");
    assert_eq!(
        text(export::config::validate_parsed(&c, Err("why".to_string()))),
        "invalid broker URL - why"
    );
}

#[test]
fn scrapes_are_labelled_with_their_name() {
    let mut quiet = scrape("b", "http://b/");
    quiet.suppress_scrape_name = true;
    let mut own = scrape("c", "http://c/");
    own.labels.insert("prom2mqtt_fetch_scrape".to_string(), "mine".to_string());
    own.labels.insert("dc".to_string(), "east".to_string());
    let mut c = fetch_config(vec![scrape("a", "http://a/"), quiet, own]);
    label_scrapes(&mut c);
    assert_eq!(c.scrape[0].labels.len(), 1);
    assert_eq!(c.scrape[0].labels.get(0).name, "prom2mqtt_fetch_scrape");
    assert_eq!(c.scrape[0].labels.get(0).value, "a");
    assert_eq!(c.scrape[1].labels.len(), 0);
    assert_eq!(c.scrape[2].labels.len(), 2);
    assert_eq!(c.scrape[2].labels.get(0).value, "c");
    assert_eq!(c.scrape[2].labels.get(1).name, "dc");
}

#[test]
fn prepare_moves_the_topic_under_the_host() {
    let mut c = fetch_config(vec![scrape("a", "http://a/")]);
    c.mqtt.topic = "metrics/prometheus///".to_string();
    assert_eq!(text(prepare(&mut c, "host1")), "ok");
    assert_eq!(c.mqtt.topic, "metrics/prometheus/host1");
    assert_eq!(c.scrape[0].labels.get(0).value, "a");
    let mut c = fetch_config(vec![]);
    c.mqtt.topic = "metrics".to_string();
    assert_eq!(text(prepare(&mut c, "host1")), "ok");
    assert_eq!(c.mqtt.topic, "metrics/host1");
}

#[test]
fn prepare_refuses_what_validate_refuses() {
    let mut c = fetch_config(vec![scrape("a", "not a url")]);
    c.mqtt.topic = "metrics/".to_string();
    assert_eq!(
        text(prepare(&mut c, "host1")),
        "invalid URL for scrape 'a' - relative URL without a base"
    );
    assert_eq!(c.mqtt.topic, "metrics/");
    let mut c = fetch_config(vec![]);
    c.mqtt.topic = "/".to_string();
    assert_eq!(text(prepare(&mut c, "host1")), "ok");
    assert_eq!(c.mqtt.topic, "/host1");
}

#[test]
fn every_error_has_its_text() {
    assert_eq!(ConfigError::MissingUrl.message(), "no URL to scrape found");
    assert_eq!(ConfigError::MissingScrapeName.message(), "no name set for scrape job");
    assert_eq!(ConfigError::DuplicateScrapeName("x".to_string()).message(), "duplicate scrape name 'x'");
    assert_eq!(ConfigError::InvalidListen.message(), "invalid listener address");
    assert_eq!(ConfigError::InvalidPath.message(), "invalid metrics path");
    assert_eq!(ConfigError::InvalidTimeout.message(), "invalid MQTT timeout");
    assert_eq!(ConfigError::InvalidReconnectTimeout.message(), "invalid MQTT reconnect timeout");
    assert_eq!(ConfigError::InvalidTopic.message(), "invalid MQTT topic");
}
