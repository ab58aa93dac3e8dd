use prometheus_mqtt_transport::fetch::config::{Configuration, Global, Prometheus, Scrape};
use prometheus_mqtt_transport::fetch::constants::generate_user_agent;
use prometheus_mqtt_transport::fetch::massage::MalformedLine;
use prometheus_mqtt_transport::fetch::scrape::{
    due, due_sources, effective_interval, effective_timeout, scrape_failed, scraped,
};
use prometheus_mqtt_transport::fetch::usage::usage_text;
use prometheus_mqtt_transport::labels::Labels;
use prometheus_mqtt_transport::mqtt::MQTT;
use prometheus_mqtt_transport::usage::version_text;

fn scrape(name: &str, interval: Option<i64>, last_scrape: i64) -> Scrape {
    let mut labels = Labels::new();
    labels.insert("prom2mqtt_fetch_scrape".to_string(), name.to_string());
    Scrape {
        interval,
        labels,
        last_scrape,
        name: name.to_string(),
        suppress_scrape_name: false,
        timeout: None,
        url: "http://localhost/".to_string(),
    }
}

fn config(scrapes: Vec<Scrape>) -> Configuration {
    Configuration {
        global: Global { interval: 60, compress: false, timeout: 10 },
        mqtt: MQTT {
            broker: "tcp://localhost:1883".to_string(),
            ca_cert: String::new(),
            clean_session: false,
            client_id: "client".to_string(),
            insecure_ssl: false,
            password: String::new(),
            qos: 0,
            reconnect_timeout: 300,
            timeout: 15,
            topic: "metrics".to_string(),
            user: String::new(),
        },
        prometheus: Prometheus::default(),
        scrape: scrapes,
    }
}

#[test]
fn own_settings_go_before_global_ones() {
    let g = Global { interval: 60, compress: false, timeout: 10 };
    let mut s = scrape("a", None, 0);
    assert_eq!(effective_interval(&s, &g), 60);
    assert_eq!(effective_timeout(&s, &g), 10);
    s.interval = Some(5);
    s.timeout = Some(3);
    assert_eq!(effective_interval(&s, &g), 5);
    assert_eq!(effective_timeout(&s, &g), 3);
}

#[test]
fn a_source_is_due_once_its_interval_has_passed() {
    let g = Global { interval: 60, compress: false, timeout: 10 };
    let s = scrape("a", None, 100);
    assert!(!due(&s, &g, 159));
    assert!(due(&s, &g, 160));
    assert!(due(&s, &g, 1000));
    assert!(due(&scrape("a", Some(10), i64::MIN), &g, i64::MAX));
    assert!(!due(&scrape("a", Some(10), i64::MAX), &g, i64::MIN));
    assert!(due(&scrape("fresh", None, 0), &g, 1_700_000_000));
}

#[test]
fn due_sources_are_listed_in_order() {
    let c = config(vec![scrape("a", None, 100), scrape("b", Some(10), 100), scrape("c", Some(10), 105), scrape("d", Some(1), 0)]);
    assert_eq!(due_sources(&c, 110), vec![1, 3]);
    assert_eq!(due_sources(&c, 115), vec![1, 2, 3]);
    assert_eq!(due_sources(&c, 160), vec![0, 1, 2, 3]);
    assert_eq!(due_sources(&c, 0), Vec::<usize>::new());
    assert_eq!(due_sources(&config(vec![]), 0), Vec::<usize>::new());
}

#[test]
fn a_scrape_is_parsed_and_marked() {
    let g = Global { interval: 60, compress: false, timeout: 10 };
    let mut s = scrape("a", Some(30), 0);
    let m = scraped(&mut s, &g, 500, "# TYPE up gauge\n# HELP up Target is up\nup 1\n").unwrap();
    assert_eq!(s.last_scrape, 500);
    assert_eq!(m.name, "a");
    assert_eq!(m.expiration, 30);
    assert_eq!(m.payload[0].data, vec!["up{prom2mqtt_fetch_scrape=\"a\"} 1".to_string()]);
    assert!(!due(&s, &g, 529));
    assert!(due(&s, &g, 530));
}

#[test]
fn a_failed_scrape_waits_for_the_next_interval() {
    let g = Global { interval: 60, compress: false, timeout: 10 };
    let mut s = scrape("a", None, 0);
    match scraped(&mut s, &g, 500, "# oops\n") {
        Err(MalformedLine::TooFewFields(line)) => assert_eq!(line, "# oops"),
        other => panic!("unexpected {:?}", other),
    }
    assert_eq!(s.last_scrape, 500);
    scrape_failed(&mut s, 700);
    assert_eq!(s.last_scrape, 700);
    assert_eq!(s.name, "a");
    assert!(!due(&s, &g, 759));
}

#[test]
fn texts_of_the_program() {
    assert_eq!(generate_user_agent(), "prometheus-mqtt-transport/0.1.0");
    let version = version_text();
    assert!(version.starts_with("prometheus-mqtt-transport version 0.1.0\n"));
    assert!(version.ends_with("(http://www.gnu.org/copyleft/gpl.html)\n\n"));
    let usage = usage_text("prom2mqtt-fetch");
    assert!(usage.starts_with(&version));
    assert!(usage.contains("Usage: prom2mqtt-fetch [-c <cfg>|--config=<cfg>] [-h|--help] [-q|--quiet] [-C|--check] [-D|--debug] [-V|--version]\n"));
    assert!(usage.contains("    --config=<cfg>  Default: /etc/prometheus-mqtt-transport/fetch.yaml\n"));
    assert!(usage.ends_with("    --version\n\n\n"));
}
