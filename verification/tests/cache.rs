use prometheus_mqtt_transport::export::data::{handler, purge_expired, Cache, Data};
use prometheus_mqtt_transport::fetch::massage::parse_scrape_data;
use prometheus_mqtt_transport::labels::Labels;
use prometheus_mqtt_transport::payload::Message;

fn source(name: &str, expiration: i64, value: &str) -> Message {
    let text = format!("# HELP up Target is up\n# TYPE up gauge\nup{{s=\"{}\"}} {}\n", name, value);
    parse_scrape_data(&text, name, &Labels::new(), expiration).unwrap()
}

fn names(cache: &Cache) -> Vec<String> {
    cache.messages().iter().map(|m| m.name.clone()).collect()
}

#[test]
fn ingest_overwrites_per_source() {
    let mut cache = Cache::new();
    cache.ingest(vec![source("a", 60, "1"), source("b", 60, "1")], 0);
    cache.ingest(vec![source("a", 60, "2")], 10);
    assert_eq!(cache.len(), 2);
    assert_eq!(names(&cache), vec!["a".to_string(), "b".to_string()]);
    assert_eq!(cache.messages()[0].payload[0].data, vec!["up{s=\"a\"} 2".to_string()]);
}

#[test]
fn last_message_of_a_source_wins_within_one_batch() {
    let mut cache = Cache::new();
    cache.ingest(vec![source("a", 60, "1"), source("b", 60, "1"), source("a", 60, "3")], 0);
    assert_eq!(names(&cache), vec!["a".to_string(), "b".to_string()]);
    assert_eq!(cache.messages()[0].payload[0].data, vec!["up{s=\"a\"} 3".to_string()]);
}

#[test]
fn ttl_boundary() {
    let mut cache = Cache::new();
    cache.ingest(vec![source("a", 60, "1")], 100);
    assert_eq!(cache.snapshot_and_purge(159).len(), 1);
    assert_eq!(cache.len(), 1);
    assert_eq!(cache.snapshot_and_purge(160).len(), 0);
    assert_eq!(cache.len(), 0);
}

#[test]
fn refreshed_source_lives_on() {
    let mut cache = Cache::new();
    cache.ingest(vec![source("a", 60, "1")], 0);
    cache.ingest(vec![source("a", 60, "1")], 50);
    assert_eq!(cache.snapshot_and_purge(100).len(), 1);
    assert_eq!(cache.snapshot_and_purge(110).len(), 0);
}

#[test]
fn purge_is_idempotent() {
    let mut cache = Cache::new();
    cache.ingest(vec![source("a", 10, "1"), source("b", 60, "1"), source("c", 5, "1")], 0);
    let first: Vec<String> = cache.snapshot_and_purge(10).iter().map(|m| m.name.clone()).collect();
    let second: Vec<String> = cache.snapshot_and_purge(10).iter().map(|m| m.name.clone()).collect();
    assert_eq!(first, vec!["b".to_string()]);
    assert_eq!(first, second);
    assert_eq!(cache.len(), 1);
}

#[test]
fn purge_keeps_the_order_of_the_sources() {
    let mut cache = Cache::new();
    cache.ingest(vec![source("a", 60, "1"), source("b", 5, "1"), source("c", 60, "1")], 0);
    purge_expired(&mut cache, 30);
    assert_eq!(names(&cache), vec!["a".to_string(), "c".to_string()]);
}

#[test]
fn expiry_does_not_overflow() {
    let mut cache = Cache::new();
    cache.ingest(vec![source("a", 60, "1")], i64::MIN);
    assert_eq!(cache.snapshot_and_purge(i64::MAX).len(), 0);
    cache.ingest(vec![source("a", i64::MAX, "1")], i64::MAX);
    assert_eq!(cache.snapshot_and_purge(i64::MIN).len(), 1);
}

#[test]
fn handler_answers_requests_only() {
    let mut cache = Cache::new();
    assert!(handler(&mut cache, Data::MetricData(vec![source("a", 60, "1")]), 0).is_none());
    let reply = handler(&mut cache, Data::HTTPRequest, 30).unwrap();
    assert_eq!(reply.text, "# TYPE up gauge\nup{s=\"a\"} 1\n# HELP up Target is up\n");
    assert!(reply.incomplete.is_empty());
    let reply = handler(&mut cache, Data::HTTPRequest, 61).unwrap();
    assert_eq!(reply.text, "");
    assert_eq!(cache.len(), 0);
}

#[test]
fn end_to_end() {
    let m = parse_scrape_data("# HELP up ...\n# TYPE up gauge\nup 1\n", "node1", &Labels::new(), 60).unwrap();
    assert_eq!(m.name, "node1");
    assert_eq!(m.expiration, 60);
    assert_eq!(m.payload.len(), 1);
    assert_eq!(m.payload[0].metric_name, "up");
    assert_eq!(m.payload[0].data_type, "gauge");
    assert_eq!(m.payload[0].help, "...");
    assert_eq!(m.payload[0].data, vec!["up 1".to_string()]);
    let mut cache = Cache::new();
    cache.ingest(vec![m], 0);
    let at_30 = cache.snapshot_and_purge(30);
    assert_eq!(at_30.len(), 1);
    assert_eq!(at_30[0].name, "node1");
    assert_eq!(cache.snapshot_and_purge(61).len(), 0);
}

#[test]
fn handler_reports_incomplete_families() {
    let text = "# TYPE foo histogram\n# HELP foo A histogram\nfoo_bucket{le=\"+Inf\"} 3\n# TYPE up gauge\nup 1\n";
    let m = parse_scrape_data(text, "node1", &Labels::new(), 60).unwrap();
    let mut cache = Cache::new();
    assert!(handler(&mut cache, Data::MetricData(vec![m]), 0).is_none());
    let reply = handler(&mut cache, Data::HTTPRequest, 1).unwrap();
    assert_eq!(reply.text, "# TYPE up gauge\nup 1\n# HELP up \n");
    assert_eq!(reply.incomplete.len(), 1);
    assert_eq!(reply.incomplete[0].name, "foo");
    assert_eq!(reply.incomplete[0].missing, "foo_count");
}
