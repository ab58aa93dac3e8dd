use prometheus_mqtt_transport::export::reply::{
    append_histogram_result, append_summary_result, build_reply, build_reply_string, collect,
    find_series, merge_payload, FamilyKind,
};
use prometheus_mqtt_transport::payload::{Message, Payload};

fn payload(name: &str, data_type: &str, help: &str, data: &[&str]) -> Payload {
    let mut p = Payload::new();
    p.metric_name = name.to_string();
    p.data_type = data_type.to_string();
    p.help = help.to_string();
    p.data = data.iter().map(|s| s.to_string()).collect();
    p
}

fn message(name: &str, payload: Vec<Payload>) -> Message {
    let mut m = Message::new();
    m.name = name.to_string();
    m.expiration = 60;
    m.payload = payload;
    m
}

#[test]
fn empty_cache_gives_empty_document() {
    assert_eq!(build_reply_string(&vec![]), "");
}

#[test]
fn ordinary_metric_block() {
    let m = message("node1", vec![payload("up", "gauge", "Target is up", &["up 1"])]);
    assert_eq!(
        build_reply_string(&vec![m]),
        "# TYPE up gauge\nup 1\n# HELP up Target is up\n"
    );
}

#[test]
fn metrics_without_type_and_help_are_left_out() {
    let m = message("node1", vec![payload("up", "", "", &["up 1"])]);
    assert_eq!(build_reply_string(&vec![m]), "");
    let m = message("node1", vec![payload("up", "", "only help", &["up 1"])]);
    assert_eq!(build_reply_string(&vec![m]), "# TYPE up \nup 1\n# HELP up only help\n");
}

#[test]
fn sources_are_merged_by_metric_name() {
    let a = message("a", vec![payload("up", "gauge", "", &["up{s=\"a\"} 1"])]);
    let b = message("b", vec![payload("up", "counter", "Target is up", &["up{s=\"b\"} 0"])]);
    let table = collect(&vec![a.clone(), b.clone()]);
    assert_eq!(table.len(), 1);
    assert_eq!(table[0].data_type, "gauge");
    assert_eq!(table[0].help, "Target is up");
    assert_eq!(
        build_reply_string(&vec![a, b]),
        "# TYPE up gauge\nup{s=\"a\"} 1\nup{s=\"b\"} 0\n# HELP up Target is up\n"
    );
}

fn histogram_message() -> Message {
    message(
        "node1",
        vec![
            payload("foo_sum", "", "", &["foo_sum 5.5"]),
            payload("foo", "histogram", "A histogram", &[]),
            payload("foo_bucket", "", "", &["foo_bucket{le=\"1\"} 2", "foo_bucket{le=\"+Inf\"} 3"]),
            payload("up", "gauge", "Target is up", &["up 1"]),
            payload("foo_count", "", "", &["foo_count 3"]),
        ],
    )
}

#[test]
fn histogram_reconstruction() {
    let reply = build_reply_string(&vec![histogram_message()]);
    assert_eq!(
        reply,
        "# TYPE up gauge\nup 1\n# HELP up Target is up\n\
         # TYPE foo histogram\nfoo_bucket{le=\"1\"} 2\nfoo_bucket{le=\"+Inf\"} 3\nfoo_count 3\nfoo_sum 5.5\n# HELP foo A histogram\n"
    );
    assert_eq!(reply.matches("# TYPE foo ").count(), 1);
    assert_eq!(reply.matches("# HELP foo ").count(), 1);
}

#[test]
fn histogram_with_missing_series_is_left_out() {
    let m = message(
        "node1",
        vec![
            payload("foo", "histogram", "A histogram", &[]),
            payload("foo_bucket", "", "", &["foo_bucket{le=\"+Inf\"} 3"]),
            payload("up", "gauge", "Target is up", &["up 1"]),
        ],
    );
    let table = collect(&vec![m.clone()]);
    let mut result: Vec<String> = vec!["kept".to_string()];
    let e = append_histogram_result(&table, "foo", "A histogram", "histogram", &mut result).unwrap_err();
    assert_eq!(e.kind, FamilyKind::Histogram);
    assert_eq!(e.name, "foo");
    assert_eq!(e.missing, "foo_count");
    assert_eq!(e.message(), "foo is of type histogram but no data found for foo_count");
    assert_eq!(result, vec!["kept".to_string()]);
    let reply = build_reply_string(&vec![m]);
    assert_eq!(reply, "# TYPE up gauge\nup 1\n# HELP up Target is up\n");
    assert!(!reply.contains("foo"));
}

#[test]
fn summary_reconstruction() {
    let m = message(
        "node1",
        vec![
            payload("gc", "summary", "Pauses", &["gc{quantile=\"0\"} 1", "gc{quantile=\"1\"} 2"]),
            payload("gc_sum", "", "", &["gc_sum 3"]),
            payload("gc_count", "", "", &["gc_count 2"]),
        ],
    );
    assert_eq!(
        build_reply_string(&vec![m]),
        "# TYPE gc summary\ngc{quantile=\"0\"} 1\ngc{quantile=\"1\"} 2\ngc_count 2\ngc_sum 3\n# HELP gc Pauses\n"
    );
}

#[test]
fn summary_with_missing_series_reports_it() {
    let table = vec![payload("gc", "summary", "Pauses", &["gc{quantile=\"0\"} 1"]), payload("gc_count", "", "", &["gc_count 2"])];
    let mut result: Vec<String> = Vec::new();
    let e = append_summary_result(&table, "gc", "Pauses", "summary", &mut result).unwrap_err();
    assert_eq!(e.kind, FamilyKind::Summary);
    assert_eq!(e.missing, "gc_sum");
    assert!(result.is_empty());
    let e = append_summary_result(&table, "other", "", "summary", &mut result).unwrap_err();
    assert_eq!(e.missing, "other");
}

#[test]
fn append_histogram_result_appends_five_blocks() {
    let table = collect(&vec![histogram_message()]);
    let mut result: Vec<String> = Vec::new();
    append_histogram_result(&table, "foo", "A histogram", "histogram", &mut result).unwrap();
    assert_eq!(
        result,
        vec![
            "# TYPE foo histogram".to_string(),
            "foo_bucket{le=\"1\"} 2\nfoo_bucket{le=\"+Inf\"} 3".to_string(),
            "foo_count 3".to_string(),
            "foo_sum 5.5".to_string(),
            "# HELP foo A histogram".to_string(),
        ]
    );
}

#[test]
fn histogram_series_from_several_sources_stay_together() {
    let a = message(
        "a",
        vec![
            payload("foo", "histogram", "H", &[]),
            payload("foo_bucket", "", "", &["foo_bucket{s=\"a\"} 1"]),
            payload("foo_count", "", "", &["foo_count{s=\"a\"} 1"]),
            payload("foo_sum", "", "", &["foo_sum{s=\"a\"} 1"]),
        ],
    );
    let b = message(
        "b",
        vec![
            payload("foo", "histogram", "H", &[]),
            payload("foo_bucket", "", "", &["foo_bucket{s=\"b\"} 2"]),
            payload("foo_count", "", "", &["foo_count{s=\"b\"} 2"]),
            payload("foo_sum", "", "", &["foo_sum{s=\"b\"} 2"]),
        ],
    );
    assert_eq!(
        build_reply_string(&vec![a, b]),
        "# TYPE foo histogram\nfoo_bucket{s=\"a\"} 1\nfoo_bucket{s=\"b\"} 2\nfoo_count{s=\"a\"} 1\nfoo_count{s=\"b\"} 2\nfoo_sum{s=\"a\"} 1\nfoo_sum{s=\"b\"} 2\n# HELP foo H\n"
    );
}

#[test]
fn incomplete_families_are_reported_in_order() {
    let m = message(
        "node1",
        vec![
            payload("gc", "summary", "Pauses", &["gc 1"]),
            payload("foo", "histogram", "A histogram", &[]),
            payload("bar", "histogram", "Another", &[]),
            payload("bar_bucket", "", "", &["bar_bucket 1"]),
            payload("bar_count", "", "", &["bar_count 1"]),
        ],
    );
    let reply = build_reply(&vec![m]);
    assert_eq!(reply.text, "");
    let found: Vec<(FamilyKind, &str, &str)> = reply
        .incomplete
        .iter()
        .map(|e| (e.kind, e.name.as_str(), e.missing.as_str()))
        .collect();
    assert_eq!(
        found,
        vec![
            (FamilyKind::Histogram, "foo", "foo_bucket"),
            (FamilyKind::Histogram, "bar", "bar_sum"),
            (FamilyKind::Summary, "gc", "gc_count"),
        ]
    );
}

#[test]
fn merging_keeps_the_first_type_and_help() {
    let mut table = vec![payload("up", "", "first help", &["up 1"])];
    merge_payload(&mut table, &payload("up", "gauge", "second help", &["up 2", "up 3"]));
    merge_payload(&mut table, &payload("down", "counter", "", &[]));
    merge_payload(&mut table, &payload("up", "counter", "", &[]));
    assert_eq!(table.len(), 2);
    assert_eq!(table[0].metric_name, "up");
    assert_eq!(table[0].data_type, "gauge");
    assert_eq!(table[0].help, "first help");
    assert_eq!(table[0].data, vec!["up 1".to_string(), "up 2".to_string(), "up 3".to_string()]);
    assert_eq!(table[1].metric_name, "down");
    assert_eq!(find_series(&table, &"down".to_string()), 1);
    assert_eq!(find_series(&table, &"none".to_string()), 2);
}

#[test]
fn a_type_that_a_later_source_declares_decides_the_family() {
    let a = message("a", vec![payload("foo", "", "", &["foo 1"])]);
    let b = message(
        "b",
        vec![
            payload("foo", "summary", "S", &["foo{quantile=\"1\"} 2"]),
            payload("foo_count", "", "", &["foo_count 1"]),
            payload("foo_sum", "", "", &["foo_sum 2"]),
        ],
    );
    assert_eq!(
        build_reply_string(&vec![a, b]),
        "# TYPE foo summary\nfoo 1\nfoo{quantile=\"1\"} 2\nfoo_count 1\nfoo_sum 2\n# HELP foo S\n"
    );
}

#[test]
fn default_values_are_empty() {
    let p = Payload::default();
    assert!(p.data.is_empty());
    assert_eq!(p.data_type, "");
    assert_eq!(p.help, "");
    assert_eq!(p.metric_name, "");
    let m = Message::default();
    assert_eq!(m.expiration, 0);
    assert_eq!(m.name, "");
    assert!(m.payload.is_empty());
    let n = Message::new();
    assert_eq!(n.expiration, 0);
    assert!(n.payload.is_empty());
}

#[test]
fn clones_are_deep() {
    let m = histogram_message();
    let mut c = m.clone();
    c.payload[0].data.push("extra".to_string());
    c.name.push('x');
    assert_eq!(m.name, "node1");
    assert_eq!(m.payload[0].data, vec!["foo_sum 5.5".to_string()]);
    assert_eq!(c.payload.len(), m.payload.len());
    assert_eq!(c.payload[1].metric_name, "foo");
    assert_eq!(c.expiration, 60);
}

#[test]
fn a_family_from_several_sources_has_one_type_line_and_one_help_line() {
    let a = message(
        "a",
        vec![
            payload("foo_sum", "", "", &["foo_sum{s=\"a\"} 1"]),
            payload("foo", "histogram", "H", &[]),
            payload("foo_bucket", "", "", &["foo_bucket{s=\"a\",le=\"1\"} 1", "foo_bucket{s=\"a\",le=\"+Inf\"} 1"]),
            payload("foo_count", "", "", &["foo_count{s=\"a\"} 1"]),
        ],
    );
    let b = message(
        "b",
        vec![
            payload("foo_count", "", "", &["foo_count{s=\"b\"} 2"]),
            payload("foo_bucket", "", "", &["foo_bucket{s=\"b\",le=\"+Inf\"} 2"]),
            payload("up", "gauge", "Up", &["up 1"]),
            payload("foo", "histogram", "other help", &[]),
            payload("foo_sum", "", "", &["foo_sum{s=\"b\"} 2"]),
        ],
    );
    let reply = build_reply_string(&vec![a, b]);
    let lines: Vec<&str> = reply.lines().collect();
    assert_eq!(lines.iter().filter(|l| **l == "# TYPE foo histogram").count(), 1);
    assert_eq!(lines.iter().filter(|l| l.starts_with("# HELP foo ")).count(), 1);
    assert!(!lines.iter().any(|l| l.starts_with("# TYPE foo_") || l.starts_with("# HELP foo_")));
    let at = lines.iter().position(|l| *l == "# TYPE foo histogram").unwrap();
    assert_eq!(
        lines[at..at + 8].to_vec(),
        vec![
            "# TYPE foo histogram",
            "foo_bucket{s=\"a\",le=\"1\"} 1",
            "foo_bucket{s=\"a\",le=\"+Inf\"} 1",
            "foo_bucket{s=\"b\",le=\"+Inf\"} 2",
            "foo_count{s=\"a\"} 1",
            "foo_count{s=\"b\"} 2",
            "foo_sum{s=\"a\"} 1",
            "foo_sum{s=\"b\"} 2",
        ]
    );
    assert_eq!(lines[at + 8], "# HELP foo H");
    assert_eq!(lines.len(), 12);
    assert!(reply.ends_with("# HELP foo H\n"));
}

#[test]
fn a_series_without_lines_is_written_as_an_empty_line() {
    let m = message(
        "a",
        vec![
            payload("foo", "histogram", "H", &[]),
            payload("foo_bucket", "", "", &[]),
            payload("foo_count", "", "", &["foo_count 0"]),
            payload("foo_sum", "", "", &["foo_sum 0"]),
        ],
    );
    assert_eq!(
        build_reply_string(&vec![m]),
        "# TYPE foo histogram\n\nfoo_count 0\nfoo_sum 0\n# HELP foo H\n"
    );
}
