use prometheus_mqtt_transport::labels::Labels;
use prometheus_mqtt_transport::fetch::massage::{add_labels, flatten_label_map, parse_scrape_data, MalformedLine};

fn one_label() -> Labels {
    let mut l = Labels::new();
    l.insert("job".to_string(), "node".to_string());
    l
}

#[test]
fn add_labels_without_labels_keeps_the_line() {
    let l = Labels::new();
    assert_eq!(add_labels("up 1", &l), "up 1");
    assert_eq!(add_labels("up{a=\"b\"} 1", &l), "up{a=\"b\"} 1");
}

#[test]
fn add_labels_builds_a_label_block() {
    assert_eq!(add_labels("up 1", &one_label()), "up{job=\"node\"} 1");
}

#[test]
fn add_labels_splices_into_a_label_block() {
    assert_eq!(
        add_labels("up{a=\"b\"} 1", &one_label()),
        "up{job=\"node\",a=\"b\"} 1"
    );
}

#[test]
fn add_labels_joins_several_labels_with_commas() {
    let mut l = one_label();
    l.insert("dc".to_string(), "east".to_string());
    assert_eq!(flatten_label_map(&l), vec!["job=\"node\"".to_string(), "dc=\"east\"".to_string()]);
    assert_eq!(add_labels("up 1", &l), "up{job=\"node\",dc=\"east\"} 1");
}

#[test]
fn parse_gauge_fixture() {
    let m = parse_scrape_data("# HELP up Whether the target is up.\n# TYPE up gauge\nup 1\n", "node1", &Labels::new(), 60).unwrap();
    assert_eq!(m.name, "node1");
    assert_eq!(m.expiration, 60);
    assert_eq!(m.payload.len(), 1);
    assert_eq!(m.payload[0].metric_name, "up");
    assert_eq!(m.payload[0].data_type, "gauge");
    assert_eq!(m.payload[0].help, "Whether the target is up.");
    assert_eq!(m.payload[0].data, vec!["up 1".to_string()]);
}

#[test]
fn parse_rejects_short_metadata_line() {
    match parse_scrape_data("up 1\n  # HELP up\r\nup 2\n", "n", &Labels::new(), 1) {
        Err(MalformedLine::TooFewFields(line)) => assert_eq!(line, "  # HELP up"),
        other => panic!("unexpected {:?}", other),
    }
}

#[test]
fn parse_rejects_unknown_metadata_kind() {
    match parse_scrape_data("# UNIT up seconds now\n", "n", &Labels::new(), 1) {
        Err(MalformedLine::InvalidType(kind)) => assert_eq!(kind, "UNIT"),
        other => panic!("unexpected {:?}", other),
    }
    match parse_scrape_data("#HELP up is up\n", "n", &Labels::new(), 1) {
        Err(MalformedLine::InvalidType(kind)) => assert_eq!(kind, "up"),
        other => panic!("unexpected {:?}", other),
    }
}

#[test]
fn parse_reports_the_first_malformed_line() {
    match parse_scrape_data("# UNIT a b c\n# short\n", "n", &Labels::new(), 1) {
        Err(MalformedLine::InvalidType(kind)) => assert_eq!(kind, "UNIT"),
        other => panic!("unexpected {:?}", other),
    }
    match parse_scrape_data("# short\n# UNIT a b c\n", "n", &Labels::new(), 1) {
        Err(MalformedLine::TooFewFields(line)) => assert_eq!(line, "# short"),
        other => panic!("unexpected {:?}", other),
    }
}

#[test]
fn malformed_line_messages() {
    assert_eq!(
        MalformedLine::TooFewFields(" # HELP up".to_string()).message(),
        "malformed Prometheus metric line: too few fields in \" # HELP up\""
    );
    assert_eq!(
        MalformedLine::InvalidType("UNIT".to_string()).message(),
        "malformed Prometheus metric line: invalid type UNIT"
    );
}

#[test]
fn parse_merges_lines_of_a_metric_in_any_order() {
    let text = "up{a=\"1\"} 1\n# TYPE up gauge\nother 5\n\n  up{a=\"2\"} 0  \r\n# HELP up Target   is\tup\n";
    let m = parse_scrape_data(text, "n", &Labels::new(), 15).unwrap();
    assert_eq!(m.payload.len(), 2);
    assert_eq!(m.payload[0].metric_name, "up");
    assert_eq!(m.payload[0].data_type, "gauge");
    assert_eq!(m.payload[0].help, "Target is up");
    assert_eq!(m.payload[0].data, vec!["up{a=\"1\"} 1".to_string(), "up{a=\"2\"} 0".to_string()]);
    assert_eq!(m.payload[1].metric_name, "other");
    assert_eq!(m.payload[1].data_type, "");
    assert_eq!(m.payload[1].help, "");
    assert_eq!(m.payload[1].data, vec!["other 5".to_string()]);
}

#[test]
fn parse_skips_blank_lines() {
    let m = parse_scrape_data("\n   \n\t\r\n", "n", &one_label(), 15).unwrap();
    assert_eq!(m.payload.len(), 0);
    let m = parse_scrape_data("", "n", &Labels::new(), 15).unwrap();
    assert_eq!(m.payload.len(), 0);
    assert_eq!(m.name, "n");
}

#[test]
fn parse_puts_labels_on_data_lines_only() {
    let text = "# HELP up Target is up\n# TYPE up gauge\nup 1\nup{a=\"b\"} 2\n";
    let m = parse_scrape_data(text, "n", &one_label(), 15).unwrap();
    assert_eq!(m.payload.len(), 1);
    assert_eq!(m.payload[0].help, "Target is up");
    assert_eq!(m.payload[0].data_type, "gauge");
    assert_eq!(
        m.payload[0].data,
        vec!["up{job=\"node\"} 1".to_string(), "up{job=\"node\",a=\"b\"} 2".to_string()]
    );
    for line in &m.payload[0].data {
        assert!(!line.starts_with('#'));
    }
}

#[test]
fn parse_keeps_histogram_series_apart() {
    let text = "# TYPE foo histogram\nfoo_bucket{le=\"1\"} 1\nfoo_bucket{le=\"+Inf\"} 2\nfoo_sum 3\nfoo_count 2\n";
    let m = parse_scrape_data(text, "n", &Labels::new(), 15).unwrap();
    let names: Vec<&str> = m.payload.iter().map(|p| p.metric_name.as_str()).collect();
    assert_eq!(names, vec!["foo", "foo_bucket", "foo_sum", "foo_count"]);
    assert!(m.payload[0].data.is_empty());
    assert_eq!(m.payload[1].data.len(), 2);
}

#[test]
fn later_metadata_replaces_earlier() {
    let m = parse_scrape_data("# TYPE up gauge\n# TYPE up counter\n", "n", &Labels::new(), 1).unwrap();
    assert_eq!(m.payload.len(), 1);
    assert_eq!(m.payload[0].data_type, "counter");
}

#[test]
fn add_labels_on_a_line_without_value() {
    assert_eq!(add_labels("up", &one_label()), "up{job=\"node\"} ");
    assert_eq!(add_labels("", &one_label()), "{job=\"node\"} ");
    assert_eq!(add_labels("up{", &one_label()), "up{job=\"node\",");
}

#[test]
fn add_labels_uses_the_first_brace_and_the_first_space() {
    assert_eq!(add_labels("up 1 1700000000", &one_label()), "up{job=\"node\"} 1 1700000000");
    assert_eq!(add_labels("up{a=\"{\"} 1", &one_label()), "up{job=\"node\",a=\"{\"} 1");
    assert_eq!(add_labels("up {a=\"b\"} 1", &one_label()), "up {job=\"node\",a=\"b\"} 1");
}

#[test]
fn a_line_without_space_is_all_name() {
    let m = parse_scrape_data("up\n", "n", &Labels::new(), 1).unwrap();
    assert_eq!(m.payload[0].metric_name, "up");
    assert_eq!(m.payload[0].data, vec!["up".to_string()]);
}
