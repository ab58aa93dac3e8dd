use prometheus_mqtt_transport::envelope::{
    build_mqtt_message, framing, parse_raw_metrics, EnvelopeError, Framing,
};
use prometheus_mqtt_transport::export;
use prometheus_mqtt_transport::fetch::exporter::{gauge_value, register, Gauges};

fn build(text: &str, compress: bool) -> Result<Vec<u8>, EnvelopeError> {
    build_mqtt_message(text, compress, &mut register())
}

const DOCUMENT: &str = "[{\"expiration\":60,\"name\":\"node1\",\"payload\":[]}]";

#[test]
fn plain_envelope_is_the_text() {
    let bytes = build(DOCUMENT, false).unwrap();
    assert_eq!(bytes, DOCUMENT.as_bytes().to_vec());
}

#[test]
fn plain_envelope_round_trip() {
    let bytes = build(DOCUMENT, false).unwrap();
    assert_eq!(parse_raw_metrics(bytes), Ok(DOCUMENT.to_string()));
}

#[test]
fn compressed_envelope_starts_with_gzip_magic() {
    let bytes = build(DOCUMENT, true).unwrap();
    assert!(bytes.len() >= 2);
    assert_eq!(bytes[0], 0x1f);
    assert_eq!(bytes[1], 0x8b);
    assert_ne!(bytes, DOCUMENT.as_bytes().to_vec());
}

#[test]
fn compressed_envelope_round_trip() {
    let bytes = build(DOCUMENT, true).unwrap();
    assert_eq!(parse_raw_metrics(bytes), Ok(DOCUMENT.to_string()));
}

#[test]
fn compressed_envelope_round_trip_of_short_text() {
    let bytes = build("", true).unwrap();
    assert_eq!(parse_raw_metrics(bytes), Ok(String::new()));
}

#[test]
fn gzip_from_elsewhere_is_read() {
    // The gzip member that another implementation makes of the text `[]`.
    let member: Vec<u8> = vec![
        0x1f, 0x8b, 0x08, 0x00, 0x00, 0x00, 0x00, 0x00, 0x02, 0x03, 0x8b, 0x8e, 0x05, 0x00, 0x29,
        0xbb, 0x4c, 0x0d, 0x02, 0x00, 0x00, 0x00,
    ];
    assert_eq!(parse_raw_metrics(member), Ok("[]".to_string()));
}

#[test]
fn compression_is_deterministic() {
    assert_eq!(build(DOCUMENT, true), build(DOCUMENT, true));
}

#[test]
fn short_envelope_is_refused() {
    assert_eq!(parse_raw_metrics(vec![]), Err(EnvelopeError::ShortPayload));
    assert_eq!(parse_raw_metrics(vec![b'x']), Err(EnvelopeError::ShortPayload));
    assert_eq!(build("x", false), Ok(vec![b'x']));
}

#[test]
fn invalid_utf8_is_a_decode_error() {
    assert_eq!(parse_raw_metrics(vec![0xff, 0xfe, 0x00]), Err(EnvelopeError::DecodeError));
}

#[test]
fn broken_gzip_is_a_decode_error() {
    assert_eq!(parse_raw_metrics(vec![0x1f, 0x8b, 0x00, 0x01]), Err(EnvelopeError::DecodeError));
    let mut bytes = build(DOCUMENT, true).unwrap();
    let n = bytes.len();
    bytes.truncate(n - 4);
    assert_eq!(parse_raw_metrics(bytes), Err(EnvelopeError::DecodeError));
}

#[test]
fn gzip_of_invalid_utf8_is_a_decode_error() {
    // A well-formed gzip member whose content is the single byte 0xff.
    let member: Vec<u8> = vec![
        0x1f, 0x8b, 0x08, 0x00, 0x00, 0x00, 0x00, 0x00, 0x02, 0x03, 0xfb, 0x0f, 0x00, 0x00, 0x00,
        0x00, 0xff, 0x01, 0x00, 0x00, 0x00,
    ];
    assert_eq!(parse_raw_metrics(member), Err(EnvelopeError::DecodeError));
}

#[test]
fn framing_goes_by_the_first_two_bytes() {
    assert_eq!(framing(&vec![]), Framing::Short);
    assert_eq!(framing(&vec![0x1f]), Framing::Short);
    assert_eq!(framing(&vec![0x1f, 0x8b]), Framing::Gzip);
    assert_eq!(framing(&vec![0x1f, 0x8b, 0x00]), Framing::Gzip);
    assert_eq!(framing(&vec![0x8b, 0x1f]), Framing::Plain);
    assert_eq!(framing(&vec![0x1f, 0x8c]), Framing::Plain);
    assert_eq!(framing(&vec![b'[', b']']), Framing::Plain);
}

#[test]
fn sizes_are_recorded() {
    let mut gauges = register();
    assert_eq!(gauges, Gauges { compression: 0, size: 0, compressed_size: 0, mqtt_qos: 0, mqtt_success: 0 });
    let plain = build_mqtt_message(DOCUMENT, false, &mut gauges).unwrap();
    assert_eq!(gauges.size, DOCUMENT.len() as i64);
    assert_eq!(gauges.compressed_size, plain.len() as i64);
    assert_eq!(gauges.compression, 0);
    let packed = build_mqtt_message("aaaaaaaaaaaaaaaaaaaaaaaaaaaaaaaaaaaaaaaaaaaaaaaaaaaaaaaaaaaaaaaaaaaaaaaa", true, &mut gauges).unwrap();
    assert_eq!(gauges.size, 72);
    assert_eq!(gauges.compressed_size, packed.len() as i64);
    assert!(packed.len() < 72);
    assert_eq!(gauges.compression, 1);
    assert_eq!(gauges.mqtt_qos, 0);
    assert_eq!(gauges.mqtt_success, 0);
}

#[test]
fn publishing_is_recorded() {
    let mut gauges = register();
    gauges.published(2, true);
    assert_eq!(gauges.mqtt_qos, 2);
    assert_eq!(gauges.mqtt_success, 1);
    gauges.published(1, false);
    assert_eq!(gauges.mqtt_qos, 2);
    assert_eq!(gauges.mqtt_success, 0);
    gauges.batch_serialised(10);
    gauges.envelope_built(7, true);
    assert_eq!(gauges, Gauges { compression: 1, size: 10, compressed_size: 7, mqtt_qos: 2, mqtt_success: 0 });
    assert_eq!(gauge_value(0), 0);
    assert_eq!(gauge_value(usize::MAX), i64::MAX);
}

#[test]
fn received_envelopes_are_counted() {
    let mut counters = export::exporter::register();
    counters.received(Framing::Plain, 100, 100);
    counters.received(Framing::Gzip, 40, 400);
    counters.received(Framing::Gzip, 60, 600);
    counters.received(Framing::Short, 1, 0);
    assert_eq!(counters.bytes_received_no_comp_total, 100);
    assert_eq!(counters.messages_received_no_comp_total, 1);
    assert_eq!(counters.bytes_received_comp_total, 100);
    assert_eq!(counters.messages_received_comp_total, 2);
    assert_eq!(counters.bytes_received_decomp_total, 1000);
    assert_eq!(export::exporter::count(u64::MAX, 2), 1);
}
