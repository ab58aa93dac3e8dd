use prometheus_mqtt_transport::constants::{DEFAULT_MQTT_RECONNECT_TIMEOUT, DEFAULT_MQTT_TIMEOUT, MAXIMAL_CLIENT_ID_LENGTH};
use prometheus_mqtt_transport::http::{body, check_status, route, status_code, Route, ScrapeFailure};
use prometheus_mqtt_transport::mqtt::{
    after_connect, client_builder, connect_failed, connection_builder, mqtt_default_client_id,
    mqtt_default_reconnect_timeout, mqtt_default_timeout, send_step, AfterConnect, Retry, SendStep,
    MQTT,
};

fn mqtt(broker: &str) -> MQTT {
    MQTT {
        broker: broker.to_string(),
        ca_cert: String::new(),
        clean_session: true,
        client_id: "client".to_string(),
        insecure_ssl: false,
        password: "secret".to_string(),
        qos: 0,
        reconnect_timeout: 300,
        timeout: 15,
        topic: "metrics".to_string(),
        user: "user".to_string(),
    }
}

#[test]
fn mqtt_defaults() {
    assert_eq!(mqtt_default_timeout(), 15);
    assert_eq!(mqtt_default_reconnect_timeout(), 300);
    assert_eq!(DEFAULT_MQTT_TIMEOUT, 15);
    assert_eq!(DEFAULT_MQTT_RECONNECT_TIMEOUT, 300);
    assert_eq!(MAXIMAL_CLIENT_ID_LENGTH, 23);
}

#[test]
fn client_id_is_random_letters_and_digits() {
    let a = mqtt_default_client_id();
    let b = mqtt_default_client_id();
    assert_eq!(a.chars().count(), 23);
    assert!(a.chars().all(|c| c.is_ascii_alphanumeric()));
    assert!(b.chars().all(|c| c.is_ascii_alphanumeric()));
    assert_ne!(a, b);
}

#[test]
fn plain_connection() {
    let o = connection_builder(&mqtt("tcp://broker:1883"));
    assert_eq!(o.automatic_reconnect_min, 1);
    assert_eq!(o.automatic_reconnect_max, 15);
    assert!(o.clean_session);
    assert_eq!(o.connect_timeout, 15);
    assert_eq!(o.user_name, "user");
    assert_eq!(o.password, "secret");
    assert_eq!(o.retry_interval, 1);
    assert!(o.ssl_options.is_none());
}

#[test]
fn encrypted_connection() {
    let mut cfg = mqtt("ssl://broker:8883");
    let ssl = connection_builder(&cfg).ssl_options.unwrap();
    assert!(ssl.trust_store.is_none());
    assert!(ssl.enable_server_cert_auth);
    assert!(ssl.verify);
    cfg.broker = "tls://broker:8883".to_string();
    cfg.ca_cert = "/etc/ssl/ca.pem".to_string();
    cfg.insecure_ssl = true;
    let ssl = connection_builder(&cfg).ssl_options.unwrap();
    assert_eq!(ssl.trust_store, Some("/etc/ssl/ca.pem".to_string()));
    assert!(!ssl.enable_server_cert_auth);
    assert!(!ssl.verify);
    cfg.broker = "mqtt://tls://broker".to_string();
    assert!(connection_builder(&cfg).ssl_options.is_none());
}

#[test]
fn client_options() {
    let o = client_builder(&mqtt("tcp://broker:1883"));
    assert_eq!(o.client_id, "client");
    assert_eq!(o.server_uri, "tcp://broker:1883");
}

#[test]
fn reconnecting_is_bounded() {
    assert_eq!(connect_failed(0, 2), Retry::Again(1));
    assert_eq!(connect_failed(2, 2), Retry::Again(3));
    assert_eq!(connect_failed(3, 2), Retry::GiveUp);
    assert_eq!(connect_failed(u64::MAX, u64::MAX), Retry::GiveUp);
    let mut ticktock = 0;
    let mut attempts = 1;
    while let Retry::Again(next) = connect_failed(ticktock, 5) {
        ticktock = next;
        attempts += 1;
    }
    assert_eq!(attempts, 7);
}

#[test]
fn subscribing_depends_on_the_session() {
    assert_eq!(after_connect(Some(false)), AfterConnect::Subscribe);
    assert_eq!(after_connect(Some(true)), AfterConnect::Consume);
    assert_eq!(after_connect(None), AfterConnect::Fail);
}

#[test]
fn sending() {
    assert_eq!(send_step(0, true), SendStep::Drop);
    assert_eq!(send_step(1, false), SendStep::Drop);
    assert_eq!(send_step(2, false), SendStep::ReconnectAndPublish);
    assert_eq!(send_step(2, true), SendStep::Publish);
}

#[test]
fn routes() {
    assert_eq!(route(true, "/", "/metrics"), Route::Root);
    assert_eq!(route(true, "/metrics", "/metrics"), Route::Metrics);
    assert_eq!(route(true, "/metrics/", "/metrics"), Route::NotFound);
    assert_eq!(route(true, "", "/metrics"), Route::NotFound);
    assert_eq!(route(false, "/metrics", "/metrics"), Route::MethodNotAllowed);
    assert_eq!(route(false, "/", "/metrics"), Route::MethodNotAllowed);
    assert_eq!(route(true, "/", "/"), Route::Root);
    assert_eq!(status_code(Route::Root), 302);
    assert_eq!(status_code(Route::Metrics), 200);
    assert_eq!(status_code(Route::NotFound), 404);
    assert_eq!(status_code(Route::MethodNotAllowed), 405);
    assert_eq!(body(Route::Root, "<html>", "doc".to_string()), "<html>");
    assert_eq!(body(Route::Metrics, "<html>", "doc".to_string()), "doc");
    assert_eq!(body(Route::NotFound, "<html>", "doc".to_string()), "Not found");
    assert_eq!(body(Route::MethodNotAllowed, "<html>", "doc".to_string()), "Method not allowed");
}

#[test]
fn only_status_200_is_a_scrape() {
    assert_eq!(check_status(200), Ok(()));
    assert_eq!(check_status(204), Err(ScrapeFailure { status: 204 }));
    assert_eq!(check_status(500), Err(ScrapeFailure { status: 500 }));
}
