//! The broker settings, and what they mean for a connection.

use vstd::prelude::*;
use vstd::string::*;
use crate::constants::{
    DEFAULT_MQTT_RECONNECT_TIMEOUT, DEFAULT_MQTT_TIMEOUT, MAXIMAL_CLIENT_ID_LENGTH,
};
use crate::text::starts_with;
use rand::Rng;

verus! {

/// The broker section of a configuration.
#[derive(Clone, Debug)]
pub struct MQTT {
    pub broker: String,
    pub ca_cert: String,
    pub clean_session: bool,
    pub client_id: String,
    pub insecure_ssl: bool,
    pub password: String,
    pub qos: i32,
    pub reconnect_timeout: u64,
    pub timeout: u64,
    pub topic: String,
    pub user: String,
}

pub fn mqtt_default_timeout() -> (t: u64)
    ensures
        t == DEFAULT_MQTT_TIMEOUT,
{
    DEFAULT_MQTT_TIMEOUT
}

pub fn mqtt_default_reconnect_timeout() -> (t: u64)
    ensures
        t == DEFAULT_MQTT_RECONNECT_TIMEOUT,
{
    DEFAULT_MQTT_RECONNECT_TIMEOUT
}

/// An ASCII letter or digit.
pub open spec fn is_alphanumeric(c: char) -> bool {
    ('a' <= c <= 'z') || ('A' <= c <= 'Z') || ('0' <= c <= '9')
}

/// Draws `n` characters from rand's `Alphanumeric` distribution on the thread's
/// generator (`Rng::sample_iter`). The distribution yields ASCII letters and
/// digits only, and `n` of them are taken; which ones is left open.
#[verifier::external_body]
fn random_alphanumeric(n: usize) -> (s: String)
    ensures
        s@.len() == n,
        forall|i: int| 0 <= i < n ==> is_alphanumeric(#[trigger] s@[i]),
{
    rand::thread_rng().sample_iter(&rand::distributions::Alphanumeric).take(n).map(char::from).collect()
}

/// A fresh client identifier: random letters and digits, as many as a broker
/// is bound to accept.
pub fn mqtt_default_client_id() -> (id: String)
    ensures
        id@.len() == MAXIMAL_CLIENT_ID_LENGTH,
        forall|i: int| 0 <= i < id@.len() ==> is_alphanumeric(#[trigger] id@[i]),
{
    random_alphanumeric(MAXIMAL_CLIENT_ID_LENGTH)
}

/// How the peer is checked on an encrypted connection.
#[derive(Debug)]
pub struct SslOptions {
    /// The file that holds the certificates to trust, where one is set.
    pub trust_store: Option<String>,
    pub enable_server_cert_auth: bool,
    pub verify: bool,
}

/// What a connection to the broker is opened with. Times are in seconds.
#[derive(Debug)]
pub struct ConnectOptions {
    pub automatic_reconnect_min: u64,
    pub automatic_reconnect_max: u64,
    pub clean_session: bool,
    pub connect_timeout: u64,
    pub user_name: String,
    pub password: String,
    pub retry_interval: u64,
    /// Set for an encrypted connection; `None` leaves the client's defaults.
    pub ssl_options: Option<SslOptions>,
}

/// What a client is created with.
#[derive(Debug)]
pub struct CreateOptions {
    pub client_id: String,
    pub server_uri: String,
}

/// Whether the broker is reached over an encrypted connection.
pub open spec fn is_encrypted(broker: Seq<char>) -> bool {
    "ssl://"@.is_prefix_of(broker) || "tls://"@.is_prefix_of(broker)
}

/// Derives the connection options from the broker settings. Reconnects and
/// retries start one second apart and the connection timeout bounds both the
/// connect and the reconnect. A broker address that starts with `ssl://` or
/// `tls://` turns encryption on: the peer is checked unless the settings say
/// otherwise, against the certificate file where one is named.
pub fn connection_builder(cfg: &MQTT) -> (opts: ConnectOptions)
    ensures
        opts.automatic_reconnect_min == 1,
        opts.automatic_reconnect_max == cfg.timeout,
        opts.clean_session == cfg.clean_session,
        opts.connect_timeout == cfg.timeout,
        opts.user_name@ == cfg.user@,
        opts.password@ == cfg.password@,
        opts.retry_interval == 1,
        opts.ssl_options is Some <==> is_encrypted(cfg.broker@),
        opts.ssl_options matches Some(ssl) ==> {
            &&& ssl.enable_server_cert_auth == !cfg.insecure_ssl
            &&& ssl.verify == !cfg.insecure_ssl
            &&& ssl.trust_store is Some <==> cfg.ca_cert@.len() > 0
            &&& ssl.trust_store matches Some(file) ==> file@ == cfg.ca_cert@
        },
{
    let encrypted = starts_with(cfg.broker.as_str(), "ssl://") || starts_with(
        cfg.broker.as_str(),
        "tls://",
    );
    let ssl_options = if encrypted {
        let trust_store = if cfg.ca_cert.as_str().is_empty() {
            None
        } else {
            Some(cfg.ca_cert.clone())
        };
        Some(
            SslOptions {
                trust_store,
                enable_server_cert_auth: !cfg.insecure_ssl,
                verify: !cfg.insecure_ssl,
            },
        )
    } else {
        None
    };
    ConnectOptions {
        automatic_reconnect_min: 1,
        automatic_reconnect_max: cfg.timeout,
        clean_session: cfg.clean_session,
        connect_timeout: cfg.timeout,
        user_name: cfg.user.clone(),
        password: cfg.password.clone(),
        retry_interval: 1,
        ssl_options,
    }
}

/// Derives what the client is created with from the broker settings.
pub fn client_builder(cfg: &MQTT) -> (opts: CreateOptions)
    ensures
        opts.client_id@ == cfg.client_id@,
        opts.server_uri@ == cfg.broker@,
{
    CreateOptions { client_id: cfg.client_id.clone(), server_uri: cfg.broker.clone() }
}

/// What to do after a failed attempt to connect.
#[derive(Clone, Copy, Debug, PartialEq, Eq, Structural)]
pub enum Retry {
    /// Wait a second and try again; holds the seconds waited so far, this one included.
    Again(u64),
    /// The time allowed for reconnecting is used up: the failure is final.
    GiveUp,
}

/// How many more attempts are made after one has failed `ticktock` seconds
/// into reconnecting, should each of them fail too.
pub open spec fn retries_left(ticktock: int, reconnect_timeout: int) -> nat
    decreases reconnect_timeout + 1 - ticktock,
{
    if ticktock > reconnect_timeout {
        0
    } else {
        1 + retries_left(ticktock + 1, reconnect_timeout)
    }
}

/// Reconnecting is bounded: from the start, a connection that never comes
/// about is tried once and then once more for each second up to the one
/// after the reconnect timeout.
pub proof fn lemma_retries_are_bounded(ticktock: int, reconnect_timeout: int)
    requires
        0 <= ticktock <= reconnect_timeout + 1,
    ensures
        retries_left(ticktock, reconnect_timeout) == reconnect_timeout + 1 - ticktock,
    decreases reconnect_timeout + 1 - ticktock,
{
    if ticktock <= reconnect_timeout {
        lemma_retries_are_bounded(ticktock + 1, reconnect_timeout);
    }
}

/// Decides what follows a failed attempt to connect, `ticktock` seconds
/// into reconnecting. The attempt is repeated until more seconds have been
/// waited than `reconnect_timeout` allows; each repetition uses up one of
/// the attempts that are left.
pub fn connect_failed(ticktock: u64, reconnect_timeout: u64) -> (r: Retry)
    ensures
        r == if ticktock > reconnect_timeout || ticktock == u64::MAX {
            Retry::GiveUp
        } else {
            Retry::Again((ticktock + 1) as u64)
        },
        r matches Retry::Again(next) ==> retries_left(next as int, reconnect_timeout as int) + 1
            == retries_left(ticktock as int, reconnect_timeout as int),
{
    if ticktock > reconnect_timeout || ticktock == u64::MAX {
        Retry::GiveUp
    } else {
        Retry::Again(ticktock + 1)
    }
}

/// What the subscriber does once it is connected.
#[derive(Clone, Copy, Debug, PartialEq, Eq, Structural)]
pub enum AfterConnect {
    /// The broker kept no session: subscribe to the topic.
    Subscribe,
    /// The broker kept the session and with it the subscription.
    Consume,
    /// The broker sent no connect response: the connection is of no use.
    Fail,
}

/// Decides what follows a connect, given whether the connect response says
/// that a session is present; `None` stands for a missing response.
pub fn after_connect(session_present: Option<bool>) -> (r: AfterConnect)
    ensures
        r == match session_present {
            Some(true) => AfterConnect::Consume,
            Some(false) => AfterConnect::Subscribe,
            None => AfterConnect::Fail,
        },
{
    match session_present {
        Some(true) => AfterConnect::Consume,
        Some(false) => AfterConnect::Subscribe,
        None => AfterConnect::Fail,
    }
}

/// What the sender does with one envelope handed to it.
#[derive(Clone, Copy, Debug, PartialEq, Eq, Structural)]
pub enum SendStep {
    /// The envelope is too short to be read at the other end: drop it.
    Drop,
    /// The connection is lost: reconnect, then publish.
    ReconnectAndPublish,
    Publish,
}

/// Decides what to do with an envelope of `len` bytes.
pub fn send_step(len: usize, connected: bool) -> (r: SendStep)
    ensures
        r == if len < 2 {
            SendStep::Drop
        } else if !connected {
            SendStep::ReconnectAndPublish
        } else {
            SendStep::Publish
        },
{
    if len < 2 {
        SendStep::Drop
    } else if !connected {
        SendStep::ReconnectAndPublish
    } else {
        SendStep::Publish
    }
}

} // verus!
