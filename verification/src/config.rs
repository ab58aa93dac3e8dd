//! What both sides check of a configuration before they start.

use vstd::prelude::*;
use vstd::string::*;
use crate::mqtt::MQTT;
use crate::text::{chars_of, lemma_position_bounds, position_of};

verus! {

/// Why a configuration is refused.
#[derive(Debug)]
pub enum ConfigError {
    /// The global scrape interval is not positive.
    InvalidInterval,
    /// The quality of service is not 0, 1 or 2.
    InvalidQos,
    /// The topic is empty or holds a wildcard.
    InvalidTopic,
    /// The connection timeout is zero.
    InvalidTimeout,
    /// The reconnect timeout is zero.
    InvalidReconnectTimeout,
    /// A scrape job has no name.
    MissingScrapeName,
    /// Two scrape jobs share the name held.
    DuplicateScrapeName(String),
    /// A scrape job has no URL.
    MissingUrl,
    /// The URL of the scrape job named first does not parse; the second
    /// string says why.
    InvalidUrl(String, String),
    /// The interval of the scrape job named is not positive.
    InvalidScrapeInterval(String),
    /// The broker URL does not parse; the string says why.
    InvalidBrokerUrl(String),
    /// The listener address is empty.
    InvalidListen,
    /// The metrics path is empty.
    InvalidPath,
}

/// Mathematical value of a [`ConfigError`].
pub enum ConfigErrorView {
    InvalidInterval,
    InvalidQos,
    InvalidTopic,
    InvalidTimeout,
    InvalidReconnectTimeout,
    MissingScrapeName,
    DuplicateScrapeName(Seq<char>),
    MissingUrl,
    InvalidUrl(Seq<char>, Seq<char>),
    InvalidScrapeInterval(Seq<char>),
    InvalidBrokerUrl(Seq<char>),
    InvalidListen,
    InvalidPath,
}

impl View for ConfigError {
    type V = ConfigErrorView;

    open spec fn view(&self) -> ConfigErrorView {
        match self {
            ConfigError::InvalidInterval => ConfigErrorView::InvalidInterval,
            ConfigError::InvalidQos => ConfigErrorView::InvalidQos,
            ConfigError::InvalidTopic => ConfigErrorView::InvalidTopic,
            ConfigError::InvalidTimeout => ConfigErrorView::InvalidTimeout,
            ConfigError::InvalidReconnectTimeout => ConfigErrorView::InvalidReconnectTimeout,
            ConfigError::MissingScrapeName => ConfigErrorView::MissingScrapeName,
            ConfigError::DuplicateScrapeName(n) => ConfigErrorView::DuplicateScrapeName(n@),
            ConfigError::MissingUrl => ConfigErrorView::MissingUrl,
            ConfigError::InvalidUrl(n, why) => ConfigErrorView::InvalidUrl(n@, why@),
            ConfigError::InvalidScrapeInterval(n) => ConfigErrorView::InvalidScrapeInterval(n@),
            ConfigError::InvalidBrokerUrl(why) => ConfigErrorView::InvalidBrokerUrl(why@),
            ConfigError::InvalidListen => ConfigErrorView::InvalidListen,
            ConfigError::InvalidPath => ConfigErrorView::InvalidPath,
        }
    }
}

impl ConfigError {
    /// The text of the error.
    pub open spec fn message_text(e: ConfigErrorView) -> Seq<char> {
        match e {
            ConfigErrorView::InvalidInterval => "invalid interval value in global section"@,
            ConfigErrorView::InvalidQos => "invalid MQTT QoS setting"@,
            ConfigErrorView::InvalidTopic => "invalid MQTT topic"@,
            ConfigErrorView::InvalidTimeout => "invalid MQTT timeout"@,
            ConfigErrorView::InvalidReconnectTimeout => "invalid MQTT reconnect timeout"@,
            ConfigErrorView::MissingScrapeName => "no name set for scrape job"@,
            ConfigErrorView::DuplicateScrapeName(n) => "duplicate scrape name '"@ + n + "'"@,
            ConfigErrorView::MissingUrl => "no URL to scrape found"@,
            ConfigErrorView::InvalidUrl(n, why) => "invalid URL for scrape '"@ + n + "' - "@
                + why,
            ConfigErrorView::InvalidScrapeInterval(n) => {
                "invalid interval value for scrape interval in "@ + n
            },
            ConfigErrorView::InvalidBrokerUrl(why) => "invalid broker URL - "@ + why,
            ConfigErrorView::InvalidListen => "invalid listener address"@,
            ConfigErrorView::InvalidPath => "invalid metrics path"@,
        }
    }

    /// Renders the error for a log line.
    pub fn message(&self) -> (s: String)
        ensures
            s@ == Self::message_text(self@),
    {
        match self {
            ConfigError::InvalidInterval => String::from_str(
                "invalid interval value in global section",
            ),
            ConfigError::InvalidQos => String::from_str("invalid MQTT QoS setting"),
            ConfigError::InvalidTopic => String::from_str("invalid MQTT topic"),
            ConfigError::InvalidTimeout => String::from_str("invalid MQTT timeout"),
            ConfigError::InvalidReconnectTimeout => String::from_str(
                "invalid MQTT reconnect timeout",
            ),
            ConfigError::MissingScrapeName => String::from_str("no name set for scrape job"),
            ConfigError::DuplicateScrapeName(n) => {
                let mut s = String::from_str("duplicate scrape name '");
                s.append(n.as_str());
                s.append("'");
                s
            },
            ConfigError::MissingUrl => String::from_str("no URL to scrape found"),
            ConfigError::InvalidUrl(n, why) => {
                let mut s = String::from_str("invalid URL for scrape '");
                s.append(n.as_str());
                s.append("' - ");
                s.append(why.as_str());
                s
            },
            ConfigError::InvalidScrapeInterval(n) => {
                let mut s = String::from_str("invalid interval value for scrape interval in ");
                s.append(n.as_str());
                s
            },
            ConfigError::InvalidBrokerUrl(why) => {
                let mut s = String::from_str("invalid broker URL - ");
                s.append(why.as_str());
                s
            },
            ConfigError::InvalidListen => String::from_str("invalid listener address"),
            ConfigError::InvalidPath => String::from_str("invalid metrics path"),
        }
    }
}

/// What is wrong with `s` as an absolute URL, in the words of the `url`
/// crate; `None` where it parses.
pub uninterp spec fn url_fault(s: Seq<char>) -> Option<Seq<char>>;

/// Parses `s` as an absolute URL (`url::Url::parse`) and drops the parsed
/// value. The outcome depends on `s` alone: success where `s` parses, else
/// the parser's own description of what is wrong.
#[verifier::external_body]
pub(crate) fn validate_url(s: &str) -> (r: Result<(), String>)
    ensures
        r is Ok <==> url_fault(s@) is None,
        r matches Err(why) ==> url_fault(s@) == Some(why@),
{
    match url::Url::parse(s) {
        Ok(_) => Ok(()),
        Err(e) => Err(e.to_string()),
    }
}

/// A topic to publish to or subscribe to: not empty and without wildcards.
pub open spec fn topic_is_valid(topic: Seq<char>) -> bool {
    topic.len() > 0 && !topic.contains('+') && !topic.contains('#')
}

/// The first of the broker settings that is out of range, in the order
/// quality of service, topic, timeout, reconnect timeout.
pub open spec fn mqtt_fault(qos: int, topic: Seq<char>, timeout: int, reconnect_timeout: int)
    -> Option<ConfigErrorView> {
    if qos > 2 || qos < 0 {
        Some(ConfigErrorView::InvalidQos)
    } else if !topic_is_valid(topic) {
        Some(ConfigErrorView::InvalidTopic)
    } else if timeout == 0 {
        Some(ConfigErrorView::InvalidTimeout)
    } else if reconnect_timeout == 0 {
        Some(ConfigErrorView::InvalidReconnectTimeout)
    } else {
        None
    }
}

/// Checks the ranges of the broker settings.
pub fn validate_mqtt(cfg: &MQTT) -> (r: Result<(), ConfigError>)
    ensures
        match mqtt_fault(
            cfg.qos as int,
            cfg.topic@,
            cfg.timeout as int,
            cfg.reconnect_timeout as int,
        ) {
            Some(e) => r matches Err(x) && x@ == e,
            None => r is Ok,
        },
{
    if cfg.qos > 2 || cfg.qos < 0 {
        return Err(ConfigError::InvalidQos);
    }
    let topic = chars_of(cfg.topic.as_str());
    proof {
        lemma_position_bounds(topic@, '+');
        lemma_position_bounds(topic@, '#');
    }
    if topic.len() == 0 || position_of(&topic, '+') < topic.len() || position_of(&topic, '#')
        < topic.len() {
        return Err(ConfigError::InvalidTopic);
    }
    if cfg.timeout == 0 {
        return Err(ConfigError::InvalidTimeout);
    }
    if cfg.reconnect_timeout == 0 {
        return Err(ConfigError::InvalidReconnectTimeout);
    }
    Ok(())
}

} // verus!
