//! The configuration of the fetch side.

use vstd::prelude::*;
use vstd::string::*;
use crate::config::{
    mqtt_fault, topic_is_valid, url_fault, validate_mqtt, validate_url, ConfigError,
    ConfigErrorView,
};
use crate::fetch::constants::{
    DEFAULT_INTERVAL, DEFAULT_PROMETHEUS_LISTEN, DEFAULT_PROMETHEUS_PATH, DEFAULT_SCRAPE_TIMEOUT,
    SCRAPE_NAME_LABEL,
};
use crate::labels::{with_label, LabelView, Labels};
use crate::mqtt::MQTT;
use crate::text::{chars_of, lemma_trailing_is, string_of, subvec, trailing};

verus! {

/// Settings that hold for every scrape job that does not set its own.
#[derive(Clone, Debug)]
pub struct Global {
    pub interval: i64,
    pub compress: bool,
    pub timeout: u64,
}

/// One source to scrape.
pub struct Scrape {
    pub interval: Option<i64>,
    pub labels: Labels,
    pub last_scrape: i64,
    pub name: String,
    pub suppress_scrape_name: bool,
    pub timeout: Option<u64>,
    pub url: String,
}

/// Where the scraper serves its own metrics.
#[derive(Clone, Debug)]
pub struct Prometheus {
    pub listen: String,
    pub path: String,
}

/// Everything the fetch side is configured with.
pub struct Configuration {
    pub global: Global,
    pub mqtt: MQTT,
    pub prometheus: Prometheus,
    pub scrape: Vec<Scrape>,
}

pub fn default_prometheus_listen() -> (s: String)
    ensures
        s@ == DEFAULT_PROMETHEUS_LISTEN@,
{
    String::from_str(DEFAULT_PROMETHEUS_LISTEN)
}

pub fn default_prometheus_path() -> (s: String)
    ensures
        s@ == DEFAULT_PROMETHEUS_PATH@,
{
    String::from_str(DEFAULT_PROMETHEUS_PATH)
}

pub fn default_global_interval() -> (i: i64)
    ensures
        i == DEFAULT_INTERVAL,
{
    DEFAULT_INTERVAL
}

pub fn default_global_timeout() -> (t: u64)
    ensures
        t == DEFAULT_SCRAPE_TIMEOUT,
{
    DEFAULT_SCRAPE_TIMEOUT
}

impl Default for Global {
    fn default() -> (g: Self)
        ensures
            g.interval == DEFAULT_INTERVAL,
            !g.compress,
            g.timeout == DEFAULT_SCRAPE_TIMEOUT,
    {
        Global { interval: DEFAULT_INTERVAL, compress: false, timeout: DEFAULT_SCRAPE_TIMEOUT }
    }
}

impl Default for Prometheus {
    fn default() -> (p: Self)
        ensures
            p.listen@ == DEFAULT_PROMETHEUS_LISTEN@,
            p.path@ == DEFAULT_PROMETHEUS_PATH@,
    {
        Prometheus { listen: default_prometheus_listen(), path: default_prometheus_path() }
    }
}

/// The names of the scrape jobs, in order.
pub open spec fn scrape_names(scrapes: Seq<Scrape>) -> Seq<Seq<char>> {
    scrapes.map_values(|s: Scrape| s.name@)
}

/// The first thing wrong with one scrape job: no name, a name that an
/// earlier job has, no URL, a URL that does not parse, an interval that is
/// not positive. `earlier` holds the names of the jobs before it and `url`
/// what parsing its URL came to.
pub open spec fn scrape_fault(s: &Scrape, earlier: Seq<Seq<char>>, url: Option<Seq<char>>)
    -> Option<ConfigErrorView> {
    if s.name@.len() == 0 {
        Some(ConfigErrorView::MissingScrapeName)
    } else if earlier.contains(s.name@) {
        Some(ConfigErrorView::DuplicateScrapeName(s.name@))
    } else if s.url@.len() == 0 {
        Some(ConfigErrorView::MissingUrl)
    } else if url is Some {
        Some(ConfigErrorView::InvalidUrl(s.name@, url->0))
    } else if s.interval is Some && s.interval->0 <= 0 {
        Some(ConfigErrorView::InvalidScrapeInterval(s.name@))
    } else {
        None
    }
}

/// The first thing wrong among the first `n` scrape jobs.
pub open spec fn scrapes_fault(scrapes: Seq<Scrape>, n: int) -> Option<ConfigErrorView>
    decreases n,
{
    if n <= 0 {
        None
    } else if scrapes_fault(scrapes, n - 1) is Some {
        scrapes_fault(scrapes, n - 1)
    } else {
        scrape_fault(
            &scrapes[n - 1],
            scrape_names(scrapes).take(n - 1),
            url_fault(scrapes[n - 1].url@),
        )
    }
}

/// The first thing wrong with a fetch configuration: the global interval,
/// then the broker settings, then the scrape jobs in order.
pub open spec fn fault(cfg: &Configuration) -> Option<ConfigErrorView> {
    let mqtt = mqtt_fault(
        cfg.mqtt.qos as int,
        cfg.mqtt.topic@,
        cfg.mqtt.timeout as int,
        cfg.mqtt.reconnect_timeout as int,
    );
    if cfg.global.interval <= 0 {
        Some(ConfigErrorView::InvalidInterval)
    } else if mqtt is Some {
        mqtt
    } else {
        scrapes_fault(cfg.scrape@, cfg.scrape@.len() as int)
    }
}

/// A fault among the first `k` scrape jobs is the fault among the first `n`.
pub proof fn lemma_scrapes_fault_stays(scrapes: Seq<Scrape>, k: int, n: int)
    requires
        k <= n,
        scrapes_fault(scrapes, k) is Some,
    ensures
        scrapes_fault(scrapes, n) == scrapes_fault(scrapes, k),
    decreases n - k,
{
    if k < n {
        lemma_scrapes_fault_stays(scrapes, k, n - 1);
    }
}

/// Which fault the scrape jobs have does not depend on their labels.
pub proof fn lemma_scrapes_fault_ignores_labels(a: Seq<Scrape>, b: Seq<Scrape>, n: int)
    requires
        a.len() == b.len(),
        n <= a.len(),
        forall|i: int|
            0 <= i < a.len() ==> #[trigger] b[i] == (Scrape { labels: b[i].labels, ..a[i] }),
    ensures
        scrapes_fault(a, n) == scrapes_fault(b, n),
    decreases n,
{
    if n > 0 {
        lemma_scrapes_fault_ignores_labels(a, b, n - 1);
        assert(b[n - 1] == (Scrape { labels: b[n - 1].labels, ..a[n - 1] }));
        assert(scrape_names(a).take(n - 1) =~= scrape_names(b).take(n - 1)) by {
            assert forall|i: int| 0 <= i < n - 1 implies scrape_names(a)[i] == scrape_names(
                b,
            )[i] by {
                assert(b[i] == (Scrape { labels: b[i].labels, ..a[i] }));
            }
        }
    }
}

/// What holds of a configuration that is not refused: the global interval is
/// positive, the quality of service is 0, 1 or 2, the topic is not empty and
/// has no wildcard, both timeouts of the broker are positive, and every
/// scrape job has a name that no other job has, a URL that parses and, where
/// it sets one, a positive interval.
pub proof fn lemma_valid_configuration(cfg: &Configuration)
    requires
        fault(cfg) is None,
    ensures
        cfg.global.interval > 0,
        0 <= cfg.mqtt.qos <= 2,
        topic_is_valid(cfg.mqtt.topic@),
        cfg.mqtt.timeout > 0,
        cfg.mqtt.reconnect_timeout > 0,
        forall|i: int|
            0 <= i < cfg.scrape@.len() ==> {
                &&& (#[trigger] cfg.scrape@[i]).name@.len() > 0
                &&& cfg.scrape@[i].url@.len() > 0
                &&& url_fault(cfg.scrape@[i].url@) is None
                &&& cfg.scrape@[i].interval is Some ==> cfg.scrape@[i].interval->0 > 0
            },
        forall|i: int, j: int|
            0 <= i < j < cfg.scrape@.len() ==> cfg.scrape@[i].name@ != cfg.scrape@[j].name@,
{
    let scrapes = cfg.scrape@;
    let n = scrapes.len() as int;
    assert forall|i: int| 0 <= i < n implies scrape_fault(
        &scrapes[i],
        scrape_names(scrapes).take(i),
        url_fault(scrapes[i].url@),
    ) is None by {
        lemma_no_scrape_fault(scrapes, n, i);
    }
    assert forall|i: int, j: int| 0 <= i < j < n implies scrapes[i].name@
        != scrapes[j].name@ by {
        lemma_no_scrape_fault(scrapes, n, j);
        let earlier = scrape_names(scrapes).take(j);
        assert(earlier[i] == scrapes[i].name@);
        if scrapes[i].name@ == scrapes[j].name@ {
            assert(earlier.contains(scrapes[j].name@));
        }
    }
}

/// Where the first `n` scrape jobs have no fault, none of them has one.
proof fn lemma_no_scrape_fault(scrapes: Seq<Scrape>, n: int, i: int)
    requires
        0 <= i < n,
        scrapes_fault(scrapes, n) is None,
    ensures
        scrape_fault(&scrapes[i], scrape_names(scrapes).take(i), url_fault(scrapes[i].url@))
            is None,
    decreases n,
{
    if i < n - 1 {
        lemma_no_scrape_fault(scrapes, n - 1, i);
    }
}

/// Checks the scrape job at index `i`, given what parsing its URL came to.
pub fn check_scrape(scrapes: &Vec<Scrape>, i: usize, url: Result<(), String>) -> (r: Result<
    (),
    ConfigError,
>)
    requires
        i < scrapes.len(),
    ensures
        match scrape_fault(
            &scrapes@[i as int],
            scrape_names(scrapes@).take(i as int),
            match url {
                Ok(_) => None,
                Err(why) => Some(why@),
            },
        ) {
            Some(e) => r matches Err(x) && x@ == e,
            None => r is Ok,
        },
{
    let s = &scrapes[i];
    let ghost earlier = scrape_names(scrapes@).take(i as int);
    if s.name.as_str().is_empty() {
        return Err(ConfigError::MissingScrapeName);
    }
    let mut j: usize = 0;
    while j < i
        invariant
            j <= i < scrapes.len(),
            s == &scrapes@[i as int],
            s.name@.len() != 0,
            earlier == scrape_names(scrapes@).take(i as int),
            forall|k: int| 0 <= k < j ==> earlier[k] != s.name@,
        decreases i - j,
    {
        if scrapes[j].name == s.name {
            assert(earlier[j as int] == s.name@);
            assert(earlier.contains(s.name@));
            return Err(ConfigError::DuplicateScrapeName(s.name.clone()));
        }
        j += 1;
    }
    if s.url.as_str().is_empty() {
        return Err(ConfigError::MissingUrl);
    }
    if let Err(why) = url {
        return Err(ConfigError::InvalidUrl(s.name.clone(), why));
    }
    if let Some(v) = s.interval {
        if v <= 0 {
            return Err(ConfigError::InvalidScrapeInterval(s.name.clone()));
        }
    }
    Ok(())
}

/// Checks a configuration before the scraper starts.
pub fn validate(cfg: &Configuration) -> (r: Result<(), ConfigError>)
    ensures
        match fault(cfg) {
            Some(e) => r matches Err(x) && x@ == e,
            None => r is Ok,
        },
{
    if cfg.global.interval <= 0 {
        return Err(ConfigError::InvalidInterval);
    }
    validate_mqtt(&cfg.mqtt)?;
    let mut i: usize = 0;
    while i < cfg.scrape.len()
        invariant
            i <= cfg.scrape.len(),
            cfg.global.interval > 0,
            mqtt_fault(
                cfg.mqtt.qos as int,
                cfg.mqtt.topic@,
                cfg.mqtt.timeout as int,
                cfg.mqtt.reconnect_timeout as int,
            ) is None,
            scrapes_fault(cfg.scrape@, i as int) is None,
        decreases cfg.scrape.len() - i,
    {
        let url = validate_url(cfg.scrape[i].url.as_str());
        if let Err(e) = check_scrape(&cfg.scrape, i, url) {
            proof {
                assert(scrapes_fault(cfg.scrape@, i + 1) == Some(e@));
                lemma_scrapes_fault_stays(cfg.scrape@, i + 1, cfg.scrape@.len() as int);
            }
            return Err(e);
        }
        i += 1;
    }
    Ok(())
}

/// `topic` without the slashes at its end, then a slash and the host name.
pub open spec fn host_topic(topic: Seq<char>, hostname: Seq<char>) -> Seq<char> {
    topic.take(topic.len() - trailing(topic, |c: char| c == '/')) + "/"@ + hostname
}

/// The labels of a scrape job once its own name is among them, unless the
/// job asks to leave it out.
pub open spec fn own_labels(s: &Scrape) -> Seq<LabelView> {
    if s.suppress_scrape_name {
        s.labels@
    } else {
        with_label(s.labels@, SCRAPE_NAME_LABEL@, s.name@)
    }
}

/// Gives every scrape job its own name as a label, unless it asks not to.
pub fn label_scrapes(cfg: &mut Configuration)
    ensures
        final(cfg).global == old(cfg).global,
        final(cfg).mqtt == old(cfg).mqtt,
        final(cfg).prometheus == old(cfg).prometheus,
        final(cfg).scrape@.len() == old(cfg).scrape@.len(),
        forall|i: int|
            0 <= i < old(cfg).scrape@.len() ==> {
                &&& #[trigger] final(cfg).scrape@[i] == (Scrape {
                    labels: final(cfg).scrape@[i].labels,
                    ..old(cfg).scrape@[i]
                })
                &&& final(cfg).scrape@[i].labels@ == own_labels(&old(cfg).scrape@[i])
            },
{
    let n = cfg.scrape.len();
    let mut i: usize = 0;
    while i < n
        invariant
            n == cfg.scrape.len(),
            n == old(cfg).scrape@.len(),
            i <= n,
            cfg.global == old(cfg).global,
            cfg.mqtt == old(cfg).mqtt,
            cfg.prometheus == old(cfg).prometheus,
            forall|k: int|
                0 <= k < i ==> {
                    &&& #[trigger] cfg.scrape@[k] == (Scrape {
                        labels: cfg.scrape@[k].labels,
                        ..old(cfg).scrape@[k]
                    })
                    &&& cfg.scrape@[k].labels@ == own_labels(&old(cfg).scrape@[k])
                },
            forall|k: int| i <= k < n ==> cfg.scrape@[k] == old(cfg).scrape@[k],
        decreases n - i,
    {
        if !cfg.scrape[i].suppress_scrape_name {
            let name = cfg.scrape[i].name.clone();
            cfg.scrape[i].labels.insert(String::from_str(SCRAPE_NAME_LABEL), name);
        }
        i += 1;
    }
}

/// Readies a configuration as it was read: labels each scrape job with its
/// name, checks the whole, and on success moves the topic under the host
/// name. A configuration that is refused keeps its topic.
pub fn prepare(cfg: &mut Configuration, hostname: &str) -> (r: Result<(), ConfigError>)
    ensures
        final(cfg).global == old(cfg).global,
        final(cfg).prometheus == old(cfg).prometheus,
        final(cfg).mqtt == (MQTT { topic: final(cfg).mqtt.topic, ..old(cfg).mqtt }),
        final(cfg).scrape@.len() == old(cfg).scrape@.len(),
        forall|i: int|
            0 <= i < old(cfg).scrape@.len() ==> {
                &&& #[trigger] final(cfg).scrape@[i] == (Scrape {
                    labels: final(cfg).scrape@[i].labels,
                    ..old(cfg).scrape@[i]
                })
                &&& final(cfg).scrape@[i].labels@ == own_labels(&old(cfg).scrape@[i])
            },
        match fault(old(cfg)) {
            Some(e) => r matches Err(x) && x@ == e && final(cfg).mqtt.topic == old(cfg).mqtt.topic,
            None => r is Ok && final(cfg).mqtt.topic@ == host_topic(
                old(cfg).mqtt.topic@,
                hostname@,
            ),
        },
{
    label_scrapes(cfg);
    proof {
        lemma_scrapes_fault_ignores_labels(
            old(cfg).scrape@,
            cfg.scrape@,
            cfg.scrape@.len() as int,
        );
    }
    validate(cfg)?;
    let topic = chars_of(cfg.mqtt.topic.as_str());
    let mut end: usize = topic.len();
    while end > 0 && topic[end - 1] == '/'
        invariant
            end <= topic.len(),
            forall|j: int| end <= j < topic.len() ==> topic@[j] == '/',
        decreases end,
    {
        end -= 1;
    }
    proof {
        lemma_trailing_is(topic@, |c: char| c == '/', topic.len() - end);
    }
    let mut moved = string_of(&subvec(&topic, 0, end));
    moved.append("/");
    moved.append(hostname);
    cfg.mqtt.topic = moved;
    Ok(())
}

} // verus!
