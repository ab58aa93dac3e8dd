//! When a source is scraped, and what is kept of a scrape.

use vstd::prelude::*;
use vstd::string::*;
use crate::fetch::config::{Configuration, Global, Scrape};
use crate::fetch::massage::{parse_scrape_data, parsed, MalformedLine, MalformedLineView};
use crate::payload::{Message, MessageView};

verus! {

/// The interval of a scrape job: its own, or the global one.
pub open spec fn interval_of(scrape: &Scrape, global: &Global) -> i64 {
    match scrape.interval {
        Some(v) => v,
        None => global.interval,
    }
}

/// The timeout of a scrape job: its own, or the global one.
pub open spec fn timeout_of(scrape: &Scrape, global: &Global) -> u64 {
    match scrape.timeout {
        Some(v) => v,
        None => global.timeout,
    }
}

/// A scrape job is due once its interval has passed since its last scrape.
pub open spec fn is_due(scrape: &Scrape, global: &Global, now: int) -> bool {
    now - scrape.last_scrape >= interval_of(scrape, global)
}

pub fn effective_interval(scrape: &Scrape, global: &Global) -> (interval: i64)
    ensures
        interval == interval_of(scrape, global),
{
    match scrape.interval {
        Some(v) => v,
        None => global.interval,
    }
}

pub fn effective_timeout(scrape: &Scrape, global: &Global) -> (timeout: u64)
    ensures
        timeout == timeout_of(scrape, global),
{
    match scrape.timeout {
        Some(v) => v,
        None => global.timeout,
    }
}

/// Whether the scrape job is to be scraped at time `now`.
pub fn due(scrape: &Scrape, global: &Global, now: i64) -> (b: bool)
    ensures
        b == is_due(scrape, global, now as int),
{
    let passed: i128 = now as i128 - scrape.last_scrape as i128;
    passed >= effective_interval(scrape, global) as i128
}

/// The scrape jobs to scrape at time `now`: their indices, in order.
pub fn due_sources(cfg: &Configuration, now: i64) -> (indices: Vec<usize>)
    ensures
        forall|k: int| 0 <= k < indices.len() ==> indices@[k] < cfg.scrape.len(),
        forall|k: int, l: int| 0 <= k < l < indices.len() ==> indices@[k] < indices@[l],
        forall|i: int|
            0 <= i < cfg.scrape.len() ==> (indices@.contains(i as usize) <==> is_due(
                &cfg.scrape@[i],
                &cfg.global,
                now as int,
            )),
{
    let mut indices: Vec<usize> = Vec::new();
    let mut i: usize = 0;
    while i < cfg.scrape.len()
        invariant
            i <= cfg.scrape.len(),
            forall|k: int| 0 <= k < indices.len() ==> indices@[k] < i,
            forall|k: int, l: int| 0 <= k < l < indices.len() ==> indices@[k] < indices@[l],
            forall|j: int|
                0 <= j < i ==> (indices@.contains(j as usize) <==> is_due(
                    &cfg.scrape@[j],
                    &cfg.global,
                    now as int,
                )),
        decreases cfg.scrape.len() - i,
    {
        let ghost before = indices@;
        if due(&cfg.scrape[i], &cfg.global, now) {
            indices.push(i);
            proof {
                assert(indices@[before.len() as int] == i);
                assert forall|j: int| 0 <= j < i + 1 implies (indices@.contains(j as usize)
                    <==> is_due(&cfg.scrape@[j], &cfg.global, now as int)) by {
                    if j < i {
                        if before.contains(j as usize) {
                            let k = choose|k: int| 0 <= k < before.len() && before[k] == j as usize;
                            assert(indices@[k] == j as usize);
                        }
                        if indices@.contains(j as usize) {
                            let k = choose|k: int|
                                0 <= k < indices@.len() && indices@[k] == j as usize;
                            assert(before[k] == j as usize);
                        }
                    }
                }
            }
        } else {
            proof {
                if indices@.contains(i) {
                    let k = choose|k: int| 0 <= k < indices@.len() && indices@[k] == i;
                    assert(indices@[k] < i);
                }
            }
        }
        i += 1;
    }
    indices
}

/// Takes in what a source returned at time `now`: the text is parsed into a
/// message that is valid for the interval of the scrape job, and the job is
/// marked as scraped, whether the text parses or not.
pub fn scraped(scrape: &mut Scrape, global: &Global, now: i64, raw: &str) -> (r: Result<
    Message,
    MalformedLine,
>)
    ensures
        *final(scrape) == (Scrape { last_scrape: now, ..*old(scrape) }),
        match r {
            Ok(m) => parsed(
                raw@,
                old(scrape).name@,
                old(scrape).labels@,
                interval_of(old(scrape), global) as int,
            ) == Ok::<MessageView, MalformedLineView>(m@),
            Err(e) => parsed(
                raw@,
                old(scrape).name@,
                old(scrape).labels@,
                interval_of(old(scrape), global) as int,
            ) == Err::<MessageView, MalformedLineView>(e@),
        },
{
    let interval = effective_interval(scrape, global);
    let r = parse_scrape_data(raw, scrape.name.as_str(), &scrape.labels, interval);
    scrape.last_scrape = now;
    r
}

/// Marks a scrape job whose source did not answer at time `now`: it is
/// tried again once its interval has passed.
pub fn scrape_failed(scrape: &mut Scrape, now: i64)
    ensures
        *final(scrape) == (Scrape { last_scrape: now, ..*old(scrape) }),
{
    scrape.last_scrape = now;
}

} // verus!
