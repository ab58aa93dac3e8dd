//! The cache of the latest message of each source, and what the exporter
//! does with each request that reaches it.

use vstd::prelude::*;
use vstd::string::*;
use crate::export::reply::{
    all_payloads, build_reply, faults_view, merged, reply_faults, reply_text, Reply,
};
use crate::payload::{messages_view, Message, MessageView};

verus! {

/// What reaches the exporter: a request for the document, or messages that
/// arrived from the broker.
pub enum Data {
    HTTPRequest,
    MetricData(Vec<Message>),
}

/// One cached source: its latest message and the time it arrived.
pub struct EntryView {
    pub message: MessageView,
    pub arrival: int,
}

/// Index of the entry of the source `name`, or the length where there is none.
pub open spec fn source_index(c: Seq<EntryView>, name: Seq<char>) -> nat
    decreases c.len(),
{
    if c.len() > 0 && c[0].message.name != name {
        1 + source_index(c.skip(1), name)
    } else {
        0
    }
}

/// No two entries are of the same source.
pub open spec fn distinct_sources(c: Seq<EntryView>) -> bool {
    forall|i: int, j: int| 0 <= i < j < c.len() ==> c[i].message.name != c[j].message.name
}

/// The cache after `m` arrived at time `now`: it replaces what was held for
/// its source, or is added as a new source.
pub open spec fn ingest_one(c: Seq<EntryView>, m: MessageView, now: int) -> Seq<EntryView> {
    let i = source_index(c, m.name) as int;
    if i < c.len() {
        c.update(i, EntryView { message: m, arrival: now })
    } else {
        c.push(EntryView { message: m, arrival: now })
    }
}

/// The cache after the messages `ms` arrived at time `now`, in order.
pub open spec fn ingested(c: Seq<EntryView>, ms: Seq<MessageView>, now: int) -> Seq<EntryView>
    decreases ms.len(),
{
    if ms.len() == 0 {
        c
    } else {
        ingest_one(ingested(c, ms.drop_last(), now), ms.last(), now)
    }
}

/// An entry is live while less time has passed since its arrival than its
/// message allows.
pub open spec fn is_live(e: EntryView, now: int) -> bool {
    now - e.arrival < e.message.expiration
}

/// The entries that are live at time `now`, in order.
pub open spec fn live(c: Seq<EntryView>, now: int) -> Seq<EntryView>
    decreases c.len(),
{
    if c.len() == 0 {
        c
    } else if is_live(c.last(), now) {
        live(c.drop_last(), now).push(c.last())
    } else {
        live(c.drop_last(), now)
    }
}

/// The messages of the entries, in order.
pub open spec fn messages_of(c: Seq<EntryView>) -> Seq<MessageView> {
    c.map_values(|e: EntryView| e.message)
}

/// The entries that pair each message with its time of arrival.
pub open spec fn entries_of(metrics: Seq<Message>, arrivals: Seq<i64>) -> Seq<EntryView> {
    Seq::new(metrics.len(), |i: int| EntryView { message: metrics[i]@, arrival: arrivals[i] as int })
}

/// `source_index(c, name)` is the one index before which no entry is of the
/// source and at which one is.
pub proof fn lemma_source_index_is(c: Seq<EntryView>, name: Seq<char>, k: int)
    requires
        0 <= k <= c.len(),
        forall|j: int| 0 <= j < k ==> c[j].message.name != name,
        k < c.len() ==> c[k].message.name == name,
    ensures
        source_index(c, name) == k,
    decreases c.len(),
{
    if k > 0 {
        let t = c.skip(1);
        assert forall|j: int| 0 <= j < k - 1 implies t[j].message.name != name by {
            assert(t[j] == c[j + 1]);
        }
        lemma_source_index_is(t, name, k - 1);
    }
}

/// No entry before `source_index(c, name)` is of the source, and the one at it is.
pub proof fn lemma_source_index_bounds(c: Seq<EntryView>, name: Seq<char>)
    ensures
        source_index(c, name) <= c.len(),
        forall|j: int| 0 <= j < source_index(c, name) ==> c[j].message.name != name,
        source_index(c, name) < c.len() ==> c[source_index(c, name) as int].message.name == name,
    decreases c.len(),
{
    if c.len() > 0 && c[0].message.name != name {
        let t = c.skip(1);
        lemma_source_index_bounds(t, name);
        assert forall|j: int| 0 <= j < source_index(c, name) implies c[j].message.name
            != name by {
            if j > 0 {
                assert(c[j] == t[j - 1]);
            }
        }
        if source_index(c, name) < c.len() {
            assert(c[source_index(c, name) as int] == t[source_index(t, name) as int]);
        }
    }
}

/// Every live entry is an entry of the cache, and the live entries keep
/// their order.
pub proof fn lemma_live_entries(c: Seq<EntryView>, now: int)
    ensures
        live(c, now).len() <= c.len(),
        forall|i: int|
            0 <= i < live(c, now).len() ==> is_live(#[trigger] live(c, now)[i], now) && c.contains(
                live(c, now)[i],
            ),
        forall|i: int|
            0 <= i < c.len() && is_live(c[i], now) ==> live(c, now).contains(#[trigger] c[i]),
        distinct_sources(c) ==> distinct_sources(live(c, now)),
    decreases c.len(),
{
    if c.len() > 0 {
        let d = c.drop_last();
        lemma_live_entries(d, now);
        let l = live(c, now);
        let ld = live(d, now);
        assert forall|i: int| 0 <= i < l.len() implies is_live(#[trigger] l[i], now)
            && c.contains(l[i]) by {
            if i < ld.len() {
                assert(d.contains(ld[i]));
                let k = choose|k: int| 0 <= k < d.len() && d[k] == ld[i];
                assert(c[k] == ld[i]);
            } else {
                assert(c[c.len() - 1] == l[i]);
            }
        }
        assert forall|i: int| 0 <= i < c.len() && is_live(c[i], now) implies l.contains(
            #[trigger] c[i],
        ) by {
            if i < d.len() {
                assert(d[i] == c[i]);
                assert(ld.contains(d[i]));
                let k = choose|k: int| 0 <= k < ld.len() && ld[k] == d[i];
                assert(l[k] == c[i]);
            } else {
                assert(l[l.len() - 1] == c[i]);
            }
        }
        if distinct_sources(c) {
            assert(distinct_sources(d)) by {
                assert forall|i: int, j: int| 0 <= i < j < d.len() implies d[i].message.name
                    != d[j].message.name by {
                    assert(d[i] == c[i] && d[j] == c[j]);
                }
            }
            assert forall|i: int, j: int| 0 <= i < j < l.len() implies l[i].message.name
                != l[j].message.name by {
                if j == ld.len() {
                    assert(d.contains(ld[i]));
                    let k = choose|k: int| 0 <= k < d.len() && d[k] == ld[i];
                    assert(c[k] == l[i]);
                    assert(c[c.len() - 1] == l[j]);
                }
            }
        }
    }
}

/// What the cache holds for the source `name`.
pub open spec fn held(c: Seq<EntryView>, name: Seq<char>) -> Option<EntryView> {
    if source_index(c, name) < c.len() {
        Some(c[source_index(c, name) as int])
    } else {
        None
    }
}

/// The last message of the source `name` among `ms`.
pub open spec fn latest(ms: Seq<MessageView>, name: Seq<char>) -> Option<MessageView>
    decreases ms.len(),
{
    if ms.len() == 0 {
        None
    } else if ms.last().name == name {
        Some(ms.last())
    } else {
        latest(ms.drop_last(), name)
    }
}

/// In a cache that holds each source once, the entry of a source is the one
/// entry that carries its name.
pub proof fn lemma_held_is(c: Seq<EntryView>, name: Seq<char>, k: int)
    requires
        distinct_sources(c),
        0 <= k < c.len(),
        c[k].message.name == name,
    ensures
        held(c, name) == Some(c[k]),
{
    lemma_source_index_bounds(c, name);
    let i = source_index(c, name) as int;
    if i < k {
        assert(c[i].message.name != c[k].message.name);
    }
}

/// A message that arrives takes the place of what was held for its source
/// and leaves every other source as it was: the cache is a mapping from
/// source names, and the last arrival wins.
pub proof fn lemma_ingest_replaces(c: Seq<EntryView>, m: MessageView, now: int, name: Seq<char>)
    requires
        distinct_sources(c),
    ensures
        distinct_sources(ingest_one(c, m, now)),
        held(ingest_one(c, m, now), name) == if name == m.name {
            Some(EntryView { message: m, arrival: now })
        } else {
            held(c, name)
        },
{
    let after = ingest_one(c, m, now);
    let at = source_index(c, m.name) as int;
    lemma_source_index_bounds(c, m.name);
    lemma_source_index_bounds(c, name);
    assert forall|i: int, j: int| 0 <= i < j < after.len() implies after[i].message.name
        != after[j].message.name by {
        if at < c.len() {
            assert(after[i].message.name == c[i].message.name);
            assert(after[j].message.name == c[j].message.name);
        } else if j < c.len() {
            assert(after[i] == c[i] && after[j] == c[j]);
        } else {
            assert(after[i] == c[i]);
        }
    }
    if name == m.name {
        lemma_held_is(after, name, at);
    } else {
        let k = source_index(c, name) as int;
        if k < c.len() {
            assert(after[k] == c[k]);
            lemma_held_is(after, name, k);
        } else {
            lemma_source_index_bounds(after, name);
            let x = source_index(after, name) as int;
            if x < after.len() {
                if x < c.len() {
                    assert(after[x].message.name == c[x].message.name);
                }
            }
        }
    }
}

/// After a batch of messages, the cache holds for each source the last
/// message that the batch has for it, with the time of the batch, and for any
/// other source what it held before.
pub proof fn lemma_ingested_last_wins(
    c: Seq<EntryView>,
    ms: Seq<MessageView>,
    now: int,
    name: Seq<char>,
)
    requires
        distinct_sources(c),
    ensures
        distinct_sources(ingested(c, ms, now)),
        held(ingested(c, ms, now), name) == match latest(ms, name) {
            Some(m) => Some(EntryView { message: m, arrival: now }),
            None => held(c, name),
        },
    decreases ms.len(),
{
    if ms.len() > 0 {
        lemma_ingested_last_wins(c, ms.drop_last(), now, name);
        lemma_ingest_replaces(ingested(c, ms.drop_last(), now), ms.last(), now, name);
    }
}

/// Purging decides source by source: a source stays, with what is held for
/// it, exactly if its entry is live.
pub proof fn lemma_purge_is_per_source(c: Seq<EntryView>, now: int, name: Seq<char>)
    requires
        distinct_sources(c),
    ensures
        held(live(c, now), name) == match held(c, name) {
            Some(e) => if is_live(e, now) {
                Some(e)
            } else {
                None
            },
            None => None,
        },
{
    let l = live(c, now);
    lemma_live_entries(c, now);
    lemma_source_index_bounds(c, name);
    lemma_source_index_bounds(l, name);
    let i = source_index(c, name) as int;
    let x = source_index(l, name) as int;
    if x < l.len() {
        assert(c.contains(l[x]));
        let k = choose|k: int| 0 <= k < c.len() && c[k] == l[x];
        lemma_held_is(c, name, k);
    }
    if i < c.len() && is_live(c[i], now) {
        assert(l.contains(c[i]));
        let k = choose|k: int| 0 <= k < l.len() && l[k] == c[i];
        lemma_held_is(l, name, k);
    }
}

/// Purging twice at the same instant, with nothing taken in between, leaves
/// what purging once leaves: the second purge drops nothing, and both
/// snapshots hold the same messages.
pub proof fn lemma_purge_is_idempotent(c: Seq<EntryView>, now: int)
    ensures
        live(live(c, now), now) == live(c, now),
        messages_of(live(live(c, now), now)) == messages_of(live(c, now)),
    decreases c.len(),
{
    if c.len() > 0 {
        let d = c.drop_last();
        lemma_purge_is_idempotent(d, now);
        if is_live(c.last(), now) {
            let l = live(d, now).push(c.last());
            assert(l.drop_last() =~= live(d, now));
            assert(l.last() == c.last());
        }
    }
}

/// A message that arrives at time `t` with expiration `e` is in every
/// snapshot taken before `t + e`, so in the one at `t + e - 1`, and its
/// source is in no snapshot taken at `t + e` or later.
pub proof fn lemma_ttl_boundary(c: Seq<EntryView>, m: MessageView, t: int, now: int)
    requires
        distinct_sources(c),
    ensures
        now < t + m.expiration ==> messages_of(live(ingest_one(c, m, t), now)).contains(m),
        now >= t + m.expiration ==> forall|i: int|
            0 <= i < live(ingest_one(c, m, t), now).len() ==> (#[trigger] live(
                ingest_one(c, m, t),
                now,
            )[i]).message.name != m.name,
{
    let after = ingest_one(c, m, t);
    let fresh = EntryView { message: m, arrival: t };
    let at = source_index(c, m.name) as int;
    lemma_source_index_bounds(c, m.name);
    assert(after[at] == fresh);
    lemma_live_entries(after, now);
    let l = live(after, now);
    if now < t + m.expiration {
        assert(is_live(after[at], now));
        assert(l.contains(fresh));
        let k = choose|k: int| 0 <= k < l.len() && l[k] == fresh;
        assert(messages_of(l)[k] == m);
    } else {
        assert forall|i: int| 0 <= i < l.len() implies (#[trigger] l[i]).message.name
            != m.name by {
            assert(after.contains(l[i]));
            let k = choose|k: int| 0 <= k < after.len() && after[k] == l[i];
            if k == at {
                assert(!is_live(after[k], now));
            } else if at < c.len() {
                assert(after[k] == c[k]);
                assert(c[at].message.name == m.name);
                if k < at {
                    assert(c[k].message.name != c[at].message.name);
                } else {
                    assert(c[at].message.name != c[k].message.name);
                }
            } else {
                assert(after[k] == c[k]);
            }
        }
    }
}

/// The latest message of each source, with the time it arrived. Sources are
/// held in the order in which they first arrived.
pub struct Cache {
    metrics: Vec<Message>,
    metrics_expiration: Vec<i64>,
}

impl View for Cache {
    type V = Seq<EntryView>;

    closed spec fn view(&self) -> Seq<EntryView> {
        entries_of(self.metrics@, self.metrics_expiration@)
    }
}

impl Cache {
    /// Every message has its time of arrival, and each source is held once.
    #[verifier::type_invariant]
    spec fn consistent(&self) -> bool {
        &&& self.metrics@.len() == self.metrics_expiration@.len()
        &&& distinct_sources(entries_of(self.metrics@, self.metrics_expiration@))
    }

    /// An empty cache.
    pub fn new() -> (c: Self)
        ensures
            c@ == Seq::<EntryView>::empty(),
    {
        let c = Cache { metrics: Vec::new(), metrics_expiration: Vec::new() };
        assert(c@ =~= Seq::<EntryView>::empty());
        c
    }

    /// The number of sources held. No two entries are of the same source.
    pub fn len(&self) -> (n: usize)
        ensures
            n == self@.len(),
            distinct_sources(self@),
    {
        proof {
            use_type_invariant(self);
        }
        self.metrics.len()
    }

    /// The messages held, in order.
    pub fn messages(&self) -> (ms: &Vec<Message>)
        ensures
            messages_view(ms@) == messages_of(self@),
    {
        proof {
            use_type_invariant(self);
            assert(messages_view(self.metrics@) =~= messages_of(self@));
        }
        &self.metrics
    }

    /// Takes in the messages that arrived at time `now`. Each replaces what
    /// was held for its source; among messages of one source the last wins.
    pub fn ingest(&mut self, messages: Vec<Message>, now: i64)
        ensures
            final(self)@ == ingested(old(self)@, messages_view(messages@), now as int),
            distinct_sources(final(self)@),
    {
        proof {
            use_type_invariant(&*self);
        }
        let ghost start = self@;
        let ghost ms = messages_view(messages@);
        let mut taken = Cache::new();
        std::mem::swap(self, &mut taken);
        let Cache { metrics: mut metrics, metrics_expiration: mut arrivals } = taken;
        let mut messages = messages;
        let total = messages.len();
        let mut rest: Vec<Message> = Vec::new();
        // Reverse once, so that the messages can be moved out in order.
        while messages.len() > 0
            invariant
                messages.len() + rest.len() == total,
                total == ms.len(),
                forall|k: int|
                    0 <= k < messages.len() ==> (#[trigger] messages@[k])@ == ms[k],
                forall|k: int|
                    0 <= k < rest.len() ==> (#[trigger] rest@[k])@ == ms[total - 1 - k],
            decreases messages.len(),
        {
            let m = messages.pop().unwrap();
            rest.push(m);
        }
        let mut done: usize = 0;
        assert(ms.take(0) =~= Seq::<MessageView>::empty());
        while rest.len() > 0
            invariant
                done + rest.len() == total,
                total == ms.len(),
                forall|k: int|
                    0 <= k < rest.len() ==> (#[trigger] rest@[k])@ == ms[total - 1 - k],
                metrics.len() == arrivals.len(),
                entries_of(metrics@, arrivals@) == ingested(start, ms.take(done as int), now as int),
                distinct_sources(entries_of(metrics@, arrivals@)),
            decreases rest.len(),
        {
            let m = rest.pop().unwrap();
            let ghost before = entries_of(metrics@, arrivals@);
            proof {
                assert(m@ == ms[done as int]);
                assert(ms.take(done + 1).drop_last() =~= ms.take(done as int));
                assert(ms.take(done + 1).last() == m@);
            }
            let n = metrics.len();
            let mut i: usize = 0;
            while i < n && metrics[i].name != m.name
                invariant
                    n == metrics.len(),
                    metrics.len() == arrivals.len(),
                    i <= n,
                    forall|j: int|
                        0 <= j < i ==> entries_of(metrics@, arrivals@)[j].message.name != m@.name,
                decreases n - i,
            {
                i += 1;
            }
            proof {
                lemma_source_index_is(before, m@.name, i as int);
            }
            if i < n {
                metrics[i] = m;
                arrivals[i] = now;
                proof {
                    let after = entries_of(metrics@, arrivals@);
                    assert(after =~= before.update(
                        i as int,
                        EntryView { message: m@, arrival: now as int },
                    ));
                    assert forall|x: int, y: int| 0 <= x < y < after.len() implies after[x].message.name
                        != after[y].message.name by {
                        assert(after[x].message.name == before[x].message.name);
                        assert(after[y].message.name == before[y].message.name);
                    }
                }
            } else {
                metrics.push(m);
                arrivals.push(now);
                proof {
                    let after = entries_of(metrics@, arrivals@);
                    assert(after =~= before.push(EntryView { message: m@, arrival: now as int }));
                    assert forall|x: int, y: int| 0 <= x < y < after.len() implies after[x].message.name
                        != after[y].message.name by {
                        if y < n {
                            assert(after[x] == before[x] && after[y] == before[y]);
                        } else {
                            assert(after[x] == before[x]);
                        }
                    }
                }
            }
            done += 1;
        }
        assert(ms.take(total as int) =~= ms);
        *self = Cache { metrics, metrics_expiration: arrivals };
    }

    /// Drops every source whose data has expired at time `now`.
    pub fn purge_expired(&mut self, now: i64)
        ensures
            final(self)@ == live(old(self)@, now as int),
            distinct_sources(final(self)@),
    {
        proof {
            use_type_invariant(&*self);
        }
        let ghost start = self@;
        let mut taken = Cache::new();
        std::mem::swap(self, &mut taken);
        let Cache { metrics: mut metrics, metrics_expiration: mut arrivals } = taken;
        let mut i: usize = 0;
        let ghost mut seen: int = 0;
        assert(start.take(0) =~= Seq::<EntryView>::empty());
        assert(start.skip(0) =~= start);
        while i < metrics.len()
            invariant
                metrics.len() == arrivals.len(),
                i <= metrics.len(),
                0 <= seen <= start.len(),
                i == live(start.take(seen), now as int).len(),
                entries_of(metrics@, arrivals@) == live(start.take(seen), now as int) + start.skip(
                    seen,
                ),
            decreases metrics.len() - i,
        {
            let ghost before = entries_of(metrics@, arrivals@);
            let ghost kept = live(start.take(seen), now as int);
            proof {
                assert(before.len() == metrics.len());
                assert(seen < start.len());
                assert(before[i as int] == start.skip(seen)[0]);
                assert(start.take(seen + 1).drop_last() =~= start.take(seen));
                assert(start.take(seen + 1).last() == start[seen]);
            }
            let age: i128 = now as i128 - arrivals[i] as i128;
            if age >= metrics[i].expiration as i128 {
                let ghost held_metrics = metrics@;
                let ghost held_arrivals = arrivals@;
                metrics.remove(i);
                arrivals.remove(i);
                proof {
                    held_metrics.remove_ensures(i as int);
                    held_arrivals.remove_ensures(i as int);
                    let after = entries_of(metrics@, arrivals@);
                    let wanted = kept + start.skip(seen + 1);
                    assert(metrics@.len() == held_metrics.len() - 1);
                    assert(after.len() == metrics@.len());
                    assert(after.len() == wanted.len());
                    assert forall|k: int| 0 <= k < after.len() implies after[k] == wanted[k] by {
                        if k < i {
                            assert(after[k] == before[k]);
                        } else {
                            assert(after[k] == before[k + 1]);
                            assert(before[k + 1] == start.skip(seen)[k + 1 - i]);
                        }
                    }
                    assert(after =~= wanted);
                }
            } else {
                proof {
                    assert(before =~= kept.push(start[seen]) + start.skip(seen + 1));
                }
                i += 1;
            }
            proof {
                seen = seen + 1;
            }
        }
        proof {
            assert(seen == start.len()) by {
                assert(entries_of(metrics@, arrivals@).len() == i);
            }
            assert(start.take(seen) =~= start);
            assert(entries_of(metrics@, arrivals@) =~= live(start, now as int));
            lemma_live_entries(start, now as int);
        }
        *self = Cache { metrics, metrics_expiration: arrivals };
    }

    /// Drops every source whose data has expired at time `now` and returns
    /// the messages of those that remain, in order.
    pub fn snapshot_and_purge(&mut self, now: i64) -> (snapshot: Vec<Message>)
        ensures
            final(self)@ == live(old(self)@, now as int),
            messages_view(snapshot@) == messages_of(final(self)@),
            distinct_sources(final(self)@),
    {
        self.purge_expired(now);
        let held = self.messages();
        let mut snapshot: Vec<Message> = Vec::new();
        let mut i: usize = 0;
        while i < held.len()
            invariant
                i <= held.len(),
                messages_view(snapshot@) == messages_view(held@).take(i as int),
            decreases held.len() - i,
        {
            let ghost before = messages_view(snapshot@);
            snapshot.push(held[i].clone());
            assert(messages_view(snapshot@) =~= before.push(held@[i as int]@));
            i += 1;
        }
        assert(messages_view(held@).take(held.len() as int) =~= messages_view(held@));
        snapshot
    }
}

/// Drops every source of the cache whose data has expired at time `now`.
pub fn purge_expired(cache: &mut Cache, now: i64)
    ensures
        final(cache)@ == live(old(cache)@, now as int),
        distinct_sources(final(cache)@),
{
    cache.purge_expired(now);
}

/// What the exporter does with one request at time `now`. A request for the
/// document purges the cache and answers with the document built from what
/// remains, beside the families that had to be left out of it. Messages
/// from the broker are taken into the cache, and nothing is answered.
pub fn handler(cache: &mut Cache, request: Data, now: i64) -> (reply: Option<Reply>)
    ensures
        match request {
            Data::HTTPRequest => {
                &&& final(cache)@ == live(old(cache)@, now as int)
                &&& reply matches Some(r) && r.text@ == reply_text(messages_of(final(cache)@))
                    && faults_view(r.incomplete@) == reply_faults(
                    merged(all_payloads(messages_of(final(cache)@))),
                )
            },
            Data::MetricData(msg) => {
                &&& final(cache)@ == ingested(old(cache)@, messages_view(msg@), now as int)
                &&& reply is None
            },
        },
{
    match request {
        Data::HTTPRequest => {
            purge_expired(cache, now);
            Some(build_reply(cache.messages()))
        },
        Data::MetricData(msg) => {
            cache.ingest(msg, now);
            None
        },
    }
}

} // verus!
