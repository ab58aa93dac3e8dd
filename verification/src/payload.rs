//! The data model that travels between the fetch side and the export side.

use vstd::prelude::*;
use crate::text::strings_view;

verus! {

/// Mathematical value of a [`Payload`].
pub struct PayloadView {
    pub data: Seq<Seq<char>>,
    pub data_type: Seq<char>,
    pub help: Seq<char>,
    pub metric_name: Seq<char>,
}

/// Mathematical value of a [`Message`].
pub struct MessageView {
    pub expiration: int,
    pub name: Seq<char>,
    pub payload: Seq<PayloadView>,
}

/// The payloads of a vector, each taken by its view.
pub open spec fn payloads_view(v: Seq<Payload>) -> Seq<PayloadView> {
    v.map_values(|p: Payload| p@)
}

/// The messages of a vector, each taken by its view.
pub open spec fn messages_view(v: Seq<Message>) -> Seq<MessageView> {
    v.map_values(|m: Message| m@)
}

/// One metric family as scraped: its name, declared type, help text and the
/// raw data lines in the order they were received.
#[derive(Debug)]
pub struct Payload {
    pub data: Vec<String>,
    pub data_type: String,
    pub help: String,
    pub metric_name: String,
}

/// One scrape of one source: the source name, the number of seconds its data
/// stays valid after arrival, and the metric families it delivered.
#[derive(Debug)]
pub struct Message {
    pub expiration: i64,
    pub name: String,
    pub payload: Vec<Payload>,
}

impl View for Payload {
    type V = PayloadView;

    open spec fn view(&self) -> PayloadView {
        PayloadView {
            data: strings_view(self.data@),
            data_type: self.data_type@,
            help: self.help@,
            metric_name: self.metric_name@,
        }
    }
}

impl View for Message {
    type V = MessageView;

    open spec fn view(&self) -> MessageView {
        MessageView {
            expiration: self.expiration as int,
            name: self.name@,
            payload: payloads_view(self.payload@),
        }
    }
}

/// The payload with no name, no type, no help and no data.
pub open spec fn empty_payload() -> PayloadView {
    PayloadView { data: Seq::empty(), data_type: Seq::empty(), help: Seq::empty(), metric_name: Seq::empty() }
}

/// The message with no name, expiration zero and no payload.
pub open spec fn empty_message() -> MessageView {
    MessageView { expiration: 0, name: Seq::empty(), payload: Seq::empty() }
}

impl Default for Payload {
    fn default() -> (p: Self)
        ensures
            p@ == empty_payload(),
    {
        Self::new()
    }
}

impl Default for Message {
    fn default() -> (m: Self)
        ensures
            m@ == empty_message(),
    {
        Self::new()
    }
}

impl Payload {
    /// A payload with no name, no type, no help and no data.
    pub fn new() -> (p: Self)
        ensures
            p@ == empty_payload(),
    {
        let p = Payload {
            data: Vec::<String>::new(),
            data_type: String::new(),
            help: String::new(),
            metric_name: String::new(),
        };
        assert(strings_view(p.data@) =~= Seq::<Seq<char>>::empty());
        p
    }
}

impl Message {
    /// A message with no name, expiration zero and no payload.
    pub fn new() -> (m: Self)
        ensures
            m@ == empty_message(),
    {
        let m = Message { expiration: 0, name: String::new(), payload: Vec::<Payload>::new() };
        assert(payloads_view(m.payload@) =~= Seq::<PayloadView>::empty());
        m
    }
}

/// Index of the first entry for the metric `name`, or the length where there is none.
pub open spec fn entry_index(acc: Seq<PayloadView>, name: Seq<char>) -> nat
    decreases acc.len(),
{
    if acc.len() > 0 && acc[0].metric_name != name {
        1 + entry_index(acc.skip(1), name)
    } else {
        0
    }
}

/// `entry_index(acc, name)` is the one index before which no entry is for
/// `name` and at which one is.
pub proof fn lemma_entry_index_is(acc: Seq<PayloadView>, name: Seq<char>, k: int)
    requires
        0 <= k <= acc.len(),
        forall|j: int| 0 <= j < k ==> acc[j].metric_name != name,
        k < acc.len() ==> acc[k].metric_name == name,
    ensures
        entry_index(acc, name) == k,
    decreases acc.len(),
{
    if k > 0 {
        let t = acc.skip(1);
        assert forall|j: int| 0 <= j < k - 1 implies t[j].metric_name != name by {
            assert(t[j] == acc[j + 1]);
        }
        lemma_entry_index_is(t, name, k - 1);
    }
}

/// No entry before `entry_index(acc, name)` is for `name`, and the one at it is.
pub proof fn lemma_entry_index_bounds(acc: Seq<PayloadView>, name: Seq<char>)
    ensures
        entry_index(acc, name) <= acc.len(),
        forall|j: int| 0 <= j < entry_index(acc, name) ==> acc[j].metric_name != name,
        entry_index(acc, name) < acc.len() ==> acc[entry_index(acc, name) as int].metric_name
            == name,
    decreases acc.len(),
{
    if acc.len() > 0 && acc[0].metric_name != name {
        let t = acc.skip(1);
        lemma_entry_index_bounds(t, name);
        assert forall|j: int| 0 <= j < entry_index(acc, name) implies acc[j].metric_name
            != name by {
            if j > 0 {
                assert(acc[j] == t[j - 1]);
            }
        }
        if entry_index(acc, name) < acc.len() {
            assert(acc[entry_index(acc, name) as int] == t[entry_index(t, name) as int]);
        }
    }
}

/// No two entries are for the same metric.
pub open spec fn distinct_metrics(acc: Seq<PayloadView>) -> bool {
    forall|i: int, j: int| 0 <= i < j < acc.len() ==> acc[i].metric_name != acc[j].metric_name
}

/// Where no metric has two entries, the entry of a metric is the one entry
/// that carries its name.
pub proof fn lemma_entry_is(acc: Seq<PayloadView>, name: Seq<char>, k: int)
    requires
        distinct_metrics(acc),
        0 <= k < acc.len(),
        acc[k].metric_name == name,
    ensures
        entry_index(acc, name) == k,
{
    lemma_entry_index_bounds(acc, name);
    let i = entry_index(acc, name) as int;
    if i < k {
        assert(acc[i].metric_name != acc[k].metric_name);
    }
}

impl Clone for Payload {
    fn clone(&self) -> (p: Self)
        ensures
            p@ == self@,
    {
        let mut data: Vec<String> = Vec::new();
        let mut i: usize = 0;
        while i < self.data.len()
            invariant
                i <= self.data.len(),
                strings_view(data@) == strings_view(self.data@).take(i as int),
            decreases self.data.len() - i,
        {
            let ghost before = strings_view(data@);
            data.push(self.data[i].clone());
            assert(strings_view(data@) =~= before.push(self.data@[i as int]@));
            i += 1;
        }
        assert(strings_view(self.data@).take(self.data.len() as int) =~= strings_view(self.data@));
        Payload {
            data,
            data_type: self.data_type.clone(),
            help: self.help.clone(),
            metric_name: self.metric_name.clone(),
        }
    }
}

impl Clone for Message {
    fn clone(&self) -> (m: Self)
        ensures
            m@ == self@,
    {
        let mut payload: Vec<Payload> = Vec::new();
        let mut i: usize = 0;
        while i < self.payload.len()
            invariant
                i <= self.payload.len(),
                payloads_view(payload@) == payloads_view(self.payload@).take(i as int),
            decreases self.payload.len() - i,
        {
            let ghost before = payloads_view(payload@);
            payload.push(self.payload[i].clone());
            assert(payloads_view(payload@) =~= before.push(self.payload@[i as int]@));
            i += 1;
        }
        assert(payloads_view(self.payload@).take(self.payload.len() as int) =~= payloads_view(
            self.payload@,
        ));
        Message { expiration: self.expiration, name: self.name.clone(), payload }
    }
}

} // verus!
