//! Rebuilding one exposition document from the messages that are cached.

use vstd::prelude::*;
use vstd::string::*;
use crate::payload::{
    distinct_metrics, entry_index, lemma_entry_index_bounds, lemma_entry_index_is,
    lemma_entry_is, messages_view, payloads_view, Message, MessageView, Payload, PayloadView,
};
use crate::text::{join, join_strings, same_text, strings_view};

verus! {

/// The payloads of all messages, in order.
pub open spec fn all_payloads(ms: Seq<MessageView>) -> Seq<PayloadView>
    decreases ms.len(),
{
    if ms.len() == 0 {
        Seq::empty()
    } else {
        all_payloads(ms.drop_last()) + ms.last().payload
    }
}

/// `a` unless it is empty, else `b`.
pub open spec fn first_nonempty(a: Seq<char>, b: Seq<char>) -> Seq<char> {
    if a.len() > 0 {
        a
    } else {
        b
    }
}

/// The table of metrics after one more payload. A payload for a metric that
/// the table has adds its data lines behind those held, and gives its type
/// and help only where none is held yet. A payload for a new metric goes to
/// the end.
pub open spec fn merge_one(table: Seq<PayloadView>, p: PayloadView) -> Seq<PayloadView> {
    let i = entry_index(table, p.metric_name) as int;
    if i < table.len() {
        table.update(
            i,
            PayloadView {
                data: table[i].data + p.data,
                data_type: first_nonempty(table[i].data_type, p.data_type),
                help: first_nonempty(table[i].help, p.help),
                metric_name: table[i].metric_name,
            },
        )
    } else {
        table.push(p)
    }
}

/// One entry for each metric name among the payloads, in the order of first
/// appearance: the first type and the first help that is not empty, and all
/// data lines in order.
pub open spec fn merged(flat: Seq<PayloadView>) -> Seq<PayloadView>
    decreases flat.len(),
{
    if flat.len() == 0 {
        Seq::empty()
    } else {
        merge_one(merged(flat.drop_last()), flat.last())
    }
}

/// The line that declares the type of a metric.
pub open spec fn type_line(name: Seq<char>, mtype: Seq<char>) -> Seq<char> {
    "# TYPE "@ + name + " "@ + mtype
}

/// The line that holds the help text of a metric.
pub open spec fn help_line(name: Seq<char>, help: Seq<char>) -> Seq<char> {
    "# HELP "@ + name + " "@ + help
}

/// A metric that is written out on its own: neither histogram nor summary,
/// and with a type or a help text.
pub open spec fn is_ordinary(p: PayloadView) -> bool {
    &&& p.data_type != "histogram"@
    &&& p.data_type != "summary"@
    &&& !(p.data_type.len() == 0 && p.help.len() == 0)
}

/// What is written for an ordinary metric: type line, data lines, help line.
pub open spec fn ordinary_block(p: PayloadView) -> Seq<char> {
    type_line(p.metric_name, p.data_type) + "\n"@ + join(p.data, "\n"@) + "\n"@ + help_line(
        p.metric_name,
        p.help,
    )
}

/// The blocks of the ordinary metrics among the first `n` entries.
pub open spec fn ordinary_blocks(table: Seq<PayloadView>, n: int) -> Seq<Seq<char>>
    decreases n,
{
    if n <= 0 {
        Seq::empty()
    } else if is_ordinary(table[n - 1]) {
        ordinary_blocks(table, n - 1).push(ordinary_block(table[n - 1]))
    } else {
        ordinary_blocks(table, n - 1)
    }
}

/// Whether a family is a histogram or a summary.
#[derive(Clone, Copy, Debug, PartialEq, Eq, Structural)]
pub enum FamilyKind {
    Histogram,
    Summary,
}

/// A histogram or summary that lacks one of its series.
#[derive(Debug)]
pub struct IncompleteFamily {
    pub kind: FamilyKind,
    /// The base name of the family.
    pub name: String,
    /// The first series that is required and not there.
    pub missing: String,
}

/// Mathematical value of an [`IncompleteFamily`].
pub struct IncompleteFamilyView {
    pub kind: FamilyKind,
    pub name: Seq<char>,
    pub missing: Seq<char>,
}

impl View for IncompleteFamily {
    type V = IncompleteFamilyView;

    open spec fn view(&self) -> IncompleteFamilyView {
        IncompleteFamilyView { kind: self.kind, name: self.name@, missing: self.missing@ }
    }
}

impl IncompleteFamily {
    /// The text of the error.
    pub open spec fn message_text(e: IncompleteFamilyView) -> Seq<char> {
        e.name + (match e.kind {
            FamilyKind::Histogram => " is of type histogram but no data found for "@,
            FamilyKind::Summary => " is of type summary but no data found for "@,
        }) + e.missing
    }

    /// Renders the error for a log line.
    pub fn message(&self) -> (s: String)
        ensures
            s@ == Self::message_text(self@),
    {
        let mut s = self.name.clone();
        match self.kind {
            FamilyKind::Histogram => s.append(" is of type histogram but no data found for "),
            FamilyKind::Summary => s.append(" is of type summary but no data found for "),
        }
        s.append(self.missing.as_str());
        s
    }
}

/// The name of the series that a family starts with: the buckets of a
/// histogram, the quantiles of a summary, which go by the base name.
pub open spec fn first_series(kind: FamilyKind, name: Seq<char>) -> Seq<char> {
    match kind {
        FamilyKind::Histogram => name + "_bucket"@,
        FamilyKind::Summary => name,
    }
}

/// Whether the table holds an entry for `name`.
pub open spec fn has_series(table: Seq<PayloadView>, name: Seq<char>) -> bool {
    entry_index(table, name) < table.len()
}

/// The data lines that the table holds for `name`, joined by line feeds.
pub open spec fn series_text(table: Seq<PayloadView>, name: Seq<char>) -> Seq<char> {
    join(table[entry_index(table, name) as int].data, "\n"@)
}

/// What is written for a histogram or summary: the type line, the lines of
/// its first series, of its count and of its sum, then the help line. A
/// family that lacks one of the three series is not written at all.
pub open spec fn family(
    table: Seq<PayloadView>,
    kind: FamilyKind,
    name: Seq<char>,
    help: Seq<char>,
    mtype: Seq<char>,
) -> Result<Seq<Seq<char>>, IncompleteFamilyView> {
    let first = first_series(kind, name);
    let count = name + "_count"@;
    let sum = name + "_sum"@;
    if !has_series(table, first) {
        Err(IncompleteFamilyView { kind, name, missing: first })
    } else if !has_series(table, count) {
        Err(IncompleteFamilyView { kind, name, missing: count })
    } else if !has_series(table, sum) {
        Err(IncompleteFamilyView { kind, name, missing: sum })
    } else {
        Ok(
            seq![
                type_line(name, mtype),
                series_text(table, first),
                series_text(table, count),
                series_text(table, sum),
                help_line(name, help),
            ],
        )
    }
}

/// The type name that marks a family of the given kind.
pub open spec fn kind_word(kind: FamilyKind) -> Seq<char> {
    match kind {
        FamilyKind::Histogram => "histogram"@,
        FamilyKind::Summary => "summary"@,
    }
}

/// The blocks of the complete families of one kind among the first `n` entries.
pub open spec fn family_blocks(table: Seq<PayloadView>, kind: FamilyKind, n: int) -> Seq<
    Seq<char>,
>
    decreases n,
{
    let p = table[n - 1];
    let written = family(table, kind, p.metric_name, p.help, p.data_type);
    if n <= 0 {
        Seq::empty()
    } else if p.data_type == kind_word(kind) && written is Ok {
        family_blocks(table, kind, n - 1) + written->Ok_0
    } else {
        family_blocks(table, kind, n - 1)
    }
}

/// The families of one kind among the first `n` entries that lack a series,
/// each with the first series it lacks.
pub open spec fn family_faults(table: Seq<PayloadView>, kind: FamilyKind, n: int) -> Seq<
    IncompleteFamilyView,
>
    decreases n,
{
    let p = table[n - 1];
    let written = family(table, kind, p.metric_name, p.help, p.data_type);
    if n <= 0 {
        Seq::empty()
    } else if p.data_type == kind_word(kind) && written is Err {
        family_faults(table, kind, n - 1).push(written->Err_0)
    } else {
        family_faults(table, kind, n - 1)
    }
}

/// The families that are left out of the document: histograms first, then
/// summaries.
pub open spec fn reply_faults(table: Seq<PayloadView>) -> Seq<IncompleteFamilyView> {
    family_faults(table, FamilyKind::Histogram, table.len() as int) + family_faults(
        table,
        FamilyKind::Summary,
        table.len() as int,
    )
}

/// The errors of a vector, each taken by its view.
pub open spec fn faults_view(v: Seq<IncompleteFamily>) -> Seq<IncompleteFamilyView> {
    v.map_values(|e: IncompleteFamily| e@)
}

/// A document, and the families that had to be left out of it.
#[derive(Debug)]
pub struct Reply {
    pub text: String,
    pub incomplete: Vec<IncompleteFamily>,
}

/// Everything that is written for a table of metrics: the ordinary metrics,
/// then the histograms, then the summaries.
pub open spec fn reply_blocks(table: Seq<PayloadView>) -> Seq<Seq<char>> {
    ordinary_blocks(table, table.len() as int) + family_blocks(
        table,
        FamilyKind::Histogram,
        table.len() as int,
    ) + family_blocks(table, FamilyKind::Summary, table.len() as int)
}

/// The exposition document for the given messages: the blocks of their
/// merged metrics, each followed by a line feed.
pub open spec fn reply_text(ms: Seq<MessageView>) -> Seq<char> {
    join(reply_blocks(merged(all_payloads(ms))).push(Seq::empty()), "\n"@)
}

/// All data lines that the payloads hold for the metric `name`, in order.
pub open spec fn data_of(flat: Seq<PayloadView>, name: Seq<char>) -> Seq<Seq<char>>
    decreases flat.len(),
{
    if flat.len() == 0 {
        Seq::empty()
    } else if flat.last().metric_name == name {
        data_of(flat.drop_last(), name) + flat.last().data
    } else {
        data_of(flat.drop_last(), name)
    }
}

/// The first type that the payloads declare for the metric `name`; empty
/// where none declares one.
pub open spec fn type_of(flat: Seq<PayloadView>, name: Seq<char>) -> Seq<char>
    decreases flat.len(),
{
    if flat.len() == 0 {
        Seq::empty()
    } else if flat.last().metric_name == name {
        first_nonempty(type_of(flat.drop_last(), name), flat.last().data_type)
    } else {
        type_of(flat.drop_last(), name)
    }
}

/// The first help text that the payloads give for the metric `name`; empty
/// where none gives one.
pub open spec fn help_of(flat: Seq<PayloadView>, name: Seq<char>) -> Seq<char>
    decreases flat.len(),
{
    if flat.len() == 0 {
        Seq::empty()
    } else if flat.last().metric_name == name {
        first_nonempty(help_of(flat.drop_last(), name), flat.last().help)
    } else {
        help_of(flat.drop_last(), name)
    }
}

/// Whether one of the payloads is for the metric `name`.
pub open spec fn mentions(flat: Seq<PayloadView>, name: Seq<char>) -> bool {
    exists|k: int| 0 <= k < flat.len() && #[trigger] flat[k].metric_name == name
}

/// The merged table is the three mappings by metric name in one: it has an
/// entry for exactly the metrics that the payloads mention, and the entry of
/// a metric holds its first type, its first help text and all its data lines
/// in the order of the payloads. No metric has two entries.
pub proof fn lemma_merged_collects(flat: Seq<PayloadView>, name: Seq<char>)
    ensures
        distinct_metrics(merged(flat)),
        has_series(merged(flat), name) == mentions(flat, name),
        has_series(merged(flat), name) ==> merged(flat)[entry_index(merged(flat), name) as int]
            == (PayloadView {
            data: data_of(flat, name),
            data_type: type_of(flat, name),
            help: help_of(flat, name),
            metric_name: name,
        }),
    decreases flat.len(),
{
    if flat.len() > 0 {
        let rest = flat.drop_last();
        let p = flat.last();
        let table = merged(rest);
        let after = merged(flat);
        lemma_merged_collects(rest, name);
        lemma_merged_collects(rest, p.metric_name);
        lemma_merged_is_distinct(flat);
        lemma_entry_index_bounds(table, name);
        lemma_entry_index_bounds(table, p.metric_name);
        lemma_entry_index_bounds(after, name);
        let at = entry_index(table, p.metric_name) as int;
        if mentions(rest, name) {
            let k = choose|k: int| 0 <= k < rest.len() && #[trigger] rest[k].metric_name == name;
            assert(flat[k].metric_name == name);
        }
        if mentions(flat, name) && name != p.metric_name {
            let k = choose|k: int| 0 <= k < flat.len() && #[trigger] flat[k].metric_name == name;
            assert(rest[k].metric_name == name);
        }
        if name == p.metric_name {
            assert(flat[flat.len() - 1].metric_name == name);
            if at < table.len() {
                lemma_entry_is(after, name, at);
            } else {
                lemma_entry_is(after, name, table.len() as int);
                assert(!mentions(rest, name));
                lemma_unmentioned_is_empty(rest, name);
                assert(Seq::<Seq<char>>::empty() + p.data =~= p.data);
            }
        } else {
            let i = entry_index(table, name) as int;
            if i < table.len() {
                assert(after[i] == table[i]);
                lemma_entry_is(after, name, i);
            } else {
                let x = entry_index(after, name) as int;
                if x < after.len() {
                    if x < table.len() {
                        assert(after[x].metric_name == table[x].metric_name);
                    }
                }
            }
        }
    }
}

/// A metric that no payload mentions has no type, no help and no data.
pub proof fn lemma_unmentioned_is_empty(flat: Seq<PayloadView>, name: Seq<char>)
    requires
        !mentions(flat, name),
    ensures
        data_of(flat, name) == Seq::<Seq<char>>::empty(),
        type_of(flat, name) == Seq::<char>::empty(),
        help_of(flat, name) == Seq::<char>::empty(),
    decreases flat.len(),
{
    if flat.len() > 0 {
        assert(flat[flat.len() - 1].metric_name != name);
        assert forall|k: int| 0 <= k < flat.drop_last().len() implies flat.drop_last()[k].metric_name
            != name by {
            assert(flat[k].metric_name != name);
        }
        lemma_unmentioned_is_empty(flat.drop_last(), name);
    }
}

/// Each metric has one entry in the merged table, whatever number of
/// payloads and sources mention it: its type line and its help line are
/// written once.
pub proof fn lemma_merged_is_distinct(flat: Seq<PayloadView>)
    ensures
        distinct_metrics(merged(flat)),
    decreases flat.len(),
{
    if flat.len() > 0 {
        let table = merged(flat.drop_last());
        let p = flat.last();
        let after = merge_one(table, p);
        lemma_merged_is_distinct(flat.drop_last());
        lemma_entry_index_bounds(table, p.metric_name);
        assert forall|i: int, j: int| 0 <= i < j < after.len() implies after[i].metric_name
            != after[j].metric_name by {
            if entry_index(table, p.metric_name) < table.len() {
                assert(after[i].metric_name == table[i].metric_name);
                assert(after[j].metric_name == table[j].metric_name);
            } else if j < table.len() {
                assert(after[i] == table[i] && after[j] == table[j]);
            } else {
                assert(after[i] == table[i]);
            }
        }
    }
}

/// What is written for the first entries stays as written when more entries
/// are taken in.
pub proof fn lemma_family_blocks_grow(table: Seq<PayloadView>, kind: FamilyKind, m: int, n: int)
    requires
        0 <= m <= n,
    ensures
        family_blocks(table, kind, m).is_prefix_of(family_blocks(table, kind, n)),
    decreases n - m,
{
    if m < n {
        lemma_family_blocks_grow(table, kind, m, n - 1);
        let shorter = family_blocks(table, kind, n - 1);
        let longer = family_blocks(table, kind, n);
        assert(shorter.is_prefix_of(longer)) by {
            assert(longer.subrange(0, shorter.len() as int) =~= shorter);
        }
        assert(family_blocks(table, kind, m).is_prefix_of(longer)) by {
            let first = family_blocks(table, kind, m);
            assert(longer.subrange(0, first.len() as int) =~= shorter.subrange(
                0,
                first.len() as int,
            ));
        }
    } else {
        assert(family_blocks(table, kind, n).subrange(
            0,
            family_blocks(table, kind, m).len() as int,
        ) =~= family_blocks(table, kind, m));
    }
}

/// A histogram or summary with all its series is written as one run of five
/// blocks: its type line, the lines of its first series, directly followed
/// by those of its count and then those of its sum, and its help line.
pub proof fn lemma_complete_family_is_written(table: Seq<PayloadView>, kind: FamilyKind, i: int)
    requires
        0 <= i < table.len(),
        table[i].data_type == kind_word(kind),
        family(table, kind, table[i].metric_name, table[i].help, table[i].data_type) is Ok,
    ensures
        exists|k: int|
            0 <= k && k + 5 <= family_blocks(table, kind, table.len() as int).len()
                && #[trigger] family_blocks(table, kind, table.len() as int).subrange(k, k + 5)
                == seq![
                type_line(table[i].metric_name, table[i].data_type),
                series_text(table, first_series(kind, table[i].metric_name)),
                series_text(table, table[i].metric_name + "_count"@),
                series_text(table, table[i].metric_name + "_sum"@),
                help_line(table[i].metric_name, table[i].help),
            ],
{
    let all = family_blocks(table, kind, table.len() as int);
    let before = family_blocks(table, kind, i);
    let with = family_blocks(table, kind, i + 1);
    let written = family(table, kind, table[i].metric_name, table[i].help, table[i].data_type)->Ok_0;
    lemma_family_blocks_grow(table, kind, i + 1, table.len() as int);
    let k = before.len() as int;
    assert(with == before + written);
    assert(all.subrange(0, with.len() as int) == with);
    assert(all.subrange(k, k + 5) =~= written) by {
        assert forall|j: int| 0 <= j < 5 implies all.subrange(k, k + 5)[j] == written[j] by {
            assert(all.subrange(0, with.len() as int)[k + j] == with[k + j]);
        }
    }
}

/// A histogram or summary that lacks a series is left out whole: nothing is
/// written for its entry, neither as a family nor as an ordinary metric.
pub proof fn lemma_incomplete_family_is_left_out(
    table: Seq<PayloadView>,
    kind: FamilyKind,
    i: int,
)
    requires
        0 <= i < table.len(),
        table[i].data_type == kind_word(kind),
        family(table, kind, table[i].metric_name, table[i].help, table[i].data_type) is Err,
    ensures
        ordinary_blocks(table, i + 1) == ordinary_blocks(table, i),
        family_blocks(table, FamilyKind::Histogram, i + 1) == family_blocks(
            table,
            FamilyKind::Histogram,
            i,
        ),
        family_blocks(table, FamilyKind::Summary, i + 1) == family_blocks(
            table,
            FamilyKind::Summary,
            i,
        ),
{
    reveal_strlit("histogram");
    reveal_strlit("summary");
}

/// A document that holds anything ends with a line feed.
pub proof fn lemma_document_ends_with_line_feed(ms: Seq<MessageView>)
    requires
        reply_blocks(merged(all_payloads(ms))).len() > 0,
    ensures
        reply_text(ms).len() > 0,
        reply_text(ms).last() == '\n',
        reply_text(ms) == join(reply_blocks(merged(all_payloads(ms))), "\n"@) + "\n"@,
{
    reveal_strlit("\n");
    let blocks = reply_blocks(merged(all_payloads(ms)));
    let closed = blocks.push(Seq::empty());
    assert(closed.drop_last() =~= blocks);
    assert(closed.last() == Seq::<char>::empty());
    assert(join(closed, "\n"@) =~= join(blocks, "\n"@) + "\n"@);
}

/// The document of an empty table is empty.
pub proof fn lemma_empty_document(ms: Seq<MessageView>)
    requires
        reply_blocks(merged(all_payloads(ms))).len() == 0,
    ensures
        reply_text(ms) == Seq::<char>::empty(),
{
    let blocks = reply_blocks(merged(all_payloads(ms)));
    assert(blocks.push(Seq::empty())[0] == Seq::<char>::empty());
}

/// Index of the entry for `name`, or the length of the table where there is none.
pub fn find_series(table: &Vec<Payload>, name: &String) -> (i: usize)
    ensures
        i == entry_index(payloads_view(table@), name@),
        i <= table.len(),
{
    let n = table.len();
    let mut i: usize = 0;
    while i < n && table[i].metric_name != *name
        invariant
            n == table.len(),
            i <= n,
            forall|j: int| 0 <= j < i ==> payloads_view(table@)[j].metric_name != name@,
        decreases n - i,
    {
        i += 1;
    }
    proof {
        lemma_entry_index_is(payloads_view(table@), name@, i as int);
    }
    i
}

/// Takes one payload into the table of metrics.
pub fn merge_payload(table: &mut Vec<Payload>, p: &Payload)
    ensures
        payloads_view(final(table)@) == merge_one(payloads_view(old(table)@), p@),
{
    let ghost before = payloads_view(table@);
    let i = find_series(table, &p.metric_name);
    if i < table.len() {
        if table[i].data_type.as_str().is_empty() {
            table[i].data_type = p.data_type.clone();
        }
        if table[i].help.as_str().is_empty() {
            table[i].help = p.help.clone();
        }
        let mut k: usize = 0;
        while k < p.data.len()
            invariant
                k <= p.data.len(),
                i < table.len(),
                table.len() == before.len(),
                forall|j: int| 0 <= j < table.len() && j != i ==> table@[j]@ == before[j],
                table@[i as int]@.metric_name == before[i as int].metric_name,
                table@[i as int]@.data_type == first_nonempty(
                    before[i as int].data_type,
                    p@.data_type,
                ),
                table@[i as int]@.help == first_nonempty(before[i as int].help, p@.help),
                table@[i as int]@.data == before[i as int].data + p@.data.take(k as int),
            decreases p.data.len() - k,
        {
            let ghost held = table@[i as int].data@;
            table[i].data.push(p.data[k].clone());
            proof {
                assert(strings_view(table@[i as int].data@) =~= strings_view(held).push(
                    p.data@[k as int]@,
                ));
                assert(p@.data.take(k + 1) =~= p@.data.take(k as int).push(p.data@[k as int]@));
            }
            k += 1;
        }
        proof {
            assert(p@.data.take(p.data.len() as int) =~= p@.data);
            assert(payloads_view(table@) =~= merge_one(before, p@));
        }
    } else {
        table.push(p.clone());
        assert(payloads_view(table@) =~= before.push(p@));
    }
}

/// Merges the payloads of all messages into one table of metrics.
pub fn collect(metrics: &Vec<Message>) -> (table: Vec<Payload>)
    ensures
        payloads_view(table@) == merged(all_payloads(messages_view(metrics@))),
{
    let ghost ms = messages_view(metrics@);
    let mut table: Vec<Payload> = Vec::new();
    let mut i: usize = 0;
    assert(payloads_view(table@) =~= Seq::<PayloadView>::empty());
    assert(ms.take(0) =~= Seq::<MessageView>::empty());
    while i < metrics.len()
        invariant
            i <= metrics.len(),
            ms == messages_view(metrics@),
            payloads_view(table@) == merged(all_payloads(ms.take(i as int))),
        decreases metrics.len() - i,
    {
        let message = &metrics[i];
        let ghost done = all_payloads(ms.take(i as int));
        let ghost these = message@.payload;
        let mut j: usize = 0;
        assert(done + these.take(0) =~= done);
        while j < message.payload.len()
            invariant
                j <= message.payload.len(),
                these == message@.payload,
                payloads_view(table@) == merged(done + these.take(j as int)),
            decreases message.payload.len() - j,
        {
            proof {
                let next = done + these.take(j + 1);
                assert(next.drop_last() =~= done + these.take(j as int));
                assert(next.last() == message.payload@[j as int]@);
            }
            merge_payload(&mut table, &message.payload[j]);
            j += 1;
        }
        proof {
            assert(these.take(message.payload.len() as int) =~= these);
            assert(ms.take(i + 1).drop_last() =~= ms.take(i as int));
            assert(ms.take(i + 1).last() == message@);
        }
        i += 1;
    }
    assert(ms.take(metrics.len() as int) =~= ms);
    table
}

/// Writes the type line of a metric.
fn type_line_of(name: &str, mtype: &str) -> (line: String)
    ensures
        line@ == type_line(name@, mtype@),
{
    let mut line = String::from_str("# TYPE ");
    line.append(name);
    line.append(" ");
    line.append(mtype);
    line
}

/// Writes the help line of a metric.
fn help_line_of(name: &str, help: &str) -> (line: String)
    ensures
        line@ == help_line(name@, help@),
{
    let mut line = String::from_str("# HELP ");
    line.append(name);
    line.append(" ");
    line.append(help);
    line
}

/// Appends the blocks of one family to `result`, or reports the series it lacks.
fn append_family(
    data: &Vec<Payload>,
    kind: FamilyKind,
    name: &str,
    help: &str,
    mtype: &str,
    result: &mut Vec<String>,
) -> (r: Result<(), IncompleteFamily>)
    ensures
        match family(payloads_view(data@), kind, name@, help@, mtype@) {
            Ok(blocks) => r is Ok && strings_view(final(result)@) == strings_view(old(result)@)
                + blocks,
            Err(e) => r matches Err(x) && x@ == e && final(result)@ == old(result)@,
        },
{
    let mut first = String::from_str(name);
    match kind {
        FamilyKind::Histogram => first.append("_bucket"),
        FamilyKind::Summary => {},
    }
    let mut count = String::from_str(name);
    count.append("_count");
    let mut sum = String::from_str(name);
    sum.append("_sum");

    let at_first = find_series(data, &first);
    if at_first >= data.len() {
        return Err(IncompleteFamily { kind, name: String::from_str(name), missing: first });
    }
    let at_count = find_series(data, &count);
    if at_count >= data.len() {
        return Err(IncompleteFamily { kind, name: String::from_str(name), missing: count });
    }
    let at_sum = find_series(data, &sum);
    if at_sum >= data.len() {
        return Err(IncompleteFamily { kind, name: String::from_str(name), missing: sum });
    }
    let ghost before = strings_view(result@);
    result.push(type_line_of(name, mtype));
    result.push(join_strings(&data[at_first].data, "\n"));
    result.push(join_strings(&data[at_count].data, "\n"));
    result.push(join_strings(&data[at_sum].data, "\n"));
    result.push(help_line_of(name, help));
    proof {
        let table = payloads_view(data@);
        assert(strings_view(result@) =~= before + seq![
            type_line(name@, mtype@),
            series_text(table, first@),
            series_text(table, count@),
            series_text(table, sum@),
            help_line(name@, help@),
        ]);
    }
    Ok(())
}

/// Appends a histogram to `result`: its type line, the lines of its buckets,
/// of its count and of its sum, and its help line. Where `data` lacks one of
/// the three series, nothing is appended and the error names the first that
/// is missing.
pub fn append_histogram_result(
    data: &Vec<Payload>,
    name: &str,
    help: &str,
    mtype: &str,
    result: &mut Vec<String>,
) -> (r: Result<(), IncompleteFamily>)
    ensures
        match family(payloads_view(data@), FamilyKind::Histogram, name@, help@, mtype@) {
            Ok(blocks) => r is Ok && strings_view(final(result)@) == strings_view(old(result)@)
                + blocks,
            Err(e) => r matches Err(x) && x@ == e && final(result)@ == old(result)@,
        },
{
    append_family(data, FamilyKind::Histogram, name, help, mtype, result)
}

/// Appends a summary to `result`: its type line, the lines of its quantiles,
/// of its count and of its sum, and its help line. Where `data` lacks one of
/// the three series, nothing is appended and the error names the first that
/// is missing.
pub fn append_summary_result(
    data: &Vec<Payload>,
    name: &str,
    help: &str,
    mtype: &str,
    result: &mut Vec<String>,
) -> (r: Result<(), IncompleteFamily>)
    ensures
        match family(payloads_view(data@), FamilyKind::Summary, name@, help@, mtype@) {
            Ok(blocks) => r is Ok && strings_view(final(result)@) == strings_view(old(result)@)
                + blocks,
            Err(e) => r matches Err(x) && x@ == e && final(result)@ == old(result)@,
        },
{
    append_family(data, FamilyKind::Summary, name, help, mtype, result)
}

/// Appends the blocks of all complete families of one kind, and notes the
/// families that lack a series.
fn append_families(
    table: &Vec<Payload>,
    kind: FamilyKind,
    result: &mut Vec<String>,
    incomplete: &mut Vec<IncompleteFamily>,
)
    ensures
        strings_view(final(result)@) == strings_view(old(result)@) + family_blocks(
            payloads_view(table@),
            kind,
            table.len() as int,
        ),
        faults_view(final(incomplete)@) == faults_view(old(incomplete)@) + family_faults(
            payloads_view(table@),
            kind,
            table.len() as int,
        ),
{
    let ghost t = payloads_view(table@);
    let ghost before = strings_view(result@);
    let ghost noted = faults_view(incomplete@);
    let mut i: usize = 0;
    assert(before + family_blocks(t, kind, 0) =~= before);
    assert(noted + family_faults(t, kind, 0) =~= noted);
    while i < table.len()
        invariant
            i <= table.len(),
            t == payloads_view(table@),
            strings_view(result@) == before + family_blocks(t, kind, i as int),
            faults_view(incomplete@) == noted + family_faults(t, kind, i as int),
        decreases table.len() - i,
    {
        let p = &table[i];
        let is_kind = match kind {
            FamilyKind::Histogram => same_text(p.data_type.as_str(), "histogram"),
            FamilyKind::Summary => same_text(p.data_type.as_str(), "summary"),
        };
        if is_kind {
            let ghost held = strings_view(result@);
            let ghost faults = faults_view(incomplete@);
            let appended = match kind {
                FamilyKind::Histogram => append_histogram_result(
                    table,
                    p.metric_name.as_str(),
                    p.help.as_str(),
                    p.data_type.as_str(),
                    result,
                ),
                FamilyKind::Summary => append_summary_result(
                    table,
                    p.metric_name.as_str(),
                    p.help.as_str(),
                    p.data_type.as_str(),
                    result,
                ),
            };
            proof {
                let written = family(t, kind, p@.metric_name, p@.help, p@.data_type);
                if written is Ok {
                    assert(before + (family_blocks(t, kind, i as int) + written->Ok_0) =~= held
                        + written->Ok_0);
                }
            }
            if let Err(e) = appended {
                incomplete.push(e);
                proof {
                    assert(faults_view(incomplete@) =~= faults.push(e@));
                    assert(noted + family_faults(t, kind, i as int).push(e@) =~= faults.push(
                        e@,
                    ));
                }
            }
        }
        i += 1;
    }
}

/// Builds the exposition document for the given messages.
///
/// Metrics of the same name are merged across the messages, in the order of
/// the messages. Ordinary metrics come first, each with its type line, its
/// data lines and its help line; then the histograms and then the summaries,
/// each with its series in the fixed order. A histogram or summary that
/// lacks a series is left out and reported beside the document. Every
/// block ends with a line feed.
pub fn build_reply(metrics: &Vec<Message>) -> (reply: Reply)
    ensures
        reply.text@ == reply_text(messages_view(metrics@)),
        faults_view(reply.incomplete@) == reply_faults(
            merged(all_payloads(messages_view(metrics@))),
        ),
{
    let table = collect(metrics);
    let ghost t = payloads_view(table@);
    let mut result: Vec<String> = Vec::new();
    let mut i: usize = 0;
    assert(strings_view(result@) =~= Seq::<Seq<char>>::empty());
    while i < table.len()
        invariant
            i <= table.len(),
            t == payloads_view(table@),
            strings_view(result@) == ordinary_blocks(t, i as int),
        decreases table.len() - i,
    {
        let p = &table[i];
        let plain = !same_text(p.data_type.as_str(), "histogram") && !same_text(
            p.data_type.as_str(),
            "summary",
        ) && !(p.data_type.as_str().is_empty() && p.help.as_str().is_empty());
        if plain {
            let mut block = type_line_of(p.metric_name.as_str(), p.data_type.as_str());
            block.append("\n");
            block.append(join_strings(&p.data, "\n").as_str());
            block.append("\n");
            block.append(help_line_of(p.metric_name.as_str(), p.help.as_str()).as_str());
            let ghost held = strings_view(result@);
            result.push(block);
            assert(strings_view(result@) =~= held.push(ordinary_block(p@)));
        }
        i += 1;
    }
    let mut incomplete: Vec<IncompleteFamily> = Vec::new();
    assert(faults_view(incomplete@) =~= Seq::<IncompleteFamilyView>::empty());
    append_families(&table, FamilyKind::Histogram, &mut result, &mut incomplete);
    append_families(&table, FamilyKind::Summary, &mut result, &mut incomplete);
    let ghost blocks = strings_view(result@);
    result.push(String::new());
    assert(strings_view(result@) =~= blocks.push(Seq::empty()));
    Reply { text: join_strings(&result, "\n"), incomplete }
}

/// Builds the exposition document for the given messages, without saying
/// which families were left out.
pub fn build_reply_string(metrics: &Vec<Message>) -> (reply: String)
    ensures
        reply@ == reply_text(messages_view(metrics@)),
{
    build_reply(metrics).text
}

} // verus!
