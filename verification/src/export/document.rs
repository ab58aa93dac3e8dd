//! The document line by line: which lines a table of metrics is written as,
//! and what holds of them.

use vstd::prelude::*;
use crate::export::reply::{
    all_payloads, data_of, family, family_blocks, first_series, has_series, help_line, help_of,
    is_ordinary, kind_word, lemma_merged_collects, lemma_unmentioned_is_empty, mentions, merged,
    ordinary_block, ordinary_blocks, reply_blocks, reply_text, series_text, type_line, type_of,
    FamilyKind,
};
use crate::payload::{
    distinct_metrics, entry_index, lemma_entry_index_bounds, lemma_entry_is, MessageView,
    PayloadView,
};
use crate::text::{
    join, lemma_join_alike, lemma_join_concat, lemma_occurrences_concat, lemma_occurrences_none,
    occurrences,
};

verus! {

/// The lines that data lines are written as: the data lines themselves, or
/// one empty line where there is none.
pub open spec fn shown(data: Seq<Seq<char>>) -> Seq<Seq<char>> {
    if data.len() == 0 {
        seq![Seq::<char>::empty()]
    } else {
        data
    }
}

/// The lines that the series `name` of the table is written as.
pub open spec fn series_lines(table: Seq<PayloadView>, name: Seq<char>) -> Seq<Seq<char>> {
    shown(table[entry_index(table, name) as int].data)
}

/// The lines of an ordinary metric: type line, data lines, help line.
pub open spec fn ordinary_lines(p: PayloadView) -> Seq<Seq<char>> {
    seq![type_line(p.metric_name, p.data_type)] + shown(p.data) + seq![
        help_line(p.metric_name, p.help),
    ]
}

/// The lines of a histogram or summary: type line, the lines of its first
/// series, of its count and of its sum, help line.
pub open spec fn family_lines(table: Seq<PayloadView>, kind: FamilyKind, p: PayloadView) -> Seq<
    Seq<char>,
> {
    seq![type_line(p.metric_name, p.data_type)] + series_lines(
        table,
        first_series(kind, p.metric_name),
    ) + series_lines(table, p.metric_name + "_count"@) + series_lines(
        table,
        p.metric_name + "_sum"@,
    ) + seq![help_line(p.metric_name, p.help)]
}

/// Whether the entry is written as a family of the given kind: it declares
/// the kind as its type, and the table holds its three series.
pub open spec fn is_written_family(table: Seq<PayloadView>, kind: FamilyKind, p: PayloadView)
    -> bool {
    p.data_type == kind_word(kind) && family(table, kind, p.metric_name, p.help, p.data_type)
        is Ok
}

/// The lines of the ordinary metrics among the first `n` entries.
pub open spec fn ordinary_section(table: Seq<PayloadView>, n: int) -> Seq<Seq<char>>
    decreases n,
{
    if n <= 0 {
        Seq::empty()
    } else if is_ordinary(table[n - 1]) {
        ordinary_section(table, n - 1) + ordinary_lines(table[n - 1])
    } else {
        ordinary_section(table, n - 1)
    }
}

/// The lines of the complete families of one kind among the first `n` entries.
pub open spec fn family_section(table: Seq<PayloadView>, kind: FamilyKind, n: int) -> Seq<
    Seq<char>,
>
    decreases n,
{
    if n <= 0 {
        Seq::empty()
    } else if is_written_family(table, kind, table[n - 1]) {
        family_section(table, kind, n - 1) + family_lines(table, kind, table[n - 1])
    } else {
        family_section(table, kind, n - 1)
    }
}

/// All lines of the document for a table of metrics: the ordinary metrics,
/// then the histograms, then the summaries.
pub open spec fn reply_lines(table: Seq<PayloadView>) -> Seq<Seq<char>> {
    ordinary_section(table, table.len() as int) + family_section(
        table,
        FamilyKind::Histogram,
        table.len() as int,
    ) + family_section(table, FamilyKind::Summary, table.len() as int)
}

/// Data lines join to the same text as the lines they are written as.
proof fn lemma_shown(data: Seq<Seq<char>>, sep: Seq<char>)
    ensures
        join(shown(data), sep) == join(data, sep),
        shown(data).len() > 0,
{
}

/// The block of an ordinary metric is its lines joined.
proof fn lemma_ordinary_lines(p: PayloadView)
    ensures
        join(ordinary_lines(p), "\n"@) == ordinary_block(p),
        ordinary_lines(p).len() > 0,
{
    let sep = "\n"@;
    let head = seq![type_line(p.metric_name, p.data_type)];
    let tail = seq![help_line(p.metric_name, p.help)];
    lemma_shown(p.data, sep);
    lemma_join_concat(head, shown(p.data), sep);
    lemma_join_concat(head + shown(p.data), tail, sep);
    assert(join(head, sep) == head[0]);
    assert(join(tail, sep) == tail[0]);
}

/// The blocks of a family join to the same text as its lines.
proof fn lemma_family_lines(table: Seq<PayloadView>, kind: FamilyKind, p: PayloadView)
    requires
        family(table, kind, p.metric_name, p.help, p.data_type) is Ok,
    ensures
        join(family_lines(table, kind, p), "\n"@) == join(
            family(table, kind, p.metric_name, p.help, p.data_type)->Ok_0,
            "\n"@,
        ),
        family_lines(table, kind, p).len() > 0,
{
    let sep = "\n"@;
    let first = first_series(kind, p.metric_name);
    let count = p.metric_name + "_count"@;
    let sum = p.metric_name + "_sum"@;
    let head = seq![type_line(p.metric_name, p.data_type)];
    let tail = seq![help_line(p.metric_name, p.help)];
    let b1 = seq![series_text(table, first)];
    let b2 = seq![series_text(table, count)];
    let b3 = seq![series_text(table, sum)];
    let l1 = series_lines(table, first);
    let l2 = series_lines(table, count);
    let l3 = series_lines(table, sum);
    lemma_shown(table[entry_index(table, first) as int].data, sep);
    lemma_shown(table[entry_index(table, count) as int].data, sep);
    lemma_shown(table[entry_index(table, sum) as int].data, sep);
    assert(join(b1, sep) == b1[0]);
    assert(join(b2, sep) == b2[0]);
    assert(join(b3, sep) == b3[0]);
    lemma_join_alike(head, head, b1, l1, sep);
    lemma_join_alike(head + b1, head + l1, b2, l2, sep);
    lemma_join_alike(head + b1 + b2, head + l1 + l2, b3, l3, sep);
    lemma_join_alike(head + b1 + b2 + b3, head + l1 + l2 + l3, tail, tail, sep);
    assert(family(table, kind, p.metric_name, p.help, p.data_type)->Ok_0 =~= head + b1 + b2 + b3
        + tail);
}

/// The blocks of the ordinary metrics join to the same text as their lines.
proof fn lemma_ordinary_section(table: Seq<PayloadView>, n: int)
    ensures
        join(ordinary_section(table, n), "\n"@) == join(ordinary_blocks(table, n), "\n"@),
        (ordinary_section(table, n).len() == 0) == (ordinary_blocks(table, n).len() == 0),
    decreases n,
{
    if n > 0 {
        lemma_ordinary_section(table, n - 1);
        if is_ordinary(table[n - 1]) {
            let p = table[n - 1];
            let block = seq![ordinary_block(p)];
            lemma_ordinary_lines(p);
            assert(join(block, "\n"@) == block[0]);
            lemma_join_alike(
                ordinary_section(table, n - 1),
                ordinary_blocks(table, n - 1),
                ordinary_lines(p),
                block,
                "\n"@,
            );
            assert(ordinary_blocks(table, n) =~= ordinary_blocks(table, n - 1) + block);
        }
    }
}

/// The blocks of the families of one kind join to the same text as their lines.
proof fn lemma_family_section(table: Seq<PayloadView>, kind: FamilyKind, n: int)
    ensures
        join(family_section(table, kind, n), "\n"@) == join(family_blocks(table, kind, n), "\n"@),
        (family_section(table, kind, n).len() == 0) == (family_blocks(table, kind, n).len() == 0),
    decreases n,
{
    if n > 0 {
        lemma_family_section(table, kind, n - 1);
        let p = table[n - 1];
        if is_written_family(table, kind, p) {
            lemma_family_lines(table, kind, p);
            lemma_join_alike(
                family_section(table, kind, n - 1),
                family_blocks(table, kind, n - 1),
                family_lines(table, kind, p),
                family(table, kind, p.metric_name, p.help, p.data_type)->Ok_0,
                "\n"@,
            );
        }
    }
}

/// The document is its lines, each followed by a line feed.
pub proof fn lemma_document_is_its_lines(ms: Seq<MessageView>)
    ensures
        reply_text(ms) == join(
            reply_lines(merged(all_payloads(ms))).push(Seq::empty()),
            "\n"@,
        ),
{
    let table = merged(all_payloads(ms));
    let n = table.len() as int;
    let sep = "\n"@;
    let last = seq![Seq::<char>::empty()];
    lemma_ordinary_section(table, n);
    lemma_family_section(table, FamilyKind::Histogram, n);
    lemma_family_section(table, FamilyKind::Summary, n);
    lemma_join_alike(
        ordinary_section(table, n),
        ordinary_blocks(table, n),
        family_section(table, FamilyKind::Histogram, n),
        family_blocks(table, FamilyKind::Histogram, n),
        sep,
    );
    lemma_join_alike(
        ordinary_section(table, n) + family_section(table, FamilyKind::Histogram, n),
        ordinary_blocks(table, n) + family_blocks(table, FamilyKind::Histogram, n),
        family_section(table, FamilyKind::Summary, n),
        family_blocks(table, FamilyKind::Summary, n),
        sep,
    );
    lemma_join_alike(reply_lines(table), reply_blocks(table), last, last, sep);
    assert(reply_lines(table).push(Seq::empty()) =~= reply_lines(table) + last);
    assert(reply_blocks(table).push(Seq::empty()) =~= reply_blocks(table) + last);
}

/// The lines written for the first entries stay as written when more
/// entries are taken in.
proof fn lemma_family_section_grows(table: Seq<PayloadView>, kind: FamilyKind, m: int, n: int)
    requires
        0 <= m <= n,
    ensures
        family_section(table, kind, m).is_prefix_of(family_section(table, kind, n)),
    decreases n - m,
{
    let first = family_section(table, kind, m);
    if m < n {
        lemma_family_section_grows(table, kind, m, n - 1);
        let shorter = family_section(table, kind, n - 1);
        let longer = family_section(table, kind, n);
        assert(longer.subrange(0, shorter.len() as int) =~= shorter);
        assert(longer.subrange(0, first.len() as int) =~= shorter.subrange(
            0,
            first.len() as int,
        ));
    } else {
        assert(first.subrange(0, first.len() as int) =~= first);
    }
}

/// The lines of a family stand together. A histogram or summary with all
/// its series is written as one run of lines: its type line, directly
/// followed by all lines of its first series, directly followed by all
/// lines of its count, directly followed by all lines of its sum, directly
/// followed by its help line.
pub proof fn lemma_family_lines_stand_together(
    table: Seq<PayloadView>,
    kind: FamilyKind,
    i: int,
)
    requires
        0 <= i < table.len(),
        is_written_family(table, kind, table[i]),
    ensures
        exists|k: int|
            0 <= k && k + family_lines(table, kind, table[i]).len() <= reply_lines(table).len()
                && #[trigger] reply_lines(table).subrange(
                k,
                k + family_lines(table, kind, table[i]).len(),
            ) == family_lines(table, kind, table[i]),
{
    let n = table.len() as int;
    let run = family_lines(table, kind, table[i]);
    let section = family_section(table, kind, n);
    let before = family_section(table, kind, i);
    let with = family_section(table, kind, i + 1);
    lemma_family_section_grows(table, kind, i + 1, n);
    assert(with == before + run);
    assert(section.subrange(0, with.len() as int) == with);
    let ahead = match kind {
        FamilyKind::Histogram => ordinary_section(table, n),
        FamilyKind::Summary => ordinary_section(table, n) + family_section(
            table,
            FamilyKind::Histogram,
            n,
        ),
    };
    let k = (ahead.len() + before.len()) as int;
    let lines = reply_lines(table);
    assert(k + run.len() <= lines.len());
    assert forall|j: int| 0 <= j < run.len() implies lines.subrange(k, k + run.len() as int)[j]
        == run[j] by {
        assert(lines[k + j] == section[before.len() + j]);
        assert(section.subrange(0, with.len() as int)[before.len() + j] == with[before.len() + j]);
    }
    assert(lines.subrange(k, k + run.len() as int) =~= run);
}

/// A type line is never a help line.
proof fn lemma_type_is_not_help(n: Seq<char>, t: Seq<char>, m: Seq<char>, h: Seq<char>)
    ensures
        type_line(n, t) != help_line(m, h),
        type_line(n, t).len() > 0,
        help_line(m, h).len() > 0,
{
    reveal_strlit("# TYPE ");
    reveal_strlit("# HELP ");
    assert(type_line(n, t)[2] == 'T');
    assert(help_line(m, h)[2] == 'H');
}

/// Two texts of two parts with a space between are the same only part by
/// part, where the first space tells the parts of both.
proof fn lemma_split_at_space(a: Seq<char>, b: Seq<char>, c: Seq<char>, d: Seq<char>)
    requires
        a + " "@ + b == c + " "@ + d,
        !c.contains(' '),
        !a.contains(' ') || !d.contains(' '),
    ensures
        a == c,
        b == d,
{
    reveal_strlit(" ");
    let left = a + " "@ + b;
    let right = c + " "@ + d;
    assert(left.len() == a.len() + 1 + b.len());
    assert(right.len() == c.len() + 1 + d.len());
    if a.len() < c.len() {
        assert(left[a.len() as int] == ' ');
        assert(right[a.len() as int] == c[a.len() as int]);
        assert(c.contains(' '));
    } else if a.len() > c.len() {
        assert(right[c.len() as int] == ' ');
        assert(left[c.len() as int] == a[c.len() as int]);
        assert(a.contains(' '));
        assert(left[a.len() as int] == ' ');
        assert(right[a.len() as int] == d[a.len() - c.len() - 1]);
        assert(d.contains(' '));
    } else {
        assert forall|j: int| 0 <= j < a.len() implies a[j] == c[j] by {
            assert(left[j] == a[j]);
            assert(right[j] == c[j]);
        }
        assert(a =~= c);
        assert forall|j: int| 0 <= j < b.len() implies b[j] == d[j] by {
            assert(left[a.len() + 1 + j] == b[j]);
            assert(right[a.len() + 1 + j] == d[j]);
        }
        assert(b =~= d);
    }
}

/// A type line tells the name and the type, where the one name is known to
/// hold no space and the one type neither.
proof fn lemma_type_line_tells(n: Seq<char>, t: Seq<char>, name: Seq<char>, word: Seq<char>)
    requires
        type_line(n, t) == type_line(name, word),
        !name.contains(' '),
        !word.contains(' '),
    ensures
        n == name,
        t == word,
{
    let head = "# TYPE "@;
    let left = n + " "@ + t;
    let right = name + " "@ + word;
    assert(type_line(n, t) =~= head + left);
    assert(type_line(name, word) =~= head + right);
    assert(left =~= (head + left).skip(head.len() as int));
    assert(right =~= (head + right).skip(head.len() as int));
    lemma_split_at_space(n, t, name, word);
}

/// A help line tells the name and the help, where neither name holds a space.
proof fn lemma_help_line_tells(n: Seq<char>, h: Seq<char>, name: Seq<char>, help: Seq<char>)
    requires
        help_line(n, h) == help_line(name, help),
        !name.contains(' '),
        !n.contains(' '),
    ensures
        n == name,
        h == help,
{
    let head = "# HELP "@;
    let left = n + " "@ + h;
    let right = name + " "@ + help;
    assert(help_line(n, h) =~= head + left);
    assert(help_line(name, help) =~= head + right);
    assert(left =~= (head + left).skip(head.len() as int));
    assert(right =~= (head + right).skip(head.len() as int));
    lemma_split_at_space(n, h, name, help);
}

/// The words that mark the kinds hold no space and differ.
proof fn lemma_kind_words(kind: FamilyKind)
    ensures
        !kind_word(kind).contains(' '),
        kind_word(FamilyKind::Histogram) != kind_word(FamilyKind::Summary),
        kind_word(kind).len() > 0,
{
    reveal_strlit("histogram");
    reveal_strlit("summary");
    let w = kind_word(kind);
    assert("histogram"@.len() == 9);
    assert("summary"@.len() == 7);
    if w.contains(' ') {
        let i = choose|i: int| 0 <= i < w.len() && w[i] == ' ';
        match kind {
            FamilyKind::Histogram => {
                assert("histogram"@[0] == 'h' && "histogram"@[1] == 'i' && "histogram"@[2] == 's'
                    && "histogram"@[3] == 't' && "histogram"@[4] == 'o' && "histogram"@[5] == 'g'
                    && "histogram"@[6] == 'r' && "histogram"@[7] == 'a' && "histogram"@[8]
                    == 'm');
            },
            FamilyKind::Summary => {
                assert("summary"@[0] == 's' && "summary"@[1] == 'u' && "summary"@[2] == 'm'
                    && "summary"@[3] == 'm' && "summary"@[4] == 'a' && "summary"@[5] == 'r'
                    && "summary"@[6] == 'y');
            },
        }
    }
}

/// No data line of the table is the line `x`.
pub open spec fn no_data_line_is(table: Seq<PayloadView>, x: Seq<char>) -> bool {
    forall|k: int, l: int|
        0 <= k < table.len() && 0 <= l < table[k].data.len() ==> #[trigger] table[k].data[l] != x
}

/// Among the lines that data lines are written as, a line that is none of
/// them and is not empty does not occur.
proof fn lemma_shown_differs(data: Seq<Seq<char>>, x: Seq<char>)
    requires
        x.len() > 0,
        forall|l: int| 0 <= l < data.len() ==> data[l] != x,
    ensures
        occurrences(shown(data), x) == 0,
{
    lemma_occurrences_none(shown(data), x);
}

/// How often a line occurs among the lines of one written entry, where no
/// data line is that line: once where it is the type line or the help line
/// of the entry, else not at all.
proof fn lemma_count_entry(
    head: Seq<char>,
    middle: Seq<Seq<char>>,
    tail: Seq<char>,
    x: Seq<char>,
)
    requires
        occurrences(middle, x) == 0,
        head != tail,
    ensures
        occurrences(seq![head] + middle + seq![tail], x) == if head == x || tail == x {
            1nat
        } else {
            0nat
        },
{
    lemma_occurrences_concat(seq![head] + middle, seq![tail], x);
    lemma_occurrences_concat(seq![head], middle, x);
    assert(seq![head].drop_last() =~= Seq::<Seq<char>>::empty());
    assert(seq![tail].drop_last() =~= Seq::<Seq<char>>::empty());
    assert(seq![head].last() == head);
    assert(seq![tail].last() == tail);
    assert(occurrences(Seq::<Seq<char>>::empty(), x) == 0);
    assert(occurrences(seq![head], x) == if head == x {
        1nat
    } else {
        0nat
    });
    assert(occurrences(seq![tail], x) == if tail == x {
        1nat
    } else {
        0nat
    });
}

/// What is assumed of a line `x` to count it: it is not empty, no data line
/// is `x`, no ordinary metric has it as type line or help line, and among
/// the families only the entry `i`, of the kind `kind`, has it as type line
/// or help line.
spec fn only_of(table: Seq<PayloadView>, kind: FamilyKind, i: int, x: Seq<char>) -> bool {
    &&& x.len() > 0
    &&& no_data_line_is(table, x)
    &&& 0 <= i < table.len()
    &&& is_written_family(table, kind, table[i])
    &&& type_line(table[i].metric_name, table[i].data_type) == x || help_line(
        table[i].metric_name,
        table[i].help,
    ) == x
    &&& forall|j: int|
        0 <= j < table.len() && is_ordinary(#[trigger] table[j]) ==> type_line(
            table[j].metric_name,
            table[j].data_type,
        ) != x && help_line(table[j].metric_name, table[j].help) != x
    &&& forall|j: int, other: FamilyKind|
        0 <= j < table.len() && #[trigger] is_written_family(table, other, table[j]) && !(j == i
            && other == kind) ==> type_line(table[j].metric_name, table[j].data_type) != x
            && help_line(table[j].metric_name, table[j].help) != x
}

/// Such a line does not occur among the lines of the ordinary metrics.
proof fn lemma_count_ordinary_section(
    table: Seq<PayloadView>,
    kind: FamilyKind,
    i: int,
    x: Seq<char>,
    n: int,
)
    requires
        only_of(table, kind, i, x),
        n <= table.len(),
    ensures
        occurrences(ordinary_section(table, n), x) == 0,
    decreases n,
{
    if n > 0 {
        lemma_count_ordinary_section(table, kind, i, x, n - 1);
        let p = table[n - 1];
        if is_ordinary(p) {
            assert forall|l: int| 0 <= l < p.data.len() implies p.data[l] != x by {
                assert(table[n - 1].data[l] != x);
            }
            lemma_shown_differs(p.data, x);
            lemma_type_is_not_help(p.metric_name, p.data_type, p.metric_name, p.help);
            lemma_count_entry(
                type_line(p.metric_name, p.data_type),
                shown(p.data),
                help_line(p.metric_name, p.help),
                x,
            );
            lemma_occurrences_concat(ordinary_section(table, n - 1), ordinary_lines(p), x);
        }
    }
}

/// Such a line does not occur among the lines of a series.
proof fn lemma_count_series(table: Seq<PayloadView>, name: Seq<char>, x: Seq<char>)
    requires
        x.len() > 0,
        no_data_line_is(table, x),
        has_series(table, name),
    ensures
        occurrences(series_lines(table, name), x) == 0,
{
    let k = entry_index(table, name) as int;
    assert forall|l: int| 0 <= l < table[k].data.len() implies table[k].data[l] != x by {
        assert(table[k].data[l] != x);
    }
    lemma_shown_differs(table[k].data, x);
}

/// Such a line occurs once among the lines of the families of the kind of
/// its entry, once the entry is among them, and not at all among those of
/// the other kind.
proof fn lemma_count_family_section(
    table: Seq<PayloadView>,
    kind: FamilyKind,
    i: int,
    x: Seq<char>,
    other: FamilyKind,
    n: int,
)
    requires
        only_of(table, kind, i, x),
        n <= table.len(),
    ensures
        occurrences(family_section(table, other, n), x) == if other == kind && i < n {
            1nat
        } else {
            0nat
        },
    decreases n,
{
    if n > 0 {
        lemma_count_family_section(table, kind, i, x, other, n - 1);
        let p = table[n - 1];
        if is_written_family(table, other, p) {
            let first = first_series(other, p.metric_name);
            let count = p.metric_name + "_count"@;
            let sum = p.metric_name + "_sum"@;
            lemma_count_series(table, first, x);
            lemma_count_series(table, count, x);
            lemma_count_series(table, sum, x);
            let middle = series_lines(table, first) + series_lines(table, count) + series_lines(
                table,
                sum,
            );
            lemma_occurrences_concat(series_lines(table, first), series_lines(table, count), x);
            lemma_occurrences_concat(
                series_lines(table, first) + series_lines(table, count),
                series_lines(table, sum),
                x,
            );
            lemma_type_is_not_help(p.metric_name, p.data_type, p.metric_name, p.help);
            lemma_count_entry(
                type_line(p.metric_name, p.data_type),
                middle,
                help_line(p.metric_name, p.help),
                x,
            );
            assert(family_lines(table, other, p) =~= seq![type_line(p.metric_name, p.data_type)]
                + middle + seq![help_line(p.metric_name, p.help)]);
            lemma_occurrences_concat(
                family_section(table, other, n - 1),
                family_lines(table, other, p),
                x,
            );
            if n - 1 == i && other == kind {
            } else {
                assert(is_written_family(table, other, table[n - 1]));
            }
        } else {
            if n - 1 == i && other == kind {
                assert(false);
            }
        }
    }
}

/// Such a line occurs exactly once among the lines of the document.
proof fn lemma_count_lines(table: Seq<PayloadView>, kind: FamilyKind, i: int, x: Seq<char>)
    requires
        only_of(table, kind, i, x),
    ensures
        occurrences(reply_lines(table), x) == 1,
{
    let n = table.len() as int;
    lemma_count_ordinary_section(table, kind, i, x, n);
    lemma_count_family_section(table, kind, i, x, FamilyKind::Histogram, n);
    lemma_count_family_section(table, kind, i, x, FamilyKind::Summary, n);
    lemma_occurrences_concat(
        ordinary_section(table, n),
        family_section(table, FamilyKind::Histogram, n),
        x,
    );
    lemma_occurrences_concat(
        ordinary_section(table, n) + family_section(table, FamilyKind::Histogram, n),
        family_section(table, FamilyKind::Summary, n),
        x,
    );
}

/// The type line of a family stands once. Where no metric has two entries,
/// exactly one line of the document is the type line of a histogram or
/// summary that is written, however many entries and lines the table holds.
/// Left out are a name with a space in it, which another name and type may
/// spell alike, and tables in which a data line spells the type line.
pub proof fn lemma_type_line_stands_once(table: Seq<PayloadView>, kind: FamilyKind, i: int)
    requires
        distinct_metrics(table),
        0 <= i < table.len(),
        is_written_family(table, kind, table[i]),
        !table[i].metric_name.contains(' '),
        no_data_line_is(table, type_line(table[i].metric_name, kind_word(kind))),
    ensures
        occurrences(reply_lines(table), type_line(table[i].metric_name, kind_word(kind))) == 1,
{
    let name = table[i].metric_name;
    let x = type_line(name, kind_word(kind));
    lemma_kind_words(kind);
    lemma_type_is_not_help(name, kind_word(kind), name, table[i].help);
    assert forall|j: int| 0 <= j < table.len() && is_ordinary(#[trigger] table[j]) implies type_line(
        table[j].metric_name,
        table[j].data_type,
    ) != x && help_line(table[j].metric_name, table[j].help) != x by {
        lemma_type_is_not_help(name, kind_word(kind), table[j].metric_name, table[j].help);
        if type_line(table[j].metric_name, table[j].data_type) == x {
            lemma_type_line_tells(table[j].metric_name, table[j].data_type, name, kind_word(kind));
        }
    }
    assert forall|j: int, other: FamilyKind|
        0 <= j < table.len() && #[trigger] is_written_family(table, other, table[j]) && !(j == i
            && other == kind) implies type_line(table[j].metric_name, table[j].data_type) != x
        && help_line(table[j].metric_name, table[j].help) != x by {
        lemma_type_is_not_help(name, kind_word(kind), table[j].metric_name, table[j].help);
        if type_line(table[j].metric_name, table[j].data_type) == x {
            lemma_type_line_tells(table[j].metric_name, table[j].data_type, name, kind_word(kind));
            if j < i {
                assert(table[j].metric_name != table[i].metric_name);
            } else if i < j {
                assert(table[i].metric_name != table[j].metric_name);
            }
        }
    }
    lemma_count_lines(table, kind, i, x);
}

/// The help line of a family stands once. Where no metric has two entries
/// and no name holds a space, exactly one line of the document is the help
/// line of a histogram or summary that is written. Left out are tables in
/// which a data line spells the help line.
pub proof fn lemma_help_line_stands_once(table: Seq<PayloadView>, kind: FamilyKind, i: int)
    requires
        distinct_metrics(table),
        0 <= i < table.len(),
        is_written_family(table, kind, table[i]),
        forall|j: int| 0 <= j < table.len() ==> !(#[trigger] table[j]).metric_name.contains(' '),
        no_data_line_is(table, help_line(table[i].metric_name, table[i].help)),
    ensures
        occurrences(reply_lines(table), help_line(table[i].metric_name, table[i].help)) == 1,
{
    let name = table[i].metric_name;
    let x = help_line(name, table[i].help);
    lemma_kind_words(kind);
    lemma_kind_words(FamilyKind::Histogram);
    lemma_kind_words(FamilyKind::Summary);
    lemma_type_is_not_help(name, kind_word(kind), name, table[i].help);
    assert(!table[i].metric_name.contains(' '));
    assert forall|j: int| 0 <= j < table.len() implies (help_line(
        (#[trigger] table[j]).metric_name,
        table[j].help,
    ) == x ==> j == i) && type_line(table[j].metric_name, table[j].data_type) != x by {
        lemma_type_is_not_help(table[j].metric_name, table[j].data_type, name, table[i].help);
        if help_line(table[j].metric_name, table[j].help) == x {
            assert(!table[j].metric_name.contains(' '));
            lemma_help_line_tells(table[j].metric_name, table[j].help, name, table[i].help);
            if j < i {
                assert(table[j].metric_name != table[i].metric_name);
            } else if i < j {
                assert(table[i].metric_name != table[j].metric_name);
            }
        }
    }
    reveal_strlit("histogram");
    reveal_strlit("summary");
    assert(!is_ordinary(table[i]));
    assert forall|j: int, other: FamilyKind|
        0 <= j < table.len() && #[trigger] is_written_family(table, other, table[j]) && !(j == i
            && other == kind) implies type_line(table[j].metric_name, table[j].data_type) != x
        && help_line(table[j].metric_name, table[j].help) != x by {
        assert(help_line(table[j].metric_name, table[j].help) == x ==> j == i);
    }
    lemma_count_lines(table, kind, i, x);
}

/// No data line of the payloads is the line `x`.
pub open spec fn no_payload_line_is(flat: Seq<PayloadView>, x: Seq<char>) -> bool {
    forall|k: int, l: int|
        0 <= k < flat.len() && 0 <= l < flat[k].data.len() ==> #[trigger] flat[k].data[l] != x
}

/// The data lines gathered for a metric are data lines of the payloads.
proof fn lemma_data_of_lines(flat: Seq<PayloadView>, name: Seq<char>, x: Seq<char>, l: int)
    requires
        no_payload_line_is(flat, x),
        0 <= l < data_of(flat, name).len(),
    ensures
        data_of(flat, name)[l] != x,
    decreases flat.len(),
{
    let rest = flat.drop_last();
    assert forall|k: int, m: int|
        0 <= k < rest.len() && 0 <= m < rest[k].data.len() implies #[trigger] rest[k].data[m]
        != x by {
        assert(flat[k].data[m] != x);
    }
    if flat.last().metric_name == name {
        if l < data_of(rest, name).len() {
            lemma_data_of_lines(rest, name, x, l);
        } else {
            assert(data_of(flat, name)[l] == flat[flat.len() - 1].data[l - data_of(
                rest,
                name,
            ).len()]);
        }
    } else {
        lemma_data_of_lines(rest, name, x, l);
    }
}

/// The lines that a family is to be written as, from what the payloads hold
/// for it and for its three series.
pub open spec fn family_run(flat: Seq<PayloadView>, kind: FamilyKind, name: Seq<char>) -> Seq<
    Seq<char>,
> {
    seq![type_line(name, kind_word(kind))] + shown(data_of(flat, first_series(kind, name)))
        + shown(data_of(flat, name + "_count"@)) + shown(data_of(flat, name + "_sum"@)) + seq![
        help_line(name, help_of(flat, name)),
    ]
}

/// A histogram or summary is reconstructed whatever the number and the
/// order of the sources and payloads that contribute to it.
///
/// Let the first type that the payloads declare for `name` be `histogram`
/// or `summary`, and let the payloads mention its first series, its count
/// and its sum. Then the lines of the document hold one run that is the
/// type line of `name`, directly followed by all data lines that the
/// payloads hold for the first series, in order, then all those for the
/// count, then all those for the sum, and then the help line with the first
/// help text given for `name`. A series without data lines is written as one
/// empty line. And the type line stands exactly once among all lines.
///
/// Left out are a name with a space in it and payloads in which a data line
/// spells the type line: there a second line may read the same.
pub proof fn lemma_family_is_reconstructed(ms: Seq<MessageView>, kind: FamilyKind, name: Seq<char>)
    requires
        type_of(all_payloads(ms), name) == kind_word(kind),
        mentions(all_payloads(ms), first_series(kind, name)),
        mentions(all_payloads(ms), name + "_count"@),
        mentions(all_payloads(ms), name + "_sum"@),
        !name.contains(' '),
        no_payload_line_is(all_payloads(ms), type_line(name, kind_word(kind))),
    ensures
        occurrences(
            reply_lines(merged(all_payloads(ms))),
            type_line(name, kind_word(kind)),
        ) == 1,
        exists|k: int|
            0 <= k && #[trigger] reply_lines(merged(all_payloads(ms))).subrange(
                k,
                k + family_run(all_payloads(ms), kind, name).len(),
            ) == family_run(all_payloads(ms), kind, name),
{
    let flat = all_payloads(ms);
    let table = merged(flat);
    let x = type_line(name, kind_word(kind));
    let first = first_series(kind, name);
    let count = name + "_count"@;
    let sum = name + "_sum"@;
    lemma_kind_words(kind);
    if !mentions(flat, name) {
        lemma_unmentioned_is_empty(flat, name);
    }
    lemma_merged_collects(flat, name);
    lemma_merged_collects(flat, first);
    lemma_merged_collects(flat, count);
    lemma_merged_collects(flat, sum);
    lemma_entry_index_bounds(table, name);
    let i = entry_index(table, name) as int;
    assert(is_written_family(table, kind, table[i]));
    assert forall|k: int, l: int|
        0 <= k < table.len() && 0 <= l < table[k].data.len() implies #[trigger] table[k].data[l]
        != x by {
        lemma_merged_collects(flat, table[k].metric_name);
        lemma_entry_is(table, table[k].metric_name, k);
        lemma_data_of_lines(flat, table[k].metric_name, x, l);
    }
    lemma_type_line_stands_once(table, kind, i);
    lemma_family_lines_stand_together(table, kind, i);
    assert(family_lines(table, kind, table[i]) == family_run(flat, kind, name));
}

/// The help line of a family stands once. Under what
/// [`lemma_family_is_reconstructed`] asks, and where no payload is for a
/// name with a space in it, exactly one line of the document is the help
/// line of the family. Left out are payloads in which a data line spells
/// the help line.
pub proof fn lemma_family_help_stands_once(ms: Seq<MessageView>, kind: FamilyKind, name: Seq<char>)
    requires
        type_of(all_payloads(ms), name) == kind_word(kind),
        mentions(all_payloads(ms), first_series(kind, name)),
        mentions(all_payloads(ms), name + "_count"@),
        mentions(all_payloads(ms), name + "_sum"@),
        forall|k: int|
            0 <= k < all_payloads(ms).len() ==> !(#[trigger] all_payloads(
                ms,
            )[k]).metric_name.contains(' '),
        no_payload_line_is(
            all_payloads(ms),
            help_line(name, help_of(all_payloads(ms), name)),
        ),
    ensures
        occurrences(
            reply_lines(merged(all_payloads(ms))),
            help_line(name, help_of(all_payloads(ms), name)),
        ) == 1,
{
    let flat = all_payloads(ms);
    let table = merged(flat);
    let x = help_line(name, help_of(flat, name));
    lemma_kind_words(kind);
    if !mentions(flat, name) {
        lemma_unmentioned_is_empty(flat, name);
    }
    lemma_merged_collects(flat, name);
    lemma_merged_collects(flat, first_series(kind, name));
    lemma_merged_collects(flat, name + "_count"@);
    lemma_merged_collects(flat, name + "_sum"@);
    lemma_entry_index_bounds(table, name);
    let i = entry_index(table, name) as int;
    assert(is_written_family(table, kind, table[i]));
    assert forall|k: int, l: int|
        0 <= k < table.len() && 0 <= l < table[k].data.len() implies #[trigger] table[k].data[l]
        != x by {
        lemma_merged_collects(flat, table[k].metric_name);
        lemma_entry_is(table, table[k].metric_name, k);
        lemma_data_of_lines(flat, table[k].metric_name, x, l);
    }
    assert forall|j: int| 0 <= j < table.len() implies !(#[trigger] table[j]).metric_name.contains(
        ' ',
    ) by {
        lemma_merged_collects(flat, table[j].metric_name);
        lemma_entry_is(table, table[j].metric_name, j);
        let k = choose|k: int|
            0 <= k < flat.len() && #[trigger] flat[k].metric_name == table[j].metric_name;
        assert(!flat[k].metric_name.contains(' '));
    }
    lemma_help_line_stands_once(table, kind, i);
}

/// A series without type and help gets no block of its own: nothing is
/// written for its entry, so its lines stand only where a family takes
/// them in.
pub proof fn lemma_bare_series_has_no_block(table: Seq<PayloadView>, j: int)
    requires
        0 <= j < table.len(),
        table[j].data_type.len() == 0,
        table[j].help.len() == 0,
    ensures
        ordinary_section(table, j + 1) == ordinary_section(table, j),
        family_section(table, FamilyKind::Histogram, j + 1) == family_section(
            table,
            FamilyKind::Histogram,
            j,
        ),
        family_section(table, FamilyKind::Summary, j + 1) == family_section(
            table,
            FamilyKind::Summary,
            j,
        ),
{
    lemma_kind_words(FamilyKind::Histogram);
    lemma_kind_words(FamilyKind::Summary);
}

} // verus!
