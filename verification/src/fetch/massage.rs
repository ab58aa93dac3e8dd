//! Turning scraped exposition text into a message.

use vstd::prelude::*;
use vstd::string::*;
use crate::labels::{LabelView, Labels};
use crate::payload::{
    distinct_metrics, entry_index, lemma_entry_index_bounds, lemma_entry_index_is,
    payloads_view, Message, MessageView, Payload, PayloadView,
};
use crate::text::{
    chars_of, equals_str, fields, fields_of, has_char, join, join_from, join_strings,
    lemma_position_bounds, lines, lines_of, position, position_of, string_of, strings_view,
    subvec, trim, trim_of, vecs_view,
};

verus! {

/// Why a scrape could not be parsed.
#[derive(Debug)]
pub enum MalformedLine {
    /// A `#` line with fewer than four fields; holds the line as it was received.
    TooFewFields(String),
    /// A `#` line whose second field is neither `HELP` nor `TYPE`; holds that field.
    InvalidType(String),
}

/// Mathematical value of a [`MalformedLine`].
pub enum MalformedLineView {
    TooFewFields(Seq<char>),
    InvalidType(Seq<char>),
}

impl View for MalformedLine {
    type V = MalformedLineView;

    open spec fn view(&self) -> MalformedLineView {
        match self {
            MalformedLine::TooFewFields(line) => MalformedLineView::TooFewFields(line@),
            MalformedLine::InvalidType(kind) => MalformedLineView::InvalidType(kind@),
        }
    }
}

impl MalformedLine {
    /// The text of the error.
    pub open spec fn message_text(e: MalformedLineView) -> Seq<char> {
        match e {
            MalformedLineView::TooFewFields(line) => {
                "malformed Prometheus metric line: too few fields in \""@ + line + "\""@
            },
            MalformedLineView::InvalidType(kind) => {
                "malformed Prometheus metric line: invalid type "@ + kind
            },
        }
    }

    /// Renders the error for a log line.
    pub fn message(&self) -> (s: String)
        ensures
            s@ == Self::message_text(self@),
    {
        match self {
            MalformedLine::TooFewFields(line) => {
                let mut s = String::from_str("malformed Prometheus metric line: too few fields in \"");
                s.append(line.as_str());
                s.append("\"");
                s
            },
            MalformedLine::InvalidType(kind) => {
                let mut s = String::from_str("malformed Prometheus metric line: invalid type ");
                s.append(kind.as_str());
                s
            },
        }
    }
}

/// One label as it stands in a label block: `name="value"`.
pub open spec fn label_text(l: LabelView) -> Seq<char> {
    l.name + "=\""@ + l.value + "\""@
}

/// The labels in order, each as it stands in a label block.
pub open spec fn flat_labels(ls: Seq<LabelView>) -> Seq<Seq<char>> {
    ls.map_values(|l: LabelView| label_text(l))
}

/// A data line with the labels put in. With no labels the line is unchanged.
/// Where the line has a label block, the labels go directly behind its
/// opening brace, followed by a comma. Where it has none, a block that holds
/// the labels goes between the name and the value, which the first space
/// parts; a line without a space is all name.
pub open spec fn labelled(line: Seq<char>, ls: Seq<LabelView>) -> Seq<char> {
    let flat = join(flat_labels(ls), ","@);
    let brace = position(line, '{') as int;
    let space = position(line, ' ') as int;
    if ls.len() == 0 {
        line
    } else if brace < line.len() {
        line.take(brace) + "{"@ + flat + ","@ + line.skip(brace + 1)
    } else if space < line.len() {
        line.take(space) + "{"@ + flat + "} "@ + line.skip(space + 1)
    } else {
        line + "{"@ + flat + "} "@
    }
}

/// Renders each label as `name="value"`, in insertion order.
pub fn flatten_label_map(l: &Labels) -> (result: Vec<String>)
    ensures
        strings_view(result@) == flat_labels(l@),
{
    let mut result: Vec<String> = Vec::new();
    let mut i: usize = 0;
    while i < l.len()
        invariant
            i <= l@.len(),
            strings_view(result@) == flat_labels(l@.take(i as int)),
        decreases l@.len() - i,
    {
        let label = l.get(i);
        let mut text = label.name.clone();
        text.append("=\"");
        text.append(label.value.as_str());
        text.append("\"");
        let ghost before = strings_view(result@);
        result.push(text);
        proof {
            assert(strings_view(result@) =~= before.push(text@));
            assert(flat_labels(l@.take(i + 1)) =~= flat_labels(l@.take(i as int)).push(
                label_text(l@[i as int]),
            ));
        }
        i += 1;
    }
    assert(l@.take(l@.len() as int) =~= l@);
    result
}

/// Puts the labels on one data line.
pub fn add_labels(data: &str, l: &Labels) -> (result: String)
    ensures
        result@ == labelled(data@, l@),
{
    if l.is_empty() {
        return String::from_str(data);
    }
    let flat = join_strings(&flatten_label_map(l), ",");
    let line = chars_of(data);
    let n = line.len();
    let brace = position_of(&line, '{');
    let space = position_of(&line, ' ');
    if brace < n {
        let mut result = string_of(&subvec(&line, 0, brace));
        let rest = string_of(&subvec(&line, brace + 1, n));
        result.append("{");
        result.append(flat.as_str());
        result.append(",");
        result.append(rest.as_str());
        result
    } else if space < n {
        let mut result = string_of(&subvec(&line, 0, space));
        let rest = string_of(&subvec(&line, space + 1, n));
        result.append("{");
        result.append(flat.as_str());
        result.append("} ");
        result.append(rest.as_str());
        result
    } else {
        let mut result = String::from_str(data);
        result.append("{");
        result.append(flat.as_str());
        result.append("} ");
        result
    }
}

/// The metric that a data line belongs to: what stands before its first
/// `{`, or before its first space where it has no `{`.
pub open spec fn metric_name_of(line: Seq<char>) -> Seq<char> {
    if has_char(line, '{') {
        line.take(position(line, '{') as int)
    } else {
        line.take(position(line, ' ') as int)
    }
}

/// A fresh entry for the metric `name`.
pub open spec fn named_payload(name: Seq<char>) -> PayloadView {
    PayloadView {
        data: Seq::empty(),
        data_type: Seq::empty(),
        help: Seq::empty(),
        metric_name: name,
    }
}

/// `acc` with an entry for `name`: unchanged where it has one, with a fresh
/// one at the end where it has none.
pub open spec fn with_entry(acc: Seq<PayloadView>, name: Seq<char>) -> Seq<PayloadView> {
    if entry_index(acc, name) < acc.len() {
        acc
    } else {
        acc.push(named_payload(name))
    }
}

/// `acc` after a `HELP` line for `name`.
pub open spec fn with_help(acc: Seq<PayloadView>, name: Seq<char>, text: Seq<char>) -> Seq<
    PayloadView,
> {
    let a = with_entry(acc, name);
    let i = entry_index(acc, name) as int;
    a.update(i, PayloadView { help: text, ..a[i] })
}

/// `acc` after a `TYPE` line for `name`.
pub open spec fn with_type(acc: Seq<PayloadView>, name: Seq<char>, text: Seq<char>) -> Seq<
    PayloadView,
> {
    let a = with_entry(acc, name);
    let i = entry_index(acc, name) as int;
    a.update(i, PayloadView { data_type: text, ..a[i] })
}

/// `acc` after a data line for `name`.
pub open spec fn with_data(acc: Seq<PayloadView>, name: Seq<char>, line: Seq<char>) -> Seq<
    PayloadView,
> {
    let a = with_entry(acc, name);
    let i = entry_index(acc, name) as int;
    a.update(i, PayloadView { data: a[i].data.push(line), ..a[i] })
}

/// What one line of a scrape does to the entries gathered so far.
///
/// The line is trimmed first. A blank line changes nothing. A line that
/// starts with `#` must have at least four fields, the second of them `HELP`
/// or `TYPE`; the third names the metric and the rest, joined by single
/// spaces, is its help text or its type. Any other line is a data line of
/// the metric it names, and is kept with the labels put in.
pub open spec fn parse_line(acc: Seq<PayloadView>, raw_line: Seq<char>, labels: Seq<LabelView>)
    -> Result<Seq<PayloadView>, MalformedLineView> {
    let line = trim(raw_line);
    let f = fields(line);
    if line.len() == 0 {
        Ok(acc)
    } else if line[0] != '#' {
        Ok(with_data(acc, metric_name_of(line), labelled(line, labels)))
    } else if f.len() < 4 {
        Err(MalformedLineView::TooFewFields(raw_line))
    } else if f[1] == "HELP"@ {
        Ok(with_help(acc, f[2], join(f.skip(3), " "@)))
    } else if f[1] == "TYPE"@ {
        Ok(with_type(acc, f[2], join(f.skip(3), " "@)))
    } else {
        Err(MalformedLineView::InvalidType(f[1]))
    }
}

/// The entries after the given lines, taken in order; the first malformed
/// line ends the parse.
pub open spec fn parse_lines(
    acc: Seq<PayloadView>,
    raw_lines: Seq<Seq<char>>,
    labels: Seq<LabelView>,
) -> Result<Seq<PayloadView>, MalformedLineView>
    decreases raw_lines.len(),
{
    if raw_lines.len() == 0 {
        Ok(acc)
    } else {
        match parse_lines(acc, raw_lines.drop_last(), labels) {
            Ok(a) => parse_line(a, raw_lines.last(), labels),
            Err(e) => Err(e),
        }
    }
}

/// The message that a scrape parses to.
pub open spec fn parsed(
    raw: Seq<char>,
    name: Seq<char>,
    labels: Seq<LabelView>,
    expiration: int,
) -> Result<MessageView, MalformedLineView> {
    match parse_lines(Seq::empty(), lines(raw), labels) {
        Ok(payload) => Ok(MessageView { expiration, name, payload }),
        Err(e) => Err(e),
    }
}

/// An error among the first lines is the error of the whole.
pub proof fn lemma_parse_error_stays(
    acc: Seq<PayloadView>,
    raw_lines: Seq<Seq<char>>,
    labels: Seq<LabelView>,
    k: int,
)
    requires
        0 <= k <= raw_lines.len(),
        parse_lines(acc, raw_lines.take(k), labels) is Err,
    ensures
        parse_lines(acc, raw_lines, labels) == parse_lines(acc, raw_lines.take(k), labels),
    decreases raw_lines.len() - k,
{
    if k < raw_lines.len() {
        assert(raw_lines.take(k + 1).drop_last() =~= raw_lines.take(k));
        lemma_parse_error_stays(acc, raw_lines, labels, k + 1);
    } else {
        assert(raw_lines.take(k) =~= raw_lines);
    }
}

/// A line that is neither blank nor a `#` line.
pub open spec fn is_data_line(raw_line: Seq<char>) -> bool {
    trim(raw_line).len() > 0 && trim(raw_line)[0] != '#'
}

/// The data lines of the metric `name` among the given lines, in order, each
/// trimmed and with the labels put in.
pub open spec fn data_lines_for(
    raw_lines: Seq<Seq<char>>,
    name: Seq<char>,
    labels: Seq<LabelView>,
) -> Seq<Seq<char>>
    decreases raw_lines.len(),
{
    if raw_lines.len() == 0 {
        Seq::empty()
    } else if is_data_line(raw_lines.last()) && metric_name_of(trim(raw_lines.last())) == name {
        data_lines_for(raw_lines.drop_last(), name, labels).push(
            labelled(trim(raw_lines.last()), labels),
        )
    } else {
        data_lines_for(raw_lines.drop_last(), name, labels)
    }
}

/// The data lines that the entries hold for the metric `name`.
pub open spec fn data_held(acc: Seq<PayloadView>, name: Seq<char>) -> Seq<Seq<char>> {
    if entry_index(acc, name) < acc.len() {
        acc[entry_index(acc, name) as int].data
    } else {
        Seq::empty()
    }
}

/// Changing an entry other than by its name moves no entry.
proof fn lemma_update_keeps_index(acc: Seq<PayloadView>, i: int, p: PayloadView, name: Seq<char>)
    requires
        0 <= i < acc.len(),
        p.metric_name == acc[i].metric_name,
    ensures
        entry_index(acc.update(i, p), name) == entry_index(acc, name),
{
    let k = entry_index(acc, name) as int;
    lemma_entry_index_bounds(acc, name);
    lemma_entry_index_is(acc.update(i, p), name, k);
}

/// Where each metric is found once an entry for `name` is there.
proof fn lemma_with_entry(acc: Seq<PayloadView>, name: Seq<char>, other: Seq<char>)
    requires
        distinct_metrics(acc),
    ensures
        distinct_metrics(with_entry(acc, name)),
        entry_index(with_entry(acc, name), name) == entry_index(acc, name),
        entry_index(acc, name) < with_entry(acc, name).len(),
        with_entry(acc, name)[entry_index(acc, name) as int].metric_name == name,
        data_held(with_entry(acc, name), other) == data_held(acc, other),
        entry_index(acc, other) < acc.len() ==> entry_index(with_entry(acc, name), other)
            == entry_index(acc, other),
        other != name && entry_index(acc, other) >= acc.len() ==> entry_index(
            with_entry(acc, name),
            other,
        ) >= with_entry(acc, name).len(),
{
    let a = with_entry(acc, name);
    lemma_entry_index_bounds(acc, name);
    lemma_entry_index_bounds(acc, other);
    if entry_index(acc, name) >= acc.len() {
        assert forall|i: int, j: int| 0 <= i < j < a.len() implies a[i].metric_name
            != a[j].metric_name by {
            if j < acc.len() {
                assert(a[i] == acc[i] && a[j] == acc[j]);
            } else {
                assert(a[i] == acc[i]);
            }
        }
        lemma_entry_index_is(a, name, acc.len() as int);
        if entry_index(acc, other) < acc.len() {
            lemma_entry_index_is(a, other, entry_index(acc, other) as int);
        } else if other == name {
        } else {
            lemma_entry_index_is(a, other, a.len() as int);
        }
    }
}

/// What one well-formed line does to the data lines held for each metric.
proof fn lemma_parse_line_data(
    acc: Seq<PayloadView>,
    raw_line: Seq<char>,
    labels: Seq<LabelView>,
    name: Seq<char>,
)
    requires
        distinct_metrics(acc),
        parse_line(acc, raw_line, labels) is Ok,
    ensures
        distinct_metrics(parse_line(acc, raw_line, labels)->Ok_0),
        data_held(parse_line(acc, raw_line, labels)->Ok_0, name) == if is_data_line(raw_line)
            && metric_name_of(trim(raw_line)) == name {
            data_held(acc, name).push(labelled(trim(raw_line), labels))
        } else {
            data_held(acc, name)
        },
        entry_index(acc, name) < acc.len() || (is_data_line(raw_line) && metric_name_of(
            trim(raw_line),
        ) == name) ==> entry_index(parse_line(acc, raw_line, labels)->Ok_0, name) < parse_line(
            acc,
            raw_line,
            labels,
        )->Ok_0.len(),
{
    let line = trim(raw_line);
    let f = fields(line);
    let after = parse_line(acc, raw_line, labels)->Ok_0;
    if line.len() == 0 {
    } else {
        let target = if line[0] != '#' {
            metric_name_of(line)
        } else {
            f[2]
        };
        let a = with_entry(acc, target);
        let i = entry_index(acc, target) as int;
        lemma_with_entry(acc, target, name);
        lemma_with_entry(acc, target, target);
        lemma_update_keeps_index(a, i, after[i], name);
        assert forall|x: int, y: int| 0 <= x < y < after.len() implies after[x].metric_name
            != after[y].metric_name by {
            assert(after[x].metric_name == a[x].metric_name);
            assert(after[y].metric_name == a[y].metric_name);
        }
        lemma_entry_index_bounds(a, name);
        if name != target && entry_index(a, name) < a.len() {
            assert(entry_index(a, name) != i);
        }
    }
}

/// What well-formed lines do to the data lines held for each metric.
proof fn lemma_parse_lines_data(
    raw_lines: Seq<Seq<char>>,
    labels: Seq<LabelView>,
    name: Seq<char>,
)
    requires
        parse_lines(Seq::empty(), raw_lines, labels) is Ok,
    ensures
        distinct_metrics(parse_lines(Seq::empty(), raw_lines, labels)->Ok_0),
        data_held(parse_lines(Seq::empty(), raw_lines, labels)->Ok_0, name) == data_lines_for(
            raw_lines,
            name,
            labels,
        ),
        data_lines_for(raw_lines, name, labels).len() > 0 ==> entry_index(
            parse_lines(Seq::empty(), raw_lines, labels)->Ok_0,
            name,
        ) < parse_lines(Seq::empty(), raw_lines, labels)->Ok_0.len(),
    decreases raw_lines.len(),
{
    if raw_lines.len() > 0 {
        let before = parse_lines(Seq::empty(), raw_lines.drop_last(), labels);
        lemma_parse_lines_data(raw_lines.drop_last(), labels, name);
        lemma_parse_line_data(before->Ok_0, raw_lines.last(), labels, name);
    }
}

/// Parsing keeps every data line. Where a scrape parses, no metric has two
/// entries, and what is held for each metric is exactly the data lines of
/// that metric, in the order of the text, each trimmed and with the labels
/// put in. A metric with a data line has an entry.
pub proof fn lemma_parse_keeps_data_lines(
    raw: Seq<char>,
    name: Seq<char>,
    labels: Seq<LabelView>,
    expiration: int,
    metric: Seq<char>,
)
    requires
        parsed(raw, name, labels, expiration) is Ok,
    ensures
        distinct_metrics(parsed(raw, name, labels, expiration)->Ok_0.payload),
        data_held(parsed(raw, name, labels, expiration)->Ok_0.payload, metric) == data_lines_for(
            lines(raw),
            metric,
            labels,
        ),
        data_lines_for(lines(raw), metric, labels).len() > 0 ==> entry_index(
            parsed(raw, name, labels, expiration)->Ok_0.payload,
            metric,
        ) < parsed(raw, name, labels, expiration)->Ok_0.payload.len(),
{
    lemma_parse_lines_data(lines(raw), labels, metric);
}

/// What a line says of the metric `name` as a `#` line of the kind `word`,
/// `HELP` or `TYPE`: the text behind the name; `None` for any other line.
pub open spec fn metadata_of(raw_line: Seq<char>, word: Seq<char>, name: Seq<char>) -> Option<
    Seq<char>,
> {
    let line = trim(raw_line);
    let f = fields(line);
    if line.len() > 0 && line[0] == '#' && f.len() >= 4 && f[1] == word && f[2] == name {
        Some(join(f.skip(3), " "@))
    } else {
        None
    }
}

/// What the last `#` line of the kind `word` for the metric `name` says;
/// empty where there is no such line.
pub open spec fn last_metadata(raw_lines: Seq<Seq<char>>, word: Seq<char>, name: Seq<char>) -> Seq<
    char,
>
    decreases raw_lines.len(),
{
    if raw_lines.len() == 0 {
        Seq::empty()
    } else if metadata_of(raw_lines.last(), word, name) is Some {
        metadata_of(raw_lines.last(), word, name)->0
    } else {
        last_metadata(raw_lines.drop_last(), word, name)
    }
}

/// The help text that the entries hold for the metric `name`.
pub open spec fn help_held(acc: Seq<PayloadView>, name: Seq<char>) -> Seq<char> {
    if entry_index(acc, name) < acc.len() {
        acc[entry_index(acc, name) as int].help
    } else {
        Seq::empty()
    }
}

/// The type that the entries hold for the metric `name`.
pub open spec fn type_held(acc: Seq<PayloadView>, name: Seq<char>) -> Seq<char> {
    if entry_index(acc, name) < acc.len() {
        acc[entry_index(acc, name) as int].data_type
    } else {
        Seq::empty()
    }
}

/// What one well-formed line does to the help and the type held for each metric.
proof fn lemma_parse_line_metadata(
    acc: Seq<PayloadView>,
    raw_line: Seq<char>,
    labels: Seq<LabelView>,
    name: Seq<char>,
)
    requires
        distinct_metrics(acc),
        parse_line(acc, raw_line, labels) is Ok,
    ensures
        help_held(parse_line(acc, raw_line, labels)->Ok_0, name) == if metadata_of(
            raw_line,
            "HELP"@,
            name,
        ) is Some {
            metadata_of(raw_line, "HELP"@, name)->0
        } else {
            help_held(acc, name)
        },
        type_held(parse_line(acc, raw_line, labels)->Ok_0, name) == if metadata_of(
            raw_line,
            "TYPE"@,
            name,
        ) is Some {
            metadata_of(raw_line, "TYPE"@, name)->0
        } else {
            type_held(acc, name)
        },
{
    reveal_strlit("HELP");
    reveal_strlit("TYPE");
    assert("HELP"@[0] != "TYPE"@[0]);
    let line = trim(raw_line);
    let f = fields(line);
    let after = parse_line(acc, raw_line, labels)->Ok_0;
    if line.len() > 0 {
        let target = if line[0] != '#' {
            metric_name_of(line)
        } else {
            f[2]
        };
        let a = with_entry(acc, target);
        let i = entry_index(acc, target) as int;
        lemma_with_entry(acc, target, name);
        lemma_with_entry(acc, target, target);
        lemma_update_keeps_index(a, i, after[i], name);
        lemma_entry_index_bounds(a, name);
        lemma_entry_index_bounds(acc, name);
        if name != target && entry_index(a, name) < a.len() {
            assert(entry_index(a, name) != i);
        }
        if entry_index(acc, name) < acc.len() {
            assert(a[entry_index(acc, name) as int] == acc[entry_index(acc, name) as int]);
        }
    }
}

/// Metadata is kept whatever the order of the lines. Where a scrape parses,
/// the entry of each metric holds as help what the last `HELP` line for the
/// metric says and as type what its last `TYPE` line says, wherever those
/// lines stand among the data lines; a metric without such a line has an
/// empty help, or an empty type.
pub proof fn lemma_parse_keeps_metadata(
    raw: Seq<char>,
    name: Seq<char>,
    labels: Seq<LabelView>,
    expiration: int,
    metric: Seq<char>,
)
    requires
        parsed(raw, name, labels, expiration) is Ok,
    ensures
        help_held(parsed(raw, name, labels, expiration)->Ok_0.payload, metric) == last_metadata(
            lines(raw),
            "HELP"@,
            metric,
        ),
        type_held(parsed(raw, name, labels, expiration)->Ok_0.payload, metric) == last_metadata(
            lines(raw),
            "TYPE"@,
            metric,
        ),
{
    lemma_parse_lines_metadata(lines(raw), labels, metric);
}

/// What well-formed lines do to the help and the type held for each metric.
proof fn lemma_parse_lines_metadata(
    raw_lines: Seq<Seq<char>>,
    labels: Seq<LabelView>,
    name: Seq<char>,
)
    requires
        parse_lines(Seq::empty(), raw_lines, labels) is Ok,
    ensures
        help_held(parse_lines(Seq::empty(), raw_lines, labels)->Ok_0, name) == last_metadata(
            raw_lines,
            "HELP"@,
            name,
        ),
        type_held(parse_lines(Seq::empty(), raw_lines, labels)->Ok_0, name) == last_metadata(
            raw_lines,
            "TYPE"@,
            name,
        ),
    decreases raw_lines.len(),
{
    if raw_lines.len() > 0 {
        let before = parse_lines(Seq::empty(), raw_lines.drop_last(), labels);
        lemma_parse_lines_metadata(raw_lines.drop_last(), labels, name);
        lemma_parse_lines_data(raw_lines.drop_last(), labels, name);
        lemma_parse_line_metadata(before->Ok_0, raw_lines.last(), labels, name);
    }
}

/// Nothing but data lines is held: every line among the data lines of a
/// metric is a line of the text that is neither blank nor a `#` line,
/// trimmed and with the labels put in.
pub proof fn lemma_data_lines_are_data_lines(
    raw_lines: Seq<Seq<char>>,
    labels: Seq<LabelView>,
    name: Seq<char>,
    i: int,
)
    requires
        0 <= i < data_lines_for(raw_lines, name, labels).len(),
    ensures
        exists|k: int|
            0 <= k < raw_lines.len() && is_data_line(#[trigger] raw_lines[k]) && metric_name_of(
                trim(raw_lines[k]),
            ) == name && data_lines_for(raw_lines, name, labels)[i] == labelled(
                trim(raw_lines[k]),
                labels,
            ),
    decreases raw_lines.len(),
{
    let rest = data_lines_for(raw_lines.drop_last(), name, labels);
    if i < rest.len() {
        lemma_data_lines_are_data_lines(raw_lines.drop_last(), labels, name, i);
        let k = choose|k: int|
            0 <= k < raw_lines.drop_last().len() && is_data_line(
                #[trigger] raw_lines.drop_last()[k],
            ) && metric_name_of(trim(raw_lines.drop_last()[k])) == name && rest[i] == labelled(
                trim(raw_lines.drop_last()[k]),
                labels,
            );
        assert(raw_lines[k] == raw_lines.drop_last()[k]);
    } else {
        assert(is_data_line(raw_lines[raw_lines.len() - 1]));
    }
}

/// Finds the entry for `name`, adding a fresh one at the end where there is none.
fn entry_for(acc: &mut Vec<Payload>, name: String) -> (i: usize)
    ensures
        payloads_view(final(acc)@) == with_entry(payloads_view(old(acc)@), name@),
        i == entry_index(payloads_view(old(acc)@), name@),
        i < final(acc).len(),
{
    let n = acc.len();
    let mut i: usize = 0;
    while i < n && acc[i].metric_name != name
        invariant
            n == acc.len(),
            i <= n,
            forall|j: int| 0 <= j < i ==> payloads_view(acc@)[j].metric_name != name@,
        decreases n - i,
    {
        i += 1;
    }
    proof {
        lemma_entry_index_is(payloads_view(acc@), name@, i as int);
    }
    if i == n {
        let ghost before = payloads_view(acc@);
        let mut fresh = Payload::new();
        fresh.metric_name = name;
        acc.push(fresh);
        assert(payloads_view(acc@) =~= before.push(named_payload(name@)));
    }
    i
}

/// Parses one scrape into a message.
///
/// `raw` is the exposition text, `name` the source it was scraped from,
/// `labels` the labels to put on every data line and `expiration` the number
/// of seconds the data stays valid. The message holds one entry for each
/// metric that the text mentions, in the order of first mention.
pub fn parse_scrape_data(raw: &str, name: &str, labels: &Labels, expiration: i64) -> (r: Result<
    Message,
    MalformedLine,
>)
    ensures
        match r {
            Ok(m) => parsed(raw@, name@, labels@, expiration as int) == Ok::<
                MessageView,
                MalformedLineView,
            >(m@),
            Err(e) => parsed(raw@, name@, labels@, expiration as int) == Err::<
                MessageView,
                MalformedLineView,
            >(e@),
        },
{
    let text = chars_of(raw);
    let raw_lines = lines_of(&text);
    let ghost all = vecs_view(raw_lines@);
    let mut acc: Vec<Payload> = Vec::new();
    let mut k: usize = 0;
    assert(all.take(0) =~= Seq::<Seq<char>>::empty());
    assert(payloads_view(acc@) =~= Seq::<PayloadView>::empty());
    while k < raw_lines.len()
        invariant
            k <= raw_lines.len(),
            all == vecs_view(raw_lines@),
            all == lines(raw@),
            parse_lines(Seq::empty(), all.take(k as int), labels@) == Ok::<
                Seq<PayloadView>,
                MalformedLineView,
            >(payloads_view(acc@)),
        decreases raw_lines.len() - k,
    {
        let ghost before = payloads_view(acc@);
        proof {
            assert(all.take(k + 1).drop_last() =~= all.take(k as int));
            assert(all.take(k + 1).last() == raw_lines@[k as int]@);
        }
        let line = trim_of(&raw_lines[k]);
        if line.len() == 0 {
        } else if line[0] != '#' {
            proof {
                lemma_position_bounds(line@, '{');
                lemma_position_bounds(line@, ' ');
            }
            let brace = position_of(&line, '{');
            let end = if brace < line.len() {
                brace
            } else {
                position_of(&line, ' ')
            };
            let mname = string_of(&subvec(&line, 0, end));
            let data = add_labels(string_of(&line).as_str(), labels);
            let i = entry_for(&mut acc, mname);
            let ghost held = acc@[i as int].data@;
            acc[i].data.push(data);
            proof {
                assert(strings_view(acc@[i as int].data@) =~= strings_view(held).push(data@));
                assert(payloads_view(acc@) =~= with_data(before, mname@, data@));
            }
        } else {
            let f = fields_of(&line);
            if f.len() < 4 {
                let e = MalformedLine::TooFewFields(string_of(&raw_lines[k]));
                proof {
                    lemma_parse_error_stays(Seq::empty(), all, labels@, k + 1);
                }
                return Err(e);
            }
            let is_help = equals_str(&f[1], "HELP");
            let is_type = equals_str(&f[1], "TYPE");
            if !is_help && !is_type {
                let e = MalformedLine::InvalidType(string_of(&f[1]));
                proof {
                    lemma_parse_error_stays(Seq::empty(), all, labels@, k + 1);
                }
                return Err(e);
            }
            let mname = string_of(&f[2]);
            let fdata = join_from(&f, 3, " ");
            let i = entry_for(&mut acc, mname);
            if is_help {
                acc[i].help = fdata;
                proof {
                    assert(payloads_view(acc@) =~= with_help(before, mname@, fdata@));
                }
            } else {
                acc[i].data_type = fdata;
                proof {
                    assert(payloads_view(acc@) =~= with_type(before, mname@, fdata@));
                }
            }
        }
        k += 1;
    }
    assert(all.take(raw_lines.len() as int) =~= all);
    Ok(Message { expiration, name: String::from_str(name), payload: acc })
}

} // verus!
