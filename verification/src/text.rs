//! Character-level text operations with exact specifications.

use vstd::prelude::*;
use vstd::string::*;

verus! {

/// Appends one character to a string (`String::push`): the characters after
/// the call are those before it followed by `ch`.
pub assume_specification[ String::push ](s: &mut String, ch: char)
    ensures
        final(s)@ == old(s)@.push(ch),
;

/// The characters of a string slice, as a vector.
pub fn chars_of(s: &str) -> (v: Vec<char>)
    ensures
        v@ == s@,
{
    let mut v: Vec<char> = Vec::new();
    for c in it: s.chars()
        invariant
            v@ == it.seq().take(it.index() as int),
            it.seq() == s@,
    {
        v.push(c);
    }
    v
}

/// The string made of the characters of a vector.
pub fn string_of(v: &Vec<char>) -> (s: String)
    ensures
        s@ == v@,
{
    let mut s = String::new();
    let mut i: usize = 0;
    while i < v.len()
        invariant
            i <= v.len(),
            s@ == v@.take(i as int),
        decreases v.len() - i,
    {
        s.push(v[i]);
        i += 1;
    }
    s
}

/// Unicode `White_Space`: the characters that trimming removes.
pub open spec fn is_whitespace(c: char) -> bool {
    let n = c as u32;
    ||| 0x09 <= n <= 0x0D
    ||| n == 0x20
    ||| n == 0x85
    ||| n == 0xA0
    ||| n == 0x1680
    ||| 0x2000 <= n <= 0x200A
    ||| n == 0x2028
    ||| n == 0x2029
    ||| n == 0x202F
    ||| n == 0x205F
    ||| n == 0x3000
}

/// ASCII whitespace: space, tab, line feed, form feed, carriage return.
pub open spec fn is_ascii_whitespace(c: char) -> bool {
    c == ' ' || c == '\t' || c == '\n' || c == '\x0C' || c == '\r'
}

/// Whether trimming removes the character.
pub fn char_is_whitespace(c: char) -> (b: bool)
    ensures
        b == is_whitespace(c),
{
    let n: u32 = c as u32;
    (0x09 <= n && n <= 0x0D) || n == 0x20 || n == 0x85 || n == 0xA0 || n == 0x1680 || (0x2000 <= n
        && n <= 0x200A) || n == 0x2028 || n == 0x2029 || n == 0x202F || n == 0x205F || n == 0x3000
}

/// Whether the character parts fields.
pub fn char_is_ascii_whitespace(c: char) -> (b: bool)
    ensures
        b == is_ascii_whitespace(c),
{
    c == ' ' || c == '\t' || c == '\n' || c == '\x0C' || c == '\r'
}

/// Length of the longest prefix of `s` whose characters all satisfy `p`.
pub open spec fn leading(s: Seq<char>, p: spec_fn(char) -> bool) -> nat
    decreases s.len(),
{
    if s.len() > 0 && p(s[0]) {
        1 + leading(s.skip(1), p)
    } else {
        0
    }
}

/// Length of the longest suffix of `s` whose characters all satisfy `p`.
pub open spec fn trailing(s: Seq<char>, p: spec_fn(char) -> bool) -> nat
    decreases s.len(),
{
    if s.len() > 0 && p(s.last()) {
        1 + trailing(s.drop_last(), p)
    } else {
        0
    }
}

/// `leading(s, p)` is the one index at which the run of `p` from the start ends.
pub proof fn lemma_leading_is(s: Seq<char>, p: spec_fn(char) -> bool, k: int)
    requires
        0 <= k <= s.len(),
        forall|j: int| 0 <= j < k ==> p(#[trigger] s[j]),
        k < s.len() ==> !p(s[k]),
    ensures
        leading(s, p) == k,
    decreases s.len(),
{
    if k > 0 {
        let t = s.skip(1);
        assert forall|j: int| 0 <= j < k - 1 implies p(#[trigger] t[j]) by {
            assert(t[j] == s[j + 1]);
        }
        lemma_leading_is(t, p, k - 1);
    }
}

/// Every character before `leading(s, p)` satisfies `p`, and the one at it does not.
pub proof fn lemma_leading_bounds(s: Seq<char>, p: spec_fn(char) -> bool)
    ensures
        leading(s, p) <= s.len(),
        forall|j: int| 0 <= j < leading(s, p) ==> p(#[trigger] s[j]),
        leading(s, p) < s.len() ==> !p(s[leading(s, p) as int]),
    decreases s.len(),
{
    if s.len() > 0 && p(s[0]) {
        let t = s.skip(1);
        lemma_leading_bounds(t, p);
        assert forall|j: int| 0 <= j < leading(s, p) implies p(#[trigger] s[j]) by {
            if j > 0 {
                assert(s[j] == t[j - 1]);
            }
        }
        if leading(s, p) < s.len() {
            assert(s[leading(s, p) as int] == t[leading(t, p) as int]);
        }
    }
}

/// `trailing(s, p)` is the one length at which the run of `p` from the end starts.
pub proof fn lemma_trailing_is(s: Seq<char>, p: spec_fn(char) -> bool, k: int)
    requires
        0 <= k <= s.len(),
        forall|j: int| s.len() - k <= j < s.len() ==> p(#[trigger] s[j]),
        k < s.len() ==> !p(s[s.len() - k - 1]),
    ensures
        trailing(s, p) == k,
    decreases s.len(),
{
    if k > 0 {
        let t = s.drop_last();
        assert forall|j: int| t.len() - (k - 1) <= j < t.len() implies p(#[trigger] t[j]) by {
            assert(t[j] == s[j]);
        }
        lemma_trailing_is(t, p, k - 1);
    }
}

/// Every character of the last `trailing(s, p)` satisfies `p`, and the one before them does not.
pub proof fn lemma_trailing_bounds(s: Seq<char>, p: spec_fn(char) -> bool)
    ensures
        trailing(s, p) <= s.len(),
        forall|j: int| s.len() - trailing(s, p) <= j < s.len() ==> p(#[trigger] s[j]),
        trailing(s, p) < s.len() ==> !p(s[s.len() - trailing(s, p) - 1]),
    decreases s.len(),
{
    if s.len() > 0 && p(s.last()) {
        let t = s.drop_last();
        lemma_trailing_bounds(t, p);
        assert forall|j: int| s.len() - trailing(s, p) <= j < s.len() implies p(
            #[trigger] s[j],
        ) by {
            if j < s.len() - 1 {
                assert(s[j] == t[j]);
            }
        }
        if trailing(s, p) < s.len() {
            assert(s[s.len() - trailing(s, p) - 1] == t[t.len() - trailing(t, p) - 1]);
        }
    }
}

/// `s` without the whitespace at its start and at its end.
pub open spec fn trim(s: Seq<char>) -> Seq<char> {
    let t = s.skip(leading(s, |c: char| is_whitespace(c)) as int);
    t.take(t.len() - trailing(t, |c: char| is_whitespace(c)))
}

/// Trimming takes away a run of whitespace at the start and one at the end,
/// and what it leaves neither starts nor ends with whitespace.
pub proof fn lemma_trim_is_trimmed(s: Seq<char>)
    ensures
        trim(s).len() > 0 ==> !is_whitespace(trim(s).first()) && !is_whitespace(trim(s).last()),
        exists|a: int, b: int|
            {
                &&& 0 <= a <= b <= s.len()
                &&& #[trigger] s.subrange(a, b) == trim(s)
                &&& forall|j: int| 0 <= j < a ==> is_whitespace(#[trigger] s[j])
                &&& forall|j: int| b <= j < s.len() ==> is_whitespace(#[trigger] s[j])
            },
{
    let ws = |c: char| is_whitespace(c);
    let a = leading(s, ws) as int;
    lemma_leading_bounds(s, ws);
    let t = s.skip(a);
    lemma_trailing_bounds(t, ws);
    let b = s.len() - trailing(t, ws);
    assert(t.take(t.len() - trailing(t, ws)) =~= s.subrange(a, b));
    assert forall|j: int| b <= j < s.len() implies is_whitespace(#[trigger] s[j]) by {
        assert(s[j] == t[j - a]);
        assert(ws(t[j - a]));
    }
    assert forall|j: int| 0 <= j < a implies is_whitespace(#[trigger] s[j]) by {
        assert(ws(s[j]));
    }
    if trim(s).len() > 0 {
        assert(trim(s).first() == s[a]);
        assert(!ws(s[a]));
        assert(trim(s).last() == t[t.len() - trailing(t, ws) - 1]);
        assert(!ws(t[t.len() - trailing(t, ws) - 1]));
    }
}

/// The characters of `v` from index `a` up to, not including, index `b`.
pub fn subvec(v: &Vec<char>, a: usize, b: usize) -> (r: Vec<char>)
    requires
        a <= b <= v.len(),
    ensures
        r@ == v@.subrange(a as int, b as int),
{
    let mut r: Vec<char> = Vec::new();
    let mut i: usize = a;
    while i < b
        invariant
            a <= i <= b <= v.len(),
            r@ == v@.subrange(a as int, i as int),
        decreases b - i,
    {
        r.push(v[i]);
        i += 1;
    }
    r
}

/// Removes the whitespace at both ends.
pub fn trim_of(v: &Vec<char>) -> (r: Vec<char>)
    ensures
        r@ == trim(v@),
{
    let n = v.len();
    let mut a: usize = 0;
    while a < n && char_is_whitespace(v[a])
        invariant
            n == v.len(),
            a <= n,
            forall|j: int| 0 <= j < a ==> is_whitespace(#[trigger] v@[j]),
        decreases n - a,
    {
        a += 1;
    }
    let mut b: usize = n;
    while b > a && char_is_whitespace(v[b - 1])
        invariant
            n == v.len(),
            a <= b <= n,
            forall|j: int| b <= j < n ==> is_whitespace(#[trigger] v@[j]),
        decreases b - a,
    {
        b -= 1;
    }
    proof {
        let ws = |c: char| is_whitespace(c);
        lemma_leading_is(v@, ws, a as int);
        let t = v@.skip(a as int);
        assert forall|j: int| t.len() - (n - b) <= j < t.len() implies ws(#[trigger] t[j]) by {
            assert(t[j] == v@[j + a]);
        }
        if n - b < t.len() {
            assert(t[t.len() - (n - b) - 1] == v@[b - 1]);
            assert(a < b);
        }
        lemma_trailing_is(t, ws, (n - b) as int);
        assert(t.take(t.len() - (n - b)) =~= v@.subrange(a as int, b as int));
    }
    subvec(v, a, b)
}

/// The strings of a vector, each taken by its characters.
pub open spec fn strings_view(v: Seq<String>) -> Seq<Seq<char>> {
    v.map_values(|s: String| s@)
}

/// The vectors of a vector, each taken by its characters.
pub open spec fn vecs_view(v: Seq<Vec<char>>) -> Seq<Seq<char>> {
    v.map_values(|x: Vec<char>| x@)
}

/// Index of the first `c` in `s`, or the length of `s` where there is none.
pub open spec fn position(s: Seq<char>, c: char) -> nat
    decreases s.len(),
{
    if s.len() > 0 && s[0] != c {
        1 + position(s.skip(1), c)
    } else {
        0
    }
}

/// Whether `c` occurs in `s`.
pub open spec fn has_char(s: Seq<char>, c: char) -> bool {
    position(s, c) < s.len()
}

/// `position(s, c)` is the one index before which no `c` stands and at which one does.
pub proof fn lemma_position_is(s: Seq<char>, c: char, k: int)
    requires
        0 <= k <= s.len(),
        forall|j: int| 0 <= j < k ==> s[j] != c,
        k < s.len() ==> s[k] == c,
    ensures
        position(s, c) == k,
    decreases s.len(),
{
    if k > 0 {
        let t = s.skip(1);
        assert forall|j: int| 0 <= j < k - 1 implies t[j] != c by {
            assert(t[j] == s[j + 1]);
        }
        lemma_position_is(t, c, k - 1);
    }
}

/// No `c` stands before `position(s, c)`, and one stands at it unless it is the length.
pub proof fn lemma_position_bounds(s: Seq<char>, c: char)
    ensures
        position(s, c) <= s.len(),
        forall|j: int| 0 <= j < position(s, c) ==> s[j] != c,
        position(s, c) < s.len() ==> s[position(s, c) as int] == c,
        has_char(s, c) == s.contains(c),
    decreases s.len(),
{
    if s.len() > 0 && s[0] != c {
        let t = s.skip(1);
        lemma_position_bounds(t, c);
        assert forall|j: int| 0 <= j < position(s, c) implies s[j] != c by {
            if j > 0 {
                assert(s[j] == t[j - 1]);
            }
        }
        if position(s, c) < s.len() {
            assert(s[position(s, c) as int] == t[position(t, c) as int]);
        }
    }
    if s.contains(c) {
        let i = choose|i: int| 0 <= i < s.len() && s[i] == c;
        assert(position(s, c) <= i);
    }
}

/// Index of the first `c` in `v`, or the length of `v` where there is none.
pub fn position_of(v: &Vec<char>, c: char) -> (i: usize)
    ensures
        i == position(v@, c),
        i <= v.len(),
{
    let mut i: usize = 0;
    while i < v.len() && v[i] != c
        invariant
            i <= v.len(),
            forall|j: int| 0 <= j < i ==> v@[j] != c,
        decreases v.len() - i,
    {
        i += 1;
    }
    proof {
        lemma_position_is(v@, c, i as int);
    }
    i
}

/// `s` without a carriage return at its end.
pub open spec fn strip_cr(s: Seq<char>) -> Seq<char> {
    if s.len() > 0 && s.last() == '\r' {
        s.drop_last()
    } else {
        s
    }
}

/// The lines of `s`. A line ends at a line feed; the line feed, and a
/// carriage return directly before it, are not part of the line. What follows
/// the last line feed is a line of its own unless it is empty.
pub open spec fn lines(s: Seq<char>) -> Seq<Seq<char>>
    decreases s.len(),
{
    let i = position(s, '\n');
    if s.len() == 0 {
        Seq::empty()
    } else if i < s.len() {
        seq![strip_cr(s.take(i as int))] + lines(s.skip(i as int + 1))
    } else {
        seq![s]
    }
}

/// No line holds a line feed.
pub proof fn lemma_lines_have_no_line_feed(s: Seq<char>, i: int, j: int)
    requires
        0 <= i < lines(s).len(),
        0 <= j < lines(s)[i].len(),
    ensures
        lines(s)[i][j] != '\n',
    decreases s.len(),
{
    let at = position(s, '\n') as int;
    lemma_position_bounds(s, '\n');
    if at < s.len() {
        if i == 0 {
            assert(lines(s)[0] == strip_cr(s.take(at)));
            assert(lines(s)[0][j] == s[j]);
        } else {
            assert(lines(s)[i] == lines(s.skip(at + 1))[i - 1]);
            lemma_lines_have_no_line_feed(s.skip(at + 1), i - 1, j);
        }
    } else {
        assert(lines(s)[i] == s);
    }
}

/// Splits a text into its lines.
pub fn lines_of(v: &Vec<char>) -> (r: Vec<Vec<char>>)
    ensures
        vecs_view(r@) == lines(v@),
{
    let n = v.len();
    let mut r: Vec<Vec<char>> = Vec::new();
    let mut start: usize = 0;
    assert(vecs_view(r@) =~= Seq::<Seq<char>>::empty());
    assert(v@.skip(0) =~= v@);
    while start < n
        invariant
            n == v.len(),
            start <= n,
            lines(v@) == vecs_view(r@) + lines(v@.skip(start as int)),
        decreases n - start,
    {
        let mut end: usize = start;
        while end < n && v[end] != '\n'
            invariant
                n == v.len(),
                start <= end <= n,
                forall|j: int| start <= j < end ==> v@[j] != '\n',
            decreases n - end,
        {
            end += 1;
        }
        let ghost rest = v@.skip(start as int);
        let ghost before = vecs_view(r@);
        proof {
            assert forall|j: int| 0 <= j < end - start implies rest[j] != '\n' by {
                assert(rest[j] == v@[j + start]);
            }
            lemma_position_is(rest, '\n', end - start);
        }
        if end < n {
            let stop: usize = if end > start && v[end - 1] == '\r' {
                (end - 1) as usize
            } else {
                end
            };
            let line = subvec(v, start, stop);
            proof {
                assert(rest.take(end - start) =~= v@.subrange(start as int, end as int));
                assert(line@ =~= strip_cr(rest.take(end - start)));
                assert(rest.skip(end - start + 1) =~= v@.skip(end + 1));
            }
            r.push(line);
            proof {
                assert(vecs_view(r@) =~= before + seq![line@]);
            }
            start = end + 1;
        } else {
            let line = subvec(v, start, n);
            proof {
                assert(line@ =~= rest);
                assert(v@.skip(n as int) =~= Seq::<char>::empty());
            }
            r.push(line);
            proof {
                assert(vecs_view(r@) =~= before + seq![line@]);
            }
            start = n;
        }
    }
    proof {
        assert(v@.skip(n as int).len() == 0);
    }
    r
}

/// The whitespace-separated fields of `s`: the maximal runs of characters
/// that are not ASCII whitespace, in order.
pub open spec fn fields(s: Seq<char>) -> Seq<Seq<char>>
    decreases s.len(),
{
    let a = leading(s, |c: char| is_ascii_whitespace(c));
    let t = s.skip(a as int);
    let n = leading(t, |c: char| !is_ascii_whitespace(c));
    if a <= s.len() && 0 < n <= t.len() {
        seq![t.take(n as int)] + fields(t.skip(n as int))
    } else {
        Seq::empty()
    }
}

/// No field is empty, and none holds ASCII whitespace.
pub proof fn lemma_fields_are_words(s: Seq<char>, i: int, j: int)
    requires
        0 <= i < fields(s).len(),
        0 <= j < fields(s)[i].len(),
    ensures
        fields(s)[i].len() > 0,
        !is_ascii_whitespace(fields(s)[i][j]),
    decreases s.len(),
{
    let a = leading(s, |c: char| is_ascii_whitespace(c));
    let t = s.skip(a as int);
    let n = leading(t, |c: char| !is_ascii_whitespace(c));
    lemma_leading_bounds(t, |c: char| !is_ascii_whitespace(c));
    if i == 0 {
        assert(fields(s)[0] == t.take(n as int));
        assert(fields(s)[0][j] == t[j]);
        let word = |c: char| !is_ascii_whitespace(c);
        assert(word(t[j]));
    } else {
        assert(fields(s)[i] == fields(t.skip(n as int))[i - 1]);
        lemma_fields_are_words(t.skip(n as int), i - 1, j);
    }
}

/// Splits a line into its whitespace-separated fields.
pub fn fields_of(v: &Vec<char>) -> (r: Vec<Vec<char>>)
    ensures
        vecs_view(r@) == fields(v@),
{
    let n = v.len();
    let mut r: Vec<Vec<char>> = Vec::new();
    let mut pos: usize = 0;
    assert(vecs_view(r@) =~= Seq::<Seq<char>>::empty());
    assert(v@.skip(0) =~= v@);
    loop
        invariant
            n == v.len(),
            pos <= n,
            fields(v@) == vecs_view(r@) + fields(v@.skip(pos as int)),
        ensures
            fields(v@) == vecs_view(r@),
        decreases n - pos,
    {
        let ghost s = v@.skip(pos as int);
        let mut a: usize = pos;
        while a < n && char_is_ascii_whitespace(v[a])
            invariant
                n == v.len(),
                pos <= a <= n,
                forall|j: int| pos <= j < a ==> is_ascii_whitespace(#[trigger] v@[j]),
            decreases n - a,
        {
            a += 1;
        }
        let mut b: usize = a;
        while b < n && !char_is_ascii_whitespace(v[b])
            invariant
                n == v.len(),
                a <= b <= n,
                forall|j: int| a <= j < b ==> !is_ascii_whitespace(#[trigger] v@[j]),
            decreases n - b,
        {
            b += 1;
        }
        let ghost t = s.skip(a - pos);
        proof {
            assert forall|j: int| 0 <= j < a - pos implies is_ascii_whitespace(
                #[trigger] s[j],
            ) by {
                assert(s[j] == v@[j + pos]);
            }
            lemma_leading_is(s, |c: char| is_ascii_whitespace(c), a - pos);
            assert(t =~= v@.skip(a as int));
            assert forall|j: int| 0 <= j < b - a implies !is_ascii_whitespace(#[trigger] t[j]) by {
                assert(t[j] == v@[j + a]);
            }
            lemma_leading_is(t, |c: char| !is_ascii_whitespace(c), b - a);
        }
        if b == a {
            break ;
        }
        let field = subvec(v, a, b);
        let ghost before = vecs_view(r@);
        r.push(field);
        proof {
            assert(field@ =~= t.take(b - a));
            assert(t.skip(b - a) =~= v@.skip(b as int));
            assert(vecs_view(r@) =~= before + seq![field@]);
        }
        pos = b;
    }
    r
}

/// The pieces of `parts` in order, with `sep` between each two.
pub open spec fn join(parts: Seq<Seq<char>>, sep: Seq<char>) -> Seq<char>
    decreases parts.len(),
{
    if parts.len() == 0 {
        Seq::empty()
    } else if parts.len() == 1 {
        parts[0]
    } else {
        join(parts.drop_last(), sep) + sep + parts.last()
    }
}

/// Joining two runs of pieces is joining each and putting the separator
/// between them.
pub proof fn lemma_join_concat(a: Seq<Seq<char>>, b: Seq<Seq<char>>, sep: Seq<char>)
    requires
        a.len() > 0,
        b.len() > 0,
    ensures
        join(a + b, sep) == join(a, sep) + sep + join(b, sep),
    decreases b.len(),
{
    let rest = b.drop_last();
    assert((a + b).drop_last() =~= a + rest);
    assert((a + b).last() == b.last());
    if rest.len() == 0 {
        assert(a + rest =~= a);
        assert(join(b, sep) == b[0]);
    } else {
        lemma_join_concat(a, rest, sep);
        assert(join(a + b, sep) =~= join(a, sep) + sep + (join(rest, sep) + sep + b.last()));
    }
}

/// Runs of pieces that join to the same text, two by two, join to the same
/// text when put together.
pub proof fn lemma_join_alike(
    a: Seq<Seq<char>>,
    a2: Seq<Seq<char>>,
    b: Seq<Seq<char>>,
    b2: Seq<Seq<char>>,
    sep: Seq<char>,
)
    requires
        join(a, sep) == join(a2, sep),
        (a.len() == 0) == (a2.len() == 0),
        join(b, sep) == join(b2, sep),
        (b.len() == 0) == (b2.len() == 0),
    ensures
        join(a + b, sep) == join(a2 + b2, sep),
        ((a + b).len() == 0) == ((a2 + b2).len() == 0),
{
    if a.len() == 0 {
        assert(a + b =~= b);
        assert(a2 + b2 =~= b2);
    } else if b.len() == 0 {
        assert(a + b =~= a);
        assert(a2 + b2 =~= a2);
    } else {
        lemma_join_concat(a, b, sep);
        lemma_join_concat(a2, b2, sep);
    }
}

/// How often `x` stands among the pieces.
pub open spec fn occurrences(pieces: Seq<Seq<char>>, x: Seq<char>) -> nat
    decreases pieces.len(),
{
    if pieces.len() == 0 {
        0
    } else if pieces.last() == x {
        1 + occurrences(pieces.drop_last(), x)
    } else {
        occurrences(pieces.drop_last(), x)
    }
}

/// Occurrences add up over runs put together.
pub proof fn lemma_occurrences_concat(a: Seq<Seq<char>>, b: Seq<Seq<char>>, x: Seq<char>)
    ensures
        occurrences(a + b, x) == occurrences(a, x) + occurrences(b, x),
    decreases b.len(),
{
    if b.len() == 0 {
        assert(a + b =~= a);
    } else {
        assert((a + b).drop_last() =~= a + b.drop_last());
        assert((a + b).last() == b.last());
        lemma_occurrences_concat(a, b.drop_last(), x);
    }
}

/// A piece that stands nowhere occurs zero times.
pub proof fn lemma_occurrences_none(pieces: Seq<Seq<char>>, x: Seq<char>)
    requires
        forall|i: int| 0 <= i < pieces.len() ==> pieces[i] != x,
    ensures
        occurrences(pieces, x) == 0,
    decreases pieces.len(),
{
    if pieces.len() > 0 {
        assert(pieces[pieces.len() - 1] != x);
        assert forall|i: int| 0 <= i < pieces.drop_last().len() implies pieces.drop_last()[i]
            != x by {
            assert(pieces.drop_last()[i] == pieces[i]);
        }
        lemma_occurrences_none(pieces.drop_last(), x);
    }
}

/// Whether a vector holds exactly the characters of `s`.
pub fn equals_str(v: &Vec<char>, s: &str) -> (b: bool)
    ensures
        b == (v@ == s@),
{
    let w = chars_of(s);
    if v.len() != w.len() {
        return false;
    }
    let mut i: usize = 0;
    while i < v.len()
        invariant
            v.len() == w.len(),
            w@ == s@,
            i <= v.len(),
            forall|j: int| 0 <= j < i ==> v@[j] == w@[j],
        decreases v.len() - i,
    {
        if v[i] != w[i] {
            assert(v@[i as int] != s@[i as int]);
            return false;
        }
        i += 1;
    }
    assert(v@ =~= w@);
    true
}

/// Whether `s` begins with the characters of `prefix`.
pub fn starts_with(s: &str, prefix: &str) -> (b: bool)
    ensures
        b == prefix@.is_prefix_of(s@),
{
    let v = chars_of(s);
    let w = chars_of(prefix);
    if w.len() > v.len() {
        return false;
    }
    let mut i: usize = 0;
    while i < w.len()
        invariant
            w.len() <= v.len(),
            v@ == s@,
            w@ == prefix@,
            i <= w.len(),
            forall|j: int| 0 <= j < i ==> v@[j] == w@[j],
        decreases w.len() - i,
    {
        if v[i] != w[i] {
            assert(s@.subrange(0, prefix@.len() as int)[i as int] != prefix@[i as int]);
            return false;
        }
        i += 1;
    }
    assert(s@.subrange(0, prefix@.len() as int) =~= prefix@);
    true
}

/// Whether two string slices hold the same characters.
pub fn same_text(a: &str, b: &str) -> (r: bool)
    ensures
        r == (a@ == b@),
{
    equals_str(&chars_of(a), b)
}

/// Joins the pieces from index `from` on, with `sep` between each two.
pub fn join_from(parts: &Vec<Vec<char>>, from: usize, sep: &str) -> (r: String)
    requires
        from <= parts.len(),
    ensures
        r@ == join(vecs_view(parts@).skip(from as int), sep@),
{
    let ghost all = vecs_view(parts@);
    let mut out = String::new();
    let mut i: usize = from;
    assert(all.subrange(from as int, from as int) =~= Seq::<Seq<char>>::empty());
    while i < parts.len()
        invariant
            from <= i <= parts.len(),
            all == vecs_view(parts@),
            out@ == join(all.subrange(from as int, i as int), sep@),
        decreases parts.len() - i,
    {
        let piece = string_of(&parts[i]);
        proof {
            let next = all.subrange(from as int, i + 1);
            assert(next.drop_last() =~= all.subrange(from as int, i as int));
            assert(next.last() == parts@[i as int]@);
            if i > from {
                assert(join(next, sep@) == join(next.drop_last(), sep@) + sep@ + next.last());
            } else {
                assert(join(next, sep@) == next[0]);
            }
        }
        if i > from {
            out.append(sep);
        }
        out.append(piece.as_str());
        proof {
            if i == from {
                assert(Seq::<char>::empty() + piece@ =~= piece@);
            }
        }
        i += 1;
    }
    assert(all.subrange(from as int, parts.len() as int) =~= all.skip(from as int));
    out
}

/// Joins strings, with `sep` between each two.
pub fn join_strings(parts: &Vec<String>, sep: &str) -> (r: String)
    ensures
        r@ == join(strings_view(parts@), sep@),
{
    let ghost all = strings_view(parts@);
    let mut out = String::new();
    let mut i: usize = 0;
    assert(all.take(0) =~= Seq::<Seq<char>>::empty());
    while i < parts.len()
        invariant
            i <= parts.len(),
            all == strings_view(parts@),
            out@ == join(all.take(i as int), sep@),
        decreases parts.len() - i,
    {
        proof {
            let next = all.take(i + 1);
            assert(next.drop_last() =~= all.take(i as int));
            assert(next.last() == parts@[i as int]@);
            if i > 0 {
                assert(join(next, sep@) == join(next.drop_last(), sep@) + sep@ + next.last());
            } else {
                assert(join(next, sep@) == next[0]);
                assert(Seq::<char>::empty() + parts@[i as int]@ =~= parts@[i as int]@);
            }
        }
        if i > 0 {
            out.append(sep);
        }
        out.append(parts[i].as_str());
        i += 1;
    }
    assert(all.take(parts.len() as int) =~= all);
    out
}

} // verus!
