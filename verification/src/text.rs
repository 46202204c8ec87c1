//! Text primitives over the character sequences that strings denote.
//!
//! Every function states its result over the view of its arguments, so the
//! modules that render prompts, transcripts and documents can state theirs
//! the same way.

use vstd::prelude::*;
use vstd::utf8::*;

verus! {

/// `String::push` of std: appends one character to the end of the string.
pub assume_specification[ String::push ](s: &mut String, c: char)
    ensures
        final(s)@ == old(s)@.push(c),
;

// ── Characters ─────────────────────────────────────────────────────────────

/// The Unicode `White_Space` property.
pub open spec fn white_space(c: char) -> bool {
    let u = c as u32;
    ||| 0x09 <= u <= 0x0d
    ||| u == 0x20
    ||| u == 0x85
    ||| u == 0xa0
    ||| u == 0x1680
    ||| 0x2000 <= u <= 0x200a
    ||| u == 0x2028
    ||| u == 0x2029
    ||| u == 0x202f
    ||| u == 0x205f
    ||| u == 0x3000
}

/// Whether `c` has the `White_Space` property.
pub fn is_white_space(c: char) -> (r: bool)
    ensures
        r == white_space(c),
{
    let u: u32 = c as u32;
    (0x09 <= u && u <= 0x0d) || u == 0x20 || u == 0x85 || u == 0xa0 || u == 0x1680 || (0x2000 <= u
        && u <= 0x200a) || u == 0x2028 || u == 0x2029 || u == 0x202f || u == 0x205f || u == 0x3000
}

// ── Strings and character vectors ──────────────────────────────────────────

/// The characters of a string.
pub fn chars_of(s: &str) -> (r: Vec<char>)
    ensures
        r@ == s@,
{
    let mut out: Vec<char> = Vec::new();
    for c in it: s.chars()
        invariant
            out@ == it.seq().take(it.index()),
            it.seq() == s@,
    {
        out.push(c);
        assert(it.seq().take(it.index() + 1) =~= it.seq().take(it.index()).push(c));
    }
    assert(out@ =~= s@);
    out
}

/// Whether two strings hold the same characters.
pub fn same(a: &str, b: &str) -> (r: bool)
    ensures
        r == (a@ == b@),
{
    let x = a.to_owned();
    let y = b.to_owned();
    x == y
}

// ── Numbers ────────────────────────────────────────────────────────────────

/// The decimal digit for `d`.
pub open spec fn digit(d: nat) -> char {
    (48 + d) as char
}

/// The decimal numeral of `n`, without leading zeros.
pub open spec fn decimal(n: nat) -> Seq<char>
    decreases n,
{
    if n < 10 {
        seq![digit(n)]
    } else {
        decimal(n / 10).push(digit(n % 10))
    }
}

/// The decimal numeral of an integer, with a minus sign below zero.
pub open spec fn decimal_int(n: int) -> Seq<char> {
    if n < 0 {
        seq!['-'] + decimal((-n) as nat)
    } else {
        decimal(n as nat)
    }
}

/// The decimal numeral of `n` in at least two digits.
pub open spec fn two_digits(n: nat) -> Seq<char> {
    if n < 10 {
        seq!['0'] + decimal(n)
    } else {
        decimal(n)
    }
}

fn digit_char(d: u64) -> (r: char)
    requires
        d < 10,
    ensures
        r == digit(d as nat),
{
    match d {
        0 => '0',
        1 => '1',
        2 => '2',
        3 => '3',
        4 => '4',
        5 => '5',
        6 => '6',
        7 => '7',
        8 => '8',
        _ => '9',
    }
}

/// Appends the decimal numeral of `n`.
pub fn push_decimal(out: &mut String, n: u64)
    ensures
        final(out)@ == old(out)@ + decimal(n as nat),
    decreases n,
{
    if n >= 10 {
        push_decimal(out, n / 10);
    }
    out.push(digit_char(n % 10));
    assert(out@ =~= old(out)@ + decimal(n as nat));
}

/// Appends the decimal numeral of a signed integer.
pub fn push_decimal_int(out: &mut String, n: i64)
    ensures
        final(out)@ == old(out)@ + decimal_int(n as int),
{
    if n >= 0 {
        push_decimal(out, n as u64);
    } else {
        out.push('-');
        let magnitude: u64 = if n == i64::MIN { 9_223_372_036_854_775_808u64 } else { (-n) as u64 };
        push_decimal(out, magnitude);
        assert(out@ =~= old(out)@ + decimal_int(n as int));
    }
}

/// Appends the decimal numeral of `n` in at least two digits.
pub fn push_two_digits(out: &mut String, n: u64)
    ensures
        final(out)@ == old(out)@ + two_digits(n as nat),
{
    if n < 10 {
        out.push('0');
    }
    push_decimal(out, n);
    assert(out@ =~= old(out)@ + two_digits(n as nat));
}

// ── Trimming ───────────────────────────────────────────────────────────────

/// `s` without its leading white space.
pub open spec fn trimmed_start(s: Seq<char>) -> Seq<char>
    decreases s.len(),
{
    if s.len() > 0 && white_space(s[0]) {
        trimmed_start(s.drop_first())
    } else {
        s
    }
}

/// `s` without its trailing white space.
pub open spec fn trimmed_end(s: Seq<char>) -> Seq<char>
    decreases s.len(),
{
    if s.len() > 0 && white_space(s.last()) {
        trimmed_end(s.drop_last())
    } else {
        s
    }
}

/// `s` without white space at either end.
pub open spec fn trimmed(s: Seq<char>) -> Seq<char> {
    trimmed_end(trimmed_start(s))
}

proof fn lemma_trimmed_start_skips(s: Seq<char>, k: int)
    requires
        0 <= k <= s.len(),
        forall|i: int| 0 <= i < k ==> white_space(#[trigger] s[i]),
        k == s.len() || !white_space(s[k]),
    ensures
        trimmed_start(s) == s.skip(k),
    decreases k,
{
    if k > 0 {
        assert(s.drop_first()[k - 1] == s[k] || k == s.len());
        assert forall|i: int| 0 <= i < k - 1 implies white_space(#[trigger] s.drop_first()[i]) by {
            assert(s.drop_first()[i] == s[i + 1]);
        }
        lemma_trimmed_start_skips(s.drop_first(), k - 1);
        assert(s.drop_first().skip(k - 1) =~= s.skip(k));
    } else {
        assert(s.skip(0) =~= s);
    }
}

proof fn lemma_trimmed_end_takes(s: Seq<char>, k: int)
    requires
        0 <= k <= s.len(),
        forall|i: int| k <= i < s.len() ==> white_space(#[trigger] s[i]),
        k == 0 || !white_space(s[k - 1]),
    ensures
        trimmed_end(s) == s.take(k),
    decreases s.len() - k,
{
    if k < s.len() {
        assert(white_space(s.last()));
        lemma_trimmed_end_takes(s.drop_last(), k);
        assert(s.drop_last().take(k) =~= s.take(k));
    } else {
        assert(s.take(k) =~= s);
    }
}

/// Trimming leaves no white space at either end and drops nothing else: what
/// it drops on each side is white space.
pub proof fn trimmed_drops_only_white_space(s: Seq<char>)
    ensures
        trimmed(s).len() > 0 ==> !white_space(trimmed(s)[0]) && !white_space(trimmed(s).last()),
        exists|before: Seq<char>, after: Seq<char>|
            {
                &&& s == #[trigger] (before + trimmed(s) + after)
                &&& forall|i: int| 0 <= i < before.len() ==> white_space(#[trigger] before[i])
                &&& forall|i: int| 0 <= i < after.len() ==> white_space(#[trigger] after[i])
            },
{
    lemma_trimmed_start_splits(s);
    let t = trimmed_start(s);
    lemma_trimmed_end_splits(t);
    let before = s.take(s.len() - t.len());
    let after = t.skip(trimmed_end(t).len() as int);
    assert(s =~= before + trimmed(s) + after);
    if trimmed(s).len() > 0 {
        assert(trimmed(s)[0] == t[0]);
    }
}

proof fn lemma_trimmed_start_splits(s: Seq<char>)
    ensures
        trimmed_start(s).len() <= s.len(),
        trimmed_start(s) == s.skip(s.len() - trimmed_start(s).len()),
        forall|i: int|
            0 <= i < s.len() - trimmed_start(s).len() ==> white_space(
                #[trigger] s.take(s.len() - trimmed_start(s).len())[i],
            ),
        trimmed_start(s).len() > 0 ==> !white_space(trimmed_start(s)[0]),
    decreases s.len(),
{
    if s.len() > 0 && white_space(s[0]) {
        let rest = s.drop_first();
        lemma_trimmed_start_splits(rest);
        let n = s.len() - trimmed_start(s).len();
        assert(rest.skip(n - 1) =~= s.skip(n));
        assert forall|i: int| 0 <= i < n implies white_space(#[trigger] s.take(n)[i]) by {
            if i > 0 {
                assert(s.take(n)[i] == rest.take(n - 1)[i - 1]);
            }
        }
    } else {
        assert(s.skip(0) =~= s);
    }
}

proof fn lemma_trimmed_end_splits(s: Seq<char>)
    ensures
        trimmed_end(s).len() <= s.len(),
        trimmed_end(s) == s.take(trimmed_end(s).len() as int),
        forall|i: int|
            0 <= i < s.len() - trimmed_end(s).len() ==> white_space(
                #[trigger] s.skip(trimmed_end(s).len() as int)[i],
            ),
        trimmed_end(s).len() > 0 ==> !white_space(trimmed_end(s).last()),
    decreases s.len(),
{
    if s.len() > 0 && white_space(s.last()) {
        let rest = s.drop_last();
        lemma_trimmed_end_splits(rest);
        let n = trimmed_end(s).len() as int;
        assert(rest.take(n) =~= s.take(n));
        assert forall|i: int| 0 <= i < s.len() - n implies white_space(#[trigger] s.skip(n)[i]) by {
            if i < s.len() - n - 1 {
                assert(s.skip(n)[i] == rest.skip(n)[i]);
            }
        }
    } else {
        assert(s.take(s.len() as int) =~= s);
    }
}

/// The string without white space at either end.
pub fn trim(s: &str) -> (r: &str)
    ensures
        r@ == trimmed(s@),
{
    let cs = chars_of(s);
    let n: usize = cs.len();
    let mut start: usize = 0;
    while start < n && is_white_space(cs[start])
        invariant
            start <= n,
            n == cs.len(),
            forall|i: int| 0 <= i < start ==> white_space(#[trigger] cs@[i]),
        decreases n - start,
    {
        start += 1;
    }
    let mut end: usize = n;
    while end > start && is_white_space(cs[end - 1])
        invariant
            start <= end <= n,
            n == cs.len(),
            forall|i: int| end <= i < n ==> white_space(#[trigger] cs@[i]),
        decreases end,
    {
        end -= 1;
    }
    proof {
        lemma_trimmed_start_skips(s@, start as int);
        let t = s@.skip(start as int);
        lemma_trimmed_end_takes(t, end - start);
        assert(t.take(end - start) =~= s@.subrange(start as int, end as int));
    }
    s.substring_char(start, end)
}

// ── Searching ──────────────────────────────────────────────────────────────

/// `needle` stands in `hay` at position `i`.
pub open spec fn occurs_at(hay: Seq<char>, needle: Seq<char>, i: int) -> bool {
    0 <= i <= hay.len() - needle.len() && hay.subrange(i, i + needle.len()) == needle
}

/// `needle` stands somewhere in `hay`.
pub open spec fn occurs(hay: Seq<char>, needle: Seq<char>) -> bool {
    exists|i: int| #[trigger] occurs_at(hay, needle, i)
}

/// `s` begins with `prefix`.
pub open spec fn begins_with(s: Seq<char>, prefix: Seq<char>) -> bool {
    occurs_at(s, prefix, 0)
}

/// Whether `needle` stands in `hay` at `at`.
fn matches_at(hay: &Vec<char>, needle: &Vec<char>, at: usize) -> (r: bool)
    requires
        at <= hay.len(),
    ensures
        r == occurs_at(hay@, needle@, at as int),
{
    if needle.len() > hay.len() - at {
        return false;
    }
    let mut k: usize = 0;
    while k < needle.len()
        invariant
            k <= needle.len(),
            at + needle.len() <= hay.len(),
            forall|j: int| 0 <= j < k ==> hay@[at + j] == #[trigger] needle@[j],
        decreases needle.len() - k,
    {
        if hay[at + k] != needle[k] {
            assert(hay@.subrange(at as int, at + needle@.len())[k as int] != needle@[k as int]);
            return false;
        }
        k += 1;
    }
    assert(hay@.subrange(at as int, at + needle@.len()) =~= needle@);
    true
}

/// Whether `s` begins with `prefix`.
pub fn starts_with(s: &str, prefix: &str) -> (r: bool)
    ensures
        r == begins_with(s@, prefix@),
{
    let hay = chars_of(s);
    let needle = chars_of(prefix);
    matches_at(&hay, &needle, 0)
}

/// Whether `needle` stands somewhere in `hay`.
pub fn contains(hay: &str, needle: &str) -> (r: bool)
    ensures
        r == occurs(hay@, needle@),
{
    let h = chars_of(hay);
    let n = chars_of(needle);
    let mut at: usize = 0;
    loop
        invariant
            at <= h.len(),
            h@ == hay@,
            n@ == needle@,
            forall|j: int| 0 <= j < at ==> !#[trigger] occurs_at(h@, n@, j),
        decreases h.len() - at,
    {
        if matches_at(&h, &n, at) {
            return true;
        }
        if at == h.len() {
            return false;
        }
        at += 1;
    }
}

/// Whether the character stands in the string.
pub fn has_char(s: &str, c: char) -> (r: bool)
    ensures
        r == s@.contains(c),
{
    let cs = chars_of(s);
    let mut k: usize = 0;
    while k < cs.len()
        invariant
            k <= cs.len(),
            cs@ == s@,
            forall|j: int| 0 <= j < k ==> #[trigger] cs@[j] != c,
        decreases cs.len() - k,
    {
        if cs[k] == c {
            assert(s@[k as int] == c);
            return true;
        }
        k += 1;
    }
    false
}

/// The string behind `prefix`, if it begins with it.
pub fn strip_prefix<'a>(s: &'a str, prefix: &str) -> (r: Option<&'a str>)
    ensures
        begins_with(s@, prefix@) ==> r is Some && r->0@ == s@.skip(prefix@.len() as int),
        !begins_with(s@, prefix@) ==> r is None,
{
    let hay = chars_of(s);
    let needle = chars_of(prefix);
    if matches_at(&hay, &needle, 0) {
        let r = s.substring_char(needle.len(), hay.len());
        assert(r@ =~= s@.skip(prefix@.len() as int));
        Some(r)
    } else {
        None
    }
}

// ── Taking and joining ─────────────────────────────────────────────────────

/// The first `n` characters, or all of them where there are fewer.
pub open spec fn head(s: Seq<char>, n: nat) -> Seq<char> {
    if n < s.len() {
        s.take(n as int)
    } else {
        s
    }
}

/// The first `n` characters of the string.
pub fn take_chars(s: &str, n: usize) -> (r: &str)
    ensures
        r@ == head(s@, n as nat),
{
    let len: usize = s.unicode_len();
    let end: usize = if n < len { n } else { len };
    let r = s.substring_char(0, end);
    assert(r@ =~= head(s@, n as nat));
    r
}

/// The parts in order, with `sep` between neighbours.
pub open spec fn joined(parts: Seq<Seq<char>>, sep: Seq<char>) -> Seq<char>
    decreases parts.len(),
{
    if parts.len() == 0 {
        seq![]
    } else if parts.len() == 1 {
        parts[0]
    } else {
        joined(parts.drop_last(), sep) + sep + parts.last()
    }
}

/// The views of a vector of strings.
pub open spec fn views(v: Seq<String>) -> Seq<Seq<char>> {
    v.map_values(|s: String| s@)
}

/// The strings in order, with `sep` between neighbours.
pub fn join(parts: &Vec<String>, sep: &str) -> (r: String)
    ensures
        r@ == joined(views(parts@), sep@),
{
    let mut out = String::new();
    let mut k: usize = 0;
    let ghost all = views(parts@);
    while k < parts.len()
        invariant
            k <= parts.len(),
            all == views(parts@),
            out@ == joined(all.take(k as int), sep@),
        decreases parts.len() - k,
    {
        if k > 0 {
            out.append(sep);
        }
        out.append(parts[k].as_str());
        proof {
            let now = all.take(k + 1);
            assert(now.drop_last() =~= all.take(k as int));
            assert(now.last() == parts@[k as int]@);
        }
        k += 1;
    }
    assert(all.take(k as int) =~= all);
    out
}

// ── Lines and words ────────────────────────────────────────────────────────

/// The position of the first line feed, or the length where there is none.
pub open spec fn line_feed_at(s: Seq<char>) -> int
    decreases s.len(),
{
    if s.len() == 0 || s[0] == '\n' {
        0
    } else {
        1 + line_feed_at(s.drop_first())
    }
}

/// A line without the carriage return that ends it.
pub open spec fn without_cr(s: Seq<char>) -> Seq<char> {
    if s.len() > 0 && s.last() == '\r' {
        s.drop_last()
    } else {
        s
    }
}

/// The lines of a text: cut at each line feed, each line without a carriage
/// return in front of its line feed. A text that ends in a line feed has no
/// empty last line.
pub open spec fn lines_of(s: Seq<char>) -> Seq<Seq<char>>
    decreases s.len(),
{
    proof {
        line_feed_at_is_first(s);
    }
    if s.len() == 0 {
        seq![]
    } else if line_feed_at(s) == s.len() {
        seq![s]
    } else {
        seq![without_cr(s.take(line_feed_at(s)))] + lines_of(s.skip(line_feed_at(s) + 1))
    }
}

/// `line_feed_at` finds the first line feed: none stands before it.
pub proof fn line_feed_at_is_first(s: Seq<char>)
    ensures
        0 <= line_feed_at(s) <= s.len(),
        forall|i: int| 0 <= i < line_feed_at(s) ==> #[trigger] s[i] != '\n',
        line_feed_at(s) < s.len() ==> s[line_feed_at(s)] == '\n',
    decreases s.len(),
{
    if s.len() > 0 && s[0] != '\n' {
        line_feed_at_is_first(s.drop_first());
        assert forall|i: int| 0 <= i < line_feed_at(s) implies #[trigger] s[i] != '\n' by {
            if i > 0 {
                assert(s[i] == s.drop_first()[i - 1]);
            }
        }
    }
}

proof fn lemma_line_feed_at_unique(s: Seq<char>, k: int)
    requires
        0 <= k <= s.len(),
        forall|i: int| 0 <= i < k ==> #[trigger] s[i] != '\n',
        k < s.len() ==> s[k] == '\n',
    ensures
        line_feed_at(s) == k,
{
    line_feed_at_is_first(s);
    let f = line_feed_at(s);
    if f < k {
        assert(s[f] != '\n');
    }
    if k < f {
        assert(s[k] != '\n');
    }
}

/// The first line feed of a text is that of any longer text that starts with
/// it.
pub proof fn line_feed_in_longer_text(s: Seq<char>, more: Seq<char>)
    requires
        line_feed_at(s) < s.len(),
    ensures
        line_feed_at(s + more) == line_feed_at(s),
{
    line_feed_at_is_first(s);
    let k = line_feed_at(s);
    assert forall|i: int| 0 <= i < k implies #[trigger] (s + more)[i] != '\n' by {
        assert((s + more)[i] == s[i]);
    }
    lemma_line_feed_at_unique(s + more, k);
}

/// Where the first line feed from `from` on stands, or the length where there
/// is none.
pub fn find_line_feed(cs: &Vec<char>, from: usize) -> (r: usize)
    requires
        from <= cs@.len(),
    ensures
        r == from + line_feed_at(cs@.skip(from as int)),
        from <= r <= cs@.len(),
{
    let mut k: usize = from;
    while k < cs.len() && cs[k] != '\n'
        invariant
            from <= k <= cs@.len(),
            forall|j: int| from <= j < k ==> #[trigger] cs@[j] != '\n',
        decreases cs@.len() - k,
    {
        k += 1;
    }
    proof {
        let rest = cs@.skip(from as int);
        assert forall|i: int| 0 <= i < k - from implies #[trigger] rest[i] != '\n' by {
            assert(rest[i] == cs@[from + i]);
        }
        lemma_line_feed_at_unique(rest, k - from);
    }
    k
}

/// The lines of the text.
pub fn lines(s: &str) -> (r: Vec<String>)
    ensures
        views(r@) == lines_of(s@),
{
    let cs = chars_of(s);
    let mut out: Vec<String> = Vec::new();
    let mut from: usize = 0;
    let mut k: usize = 0;
    assert(s@.skip(0) =~= s@);
    assert(views(out@) + lines_of(s@) =~= lines_of(s@));
    while k < cs.len()
        invariant
            from <= k <= cs.len(),
            cs@ == s@,
            forall|j: int| from <= j < k ==> #[trigger] s@[j] != '\n',
            views(out@) + lines_of(s@.skip(from as int)) == lines_of(s@),
        decreases cs.len() - k,
    {
        if cs[k] == '\n' {
            let ghost rest = s@.skip(from as int);
            let end: usize = if k > from && cs[k - 1] == '\r' { k - 1 } else { k };
            let line = s.substring_char(from, end);
            proof {
                lemma_line_feed_at_unique(rest, k - from);
                assert(rest.take(k - from) =~= s@.subrange(from as int, k as int));
                assert(without_cr(rest.take(k - from)) =~= line@);
                assert(rest.skip(k - from + 1) =~= s@.skip(k + 1));
            }
            let ghost before = views(out@);
            out.push(line.to_owned());
            assert(views(out@) =~= before + seq![line@]);
            assert(lines_of(s@) =~= views(out@) + lines_of(s@.skip(k + 1)));
            from = k + 1;
        }
        k += 1;
    }
    let ghost rest = s@.skip(from as int);
    if from < cs.len() {
        proof {
            lemma_line_feed_at_unique(rest, rest.len() as int);
            assert(s@.subrange(from as int, s@.len() as int) =~= rest);
        }
        let ghost before = views(out@);
        out.push(s.substring_char(from, cs.len()).to_owned());
        assert(views(out@) =~= before + seq![rest]);
    } else {
        proof {
            lemma_line_feed_at_unique(rest, 0);
        }
        assert(views(out@) =~= lines_of(s@));
    }
    out
}

/// A word starts at `i`: no white space there, and none of the same word
/// before it.
pub open spec fn word_starts_at(s: Seq<char>, i: int) -> bool {
    !white_space(s[i]) && (i == 0 || white_space(s[i - 1]))
}

/// The number of words that white space separates.
pub open spec fn words_in(s: Seq<char>) -> nat
    decreases s.len(),
{
    if s.len() == 0 {
        0
    } else {
        words_in(s.drop_last()) + (if word_starts_at(s, s.len() - 1) {
            1nat
        } else {
            0nat
        })
    }
}

/// The number of words that white space separates.
pub fn word_count(s: &str) -> (r: usize)
    ensures
        r == words_in(s@),
{
    let cs = chars_of(s);
    let mut count: usize = 0;
    let mut k: usize = 0;
    while k < cs.len()
        invariant
            k <= cs.len(),
            cs@ == s@,
            count <= k,
            count == words_in(s@.take(k as int)),
        decreases cs.len() - k,
    {
        let starts = !is_white_space(cs[k]) && (k == 0 || is_white_space(cs[k - 1]));
        proof {
            let now = s@.take(k + 1);
            assert(now.drop_last() =~= s@.take(k as int));
            assert(word_starts_at(now, k as int) == starts);
        }
        if starts {
            count += 1;
        }
        k += 1;
    }
    assert(s@.take(k as int) =~= s@);
    count
}

// ── Runs ───────────────────────────────────────────────────────────────────

/// The length of the leading run of positions that `keep` marks.
pub open spec fn run_len(keep: Seq<bool>) -> int
    decreases keep.len(),
{
    if keep.len() == 0 || !keep[0] {
        0
    } else {
        1 + run_len(keep.drop_first())
    }
}

/// The maximal runs of characters at the positions that `keep` marks, in
/// order.
pub open spec fn runs_of(s: Seq<char>, keep: Seq<bool>) -> Seq<Seq<char>>
    decreases s.len(),
{
    proof {
        run_len_is_bounded(keep);
    }
    if s.len() == 0 || s.len() != keep.len() {
        seq![]
    } else if run_len(keep) == 0 {
        runs_of(s.drop_first(), keep.drop_first())
    } else {
        seq![s.take(run_len(keep))] + runs_of(s.skip(run_len(keep)), keep.skip(run_len(keep)))
    }
}

/// A leading run is no longer than the marks.
pub proof fn run_len_is_bounded(keep: Seq<bool>)
    ensures
        0 <= run_len(keep) <= keep.len(),
    decreases keep.len(),
{
    if keep.len() > 0 && keep[0] {
        run_len_is_bounded(keep.drop_first());
    }
}

proof fn lemma_run_len(keep: Seq<bool>, k: int)
    requires
        0 <= k <= keep.len(),
        forall|i: int| 0 <= i < k ==> #[trigger] keep[i],
        k < keep.len() ==> !keep[k],
    ensures
        run_len(keep) == k,
    decreases keep.len(),
{
    if k > 0 {
        assert forall|i: int| 0 <= i < k - 1 implies #[trigger] keep.drop_first()[i] by {
            assert(keep.drop_first()[i] == keep[i + 1]);
        }
        lemma_run_len(keep.drop_first(), k - 1);
    }
}

/// The maximal runs of the characters at the marked positions.
pub fn runs(s: &str, keep: &Vec<bool>) -> (r: Vec<String>)
    requires
        keep@.len() == s@.len(),
    ensures
        views(r@) == runs_of(s@, keep@),
{
    let n: usize = keep.len();
    let mut out: Vec<String> = Vec::new();
    let mut from: usize = 0;
    assert(s@.skip(0) =~= s@ && keep@.skip(0) =~= keep@);
    assert(views(out@) + runs_of(s@, keep@) =~= runs_of(s@, keep@));
    while from < n
        invariant
            from <= n,
            n == keep@.len(),
            n == s@.len(),
            views(out@) + runs_of(s@.skip(from as int), keep@.skip(from as int)) == runs_of(
                s@,
                keep@,
            ),
        decreases n - from,
    {
        let ghost rest = s@.skip(from as int);
        let ghost marks = keep@.skip(from as int);
        if !keep[from] {
            proof {
                lemma_run_len(marks, 0);
                assert(rest.drop_first() =~= s@.skip(from + 1));
                assert(marks.drop_first() =~= keep@.skip(from + 1));
            }
            from += 1;
        } else {
            let mut end: usize = from;
            while end < n && keep[end]
                invariant
                    from <= end <= n,
                    n == keep@.len(),
                    keep@[from as int],
                    forall|i: int| from <= i < end ==> #[trigger] keep@[i],
                decreases n - end,
            {
                end += 1;
            }
            let run = s.substring_char(from, end);
            proof {
                lemma_run_len(marks, end - from);
                assert(rest.take(end - from) =~= run@);
                assert(rest.skip(end - from) =~= s@.skip(end as int));
                assert(marks.skip(end - from) =~= keep@.skip(end as int));
            }
            let ghost before = views(out@);
            out.push(run.to_owned());
            assert(views(out@) =~= before + seq![run@]);
            assert(runs_of(s@, keep@) =~= views(out@) + runs_of(
                s@.skip(end as int),
                keep@.skip(end as int),
            ));
            from = end;
        }
    }
    proof {
        let rest = s@.skip(from as int);
        lemma_run_len(keep@.skip(from as int), 0);
        assert(views(out@) =~= runs_of(s@, keep@));
    }
    out
}

// ── UTF-8 ──────────────────────────────────────────────────────────────────

/// The length of the UTF-8 encoding in bytes.
pub open spec fn bytes_in(s: Seq<char>) -> nat {
    encode_utf8(s).len()
}

/// The length of one character's UTF-8 encoding in bytes.
pub open spec fn width(c: char) -> nat {
    encode_scalar(c as u32).len()
}

/// The longest run of leading characters whose UTF-8 encoding takes at most
/// `max` bytes.
pub open spec fn byte_head(s: Seq<char>, max: int) -> Seq<char>
    decreases s.len(),
{
    if s.len() == 0 || width(s[0]) > max {
        seq![]
    } else {
        seq![s[0]] + byte_head(s.drop_first(), max - width(s[0]))
    }
}

/// The length of the string's UTF-8 encoding in bytes.
pub fn byte_len(s: &str) -> (r: usize)
    ensures
        r == bytes_in(s@),
{
    s.as_bytes().len()
}

fn char_width(c: char) -> (r: usize)
    ensures
        r == width(c),
        1 <= r <= 4,
{
    let u: u32 = c as u32;
    if u <= 0x7f {
        1
    } else if u <= 0x7ff {
        2
    } else if u <= 0xffff {
        3
    } else {
        4
    }
}

/// `byte_head` keeps a prefix that fits; it keeps everything exactly where
/// everything fits, and where it does not, the next character would not fit.
pub proof fn byte_head_is_longest(s: Seq<char>, max: int)
    requires
        0 <= max,
    ensures
        byte_head(s, max).len() <= s.len(),
        byte_head(s, max) == s.take(byte_head(s, max).len() as int),
        bytes_in(byte_head(s, max)) <= max,
        byte_head(s, max) == s <==> bytes_in(s) <= max,
        byte_head(s, max).len() < s.len() ==> bytes_in(byte_head(s, max)) + width(
            s[byte_head(s, max).len() as int],
        ) > max,
    decreases s.len(),
{
    let h = byte_head(s, max);
    if s.len() == 0 || width(s[0]) > max {
        assert(h =~= s.take(0));
        assert(encode_utf8(h) =~= seq![]);
        if s.len() == 0 {
            assert(h =~= s);
        } else {
            assert(encode_utf8(s) == encode_scalar(s[0] as u32) + encode_utf8(s.drop_first()));
        }
    } else {
        let rest = s.drop_first();
        byte_head_is_longest(rest, max - width(s[0]));
        let g = byte_head(rest, max - width(s[0]));
        assert(h.drop_first() =~= g);
        assert(h =~= s.take(h.len() as int));
        assert(encode_utf8(h) == encode_scalar(s[0] as u32) + encode_utf8(g));
        if g == rest {
            assert(h =~= s);
        }
        if h == s {
            assert(g =~= rest);
        }
        if g.len() < rest.len() {
            assert(s[h.len() as int] == rest[g.len() as int]);
        }
    }
}

/// The longest run of leading characters that takes at most `max` bytes.
pub fn take_bytes(s: &str, max: usize) -> (r: &str)
    ensures
        r@ == byte_head(s@, max as int),
{
    let cs = chars_of(s);
    let mut k: usize = 0;
    let mut left: usize = max;
    assert(s@.skip(0) =~= s@);
    assert(s@.take(0) + byte_head(s@, max as int) =~= byte_head(s@, max as int));
    while k < cs.len()
        invariant
            k <= cs.len(),
            cs@ == s@,
            s@.take(k as int) + byte_head(s@.skip(k as int), left as int) == byte_head(
                s@,
                max as int,
            ),
        ensures
            k <= cs.len(),
            s@.take(k as int) == byte_head(s@, max as int),
        decreases cs.len() - k,
    {
        let w: usize = char_width(cs[k]);
        let ghost rest = s@.skip(k as int);
        if w > left {
            assert(s@.take(k as int) + byte_head(rest, left as int) =~= s@.take(k as int));
            break;
        }
        assert(rest.drop_first() =~= s@.skip(k + 1));
        assert(s@.take(k as int) + byte_head(rest, left as int) =~= s@.take(k + 1) + byte_head(
            s@.skip(k + 1),
            left - w,
        ));
        left -= w;
        k += 1;
        if k == cs.len() {
            assert(s@.take(k as int) + byte_head(s@.skip(k as int), left as int) =~= s@.take(
                k as int,
            ));
        }
    }
    let r = s.substring_char(0, k);
    assert(r@ =~= s@.take(k as int));
    r
}

// ── Unicode tables of std ──────────────────────────────────────────────────

/// The lower-case form of a text, as std's Unicode tables give it.
pub uninterp spec fn lowercase(s: Seq<char>) -> Seq<char>;

/// `str::to_lowercase` of std: the lower-case equivalent of the whole string.
/// Claimed: it depends on the string alone, so it has a name.
#[verifier::external_body]
pub(crate) fn to_lowercase(s: &str) -> (r: String)
    ensures
        r@ == lowercase(s@),
{
    s.to_lowercase()
}

/// Whether a character is alphabetic or numeric, as std's Unicode tables say.
pub uninterp spec fn alphanumeric(c: char) -> bool;

/// `char::is_alphanumeric` of std. Claimed: it depends on the character
/// alone, so it has a name.
#[verifier::external_body]
pub(crate) fn is_alphanumeric(c: char) -> (r: bool)
    ensures
        r == alphanumeric(c),
{
    c.is_alphanumeric()
}

/// The text of a byte sequence, with a replacement character for each part
/// that is not UTF-8.
pub uninterp spec fn lossy_text(bytes: Seq<u8>) -> Seq<char>;

/// `String::from_utf8_lossy` of std. Claimed: the text depends on the bytes
/// alone, so it has a name, and bytes that are UTF-8 decode to their text.
#[verifier::external_body]
pub(crate) fn from_utf8_lossy(bytes: &[u8]) -> (r: String)
    ensures
        r@ == lossy_text(bytes@),
        valid_utf8(bytes@) ==> r@ == decode_utf8(bytes@),
{
    String::from_utf8_lossy(bytes).into_owned()
}

// ── Laws ───────────────────────────────────────────────────────────────────

/// Nothing that is printed in ASCII counts as white space, and what separates
/// words and lines there does.
pub proof fn printed_ascii_is_no_white_space(c: char)
    requires
        (c as u32) < 0x80,
    ensures
        0x21 <= c as u32 ==> !white_space(c),
        c == ' ' || c == '\n' || c == '\r' || c == '\t' ==> white_space(c),
        white_space(c) ==> c == ' ' || 0x09 <= c as u32 <= 0x0d,
{
}

/// Trimming takes exactly the white space around a text off it: whatever stands
/// between two white spaces and starts and ends with something else is kept
/// whole.
pub proof fn trimmed_is_what_stands_between(
    before: Seq<char>,
    core: Seq<char>,
    after: Seq<char>,
)
    requires
        forall|i: int| 0 <= i < before.len() ==> white_space(#[trigger] before[i]),
        forall|i: int| 0 <= i < after.len() ==> white_space(#[trigger] after[i]),
        core.len() > 0 ==> !white_space(core[0]) && !white_space(core.last()),
    ensures
        trimmed(before + core + after) == core,
{
    let s = before + core + after;
    if core.len() == 0 {
        assert forall|i: int| 0 <= i < s.len() implies white_space(#[trigger] s[i]) by {
            if i < before.len() {
                assert(s[i] == before[i]);
            } else {
                assert(s[i] == after[i - before.len()]);
            }
        }
        lemma_trimmed_start_skips(s, s.len() as int);
        assert(trimmed(s) =~= core);
    } else {
        assert forall|i: int| 0 <= i < before.len() implies white_space(#[trigger] s[i]) by {
            assert(s[i] == before[i]);
        }
        assert(s[before.len() as int] == core[0]);
        lemma_trimmed_start_skips(s, before.len() as int);
        let t = s.skip(before.len() as int);
        assert(t =~= core + after);
        assert forall|i: int| core.len() <= i < t.len() implies white_space(#[trigger] t[i]) by {
            assert(t[i] == after[i - core.len()]);
        }
        assert(t[core.len() - 1] == core.last());
        lemma_trimmed_end_takes(t, core.len() as int);
        assert(t.take(core.len() as int) =~= core);
    }
}

/// The number that some digits stand for.
pub open spec fn number_of(digits: Seq<char>) -> int
    decreases digits.len(),
{
    if digits.len() == 0 {
        0
    } else {
        10 * number_of(digits.drop_last()) + (digits.last() as int - '0' as int)
    }
}

/// A numeral reads back as its number, is made of digits, and starts with a
/// zero only where it is zero.
pub proof fn numerals_read_back(n: nat)
    ensures
        number_of(decimal(n)) == n,
        decimal(n).len() > 0,
        forall|i: int| 0 <= i < decimal(n).len() ==> '0' <= #[trigger] decimal(n)[i] <= '9',
        decimal(n)[0] == '0' ==> n == 0,
    decreases n,
{
    if n < 10 {
        assert(decimal(n).drop_last() =~= Seq::<char>::empty());
        reveal_with_fuel(number_of, 2);
    } else {
        numerals_read_back(n / 10);
        assert(decimal(n).drop_last() =~= decimal(n / 10));
        assert(decimal(n)[0] == decimal(n / 10)[0]);
        assert forall|i: int| 0 <= i < decimal(n).len() implies '0' <= #[trigger] decimal(n)[i]
            <= '9' by {
            if i < decimal(n).len() - 1 {
                assert(decimal(n)[i] == decimal(n / 10)[i]);
            }
        }
    }
}

/// A clock's numeral reads back as its number, in two digits where they do.
pub proof fn clock_numerals_read_back(n: nat)
    ensures
        number_of(two_digits(n)) == n,
        two_digits(n).len() >= 2,
        n < 100 ==> two_digits(n).len() == 2,
{
    numerals_read_back(n);
    if n < 10 {
        let d = two_digits(n);
        assert(decimal(n).drop_last() =~= Seq::<char>::empty());
        assert(d.drop_last() =~= seq!['0']);
        assert(d.drop_last().drop_last() =~= Seq::<char>::empty());
        reveal_with_fuel(number_of, 3);
    } else {
        numerals_read_back(n / 10);
        if n < 100 {
            assert(decimal(n / 10).len() == 1);
        }
    }
}

/// A line with the line feed that ends it.
pub open spec fn ended_line(line: Seq<char>) -> Seq<char> {
    line.push('\n')
}

/// The lines of a text give it back: no line holds a line feed, and ended by
/// one each they are the text, its last line ended too. (A text with carriage
/// returns loses those in front of its line feeds.)
pub proof fn lines_give_the_text_back(s: Seq<char>)
    requires
        !s.contains('\r'),
    ensures
        lines_of(s).map_values(|line: Seq<char>| ended_line(line)).flatten() == (if s.len() > 0
            && s.last() != '\n' {
            s.push('\n')
        } else {
            s
        }),
        forall|i: int| 0 <= i < lines_of(s).len() ==> !(#[trigger] lines_of(s)[i]).contains('\n'),
    decreases s.len(),
{
    let f = |line: Seq<char>| ended_line(line);
    let all = lines_of(s);
    line_feed_at_is_first(s);
    let k = line_feed_at(s);
    if s.len() == 0 {
        assert(all.map_values(f).flatten() =~= s);
    } else if k == s.len() {
        assert(all.map_values(f) =~= seq![s.push('\n')]);
        all.map_values(f).lemma_flatten_one_element();
        assert(s.last() == s[s.len() - 1]);
        assert(all.map_values(f).flatten() == s.push('\n'));
    } else {
        let first = s.take(k);
        let rest = s.skip(k + 1);
        assert(!rest.contains('\r')) by {
            if rest.contains('\r') {
                let i = choose|i: int| 0 <= i < rest.len() && rest[i] == '\r';
                assert(s[i + k + 1] == '\r');
            }
        }
        if first.len() > 0 {
            assert(first.last() == s[k - 1]);
            assert(s[k - 1] != '\r');
        }
        assert(without_cr(first) == first);
        lines_give_the_text_back(rest);
        assert(all == seq![first] + lines_of(rest));
        assert(all.map_values(f).drop_first() =~= lines_of(rest).map_values(f));
        assert(all.map_values(f).first() == first.push('\n'));
        assert(s =~= first.push('\n') + rest);
        if rest.len() > 0 {
            assert(rest.last() == s.last());
            assert(first.push('\n') + rest.push('\n') =~= s.push('\n'));
        } else {
            assert(s.last() == s[k]);
        }
        assert forall|i: int| 0 <= i < all.len() implies !(#[trigger] all[i]).contains('\n') by {
            if i == 0 {
                if first.contains('\n') {
                    let j = choose|j: int| 0 <= j < first.len() && first[j] == '\n';
                    assert(s[j] == '\n');
                }
            } else {
                assert(all[i] == lines_of(rest)[i - 1]);
            }
        }
    }
    if s.len() > 0 && k == s.len() {
        assert(!s.contains('\n')) by {
            if s.contains('\n') {
                let j = choose|j: int| 0 <= j < s.len() && s[j] == '\n';
                assert(s[j] != '\n');
            }
        }
    }
}

/// Texts joined are all of each of them: what two lists join to is put together
/// by one more separator.
pub proof fn joined_in_two_parts(a: Seq<Seq<char>>, b: Seq<Seq<char>>, sep: Seq<char>)
    requires
        a.len() > 0,
        b.len() > 0,
    ensures
        joined(a + b, sep) == joined(a, sep) + sep + joined(b, sep),
        joined(seq![a[0]], sep) == a[0],
    decreases b.len(),
{
    assert((a + b).drop_last() =~= a + b.drop_last());
    if b.len() == 1 {
        assert(a + b.drop_last() =~= a);
    } else {
        joined_in_two_parts(a, b.drop_last(), sep);
        assert(joined(a + b, sep) =~= joined(a, sep) + sep + joined(b, sep));
    }
}

/// Words are what white space separates: a text on either side of a white space
/// keeps its own words, and a text without any is one word.
pub proof fn white_space_separates_words(a: Seq<char>, c: char, b: Seq<char>)
    requires
        white_space(c),
    ensures
        words_in(a.push(c) + b) == words_in(a) + words_in(b),
        b.len() > 0 && (forall|i: int| 0 <= i < b.len() ==> !white_space(#[trigger] b[i]))
            ==> words_in(b) == 1,
        words_in(Seq::<char>::empty()) == 0,
    decreases b.len(),
{
    if b.len() == 0 {
        assert(a.push(c) + b =~= a.push(c));
        assert(a.push(c).drop_last() =~= a);
    } else {
        let shorter = b.drop_last();
        white_space_separates_words(a, c, shorter);
        let whole = a.push(c) + b;
        assert(whole.drop_last() =~= a.push(c) + shorter);
        assert(whole.last() == b.last());
        assert(word_starts_at(whole, whole.len() - 1) == word_starts_at(b, b.len() - 1)) by {
            if b.len() == 1 {
                assert(whole[whole.len() - 2] == c);
            } else {
                assert(whole[whole.len() - 2] == b[b.len() - 2]);
            }
        }
        if forall|i: int| 0 <= i < b.len() ==> !white_space(#[trigger] b[i]) {
            assert forall|i: int| 0 <= i < shorter.len() implies !white_space(
                #[trigger] shorter[i],
            ) by {
                assert(shorter[i] == b[i]);
            }
            assert(!white_space(b[b.len() - 1]));
            if b.len() == 1 {
                assert(shorter =~= Seq::<char>::empty());
            } else {
                assert(!white_space(b[b.len() - 2]));
            }
        }
    }
}

/// The characters at the marked positions.
pub open spec fn marked(s: Seq<char>, keep: Seq<bool>) -> Seq<char>
    decreases s.len(),
{
    if s.len() == 0 || s.len() != keep.len() {
        seq![]
    } else {
        (if keep[0] {
            seq![s[0]]
        } else {
            seq![]
        }) + marked(s.drop_first(), keep.drop_first())
    }
}

/// Runs hold every marked character once, in order, and nothing else, and none
/// of them is empty.
pub proof fn runs_hold_what_is_marked(s: Seq<char>, keep: Seq<bool>)
    requires
        s.len() == keep.len(),
    ensures
        runs_of(s, keep).flatten() == marked(s, keep),
        forall|i: int| 0 <= i < runs_of(s, keep).len() ==> (#[trigger] runs_of(s, keep)[i]).len()
            > 0,
    decreases s.len(),
{
    let all = runs_of(s, keep);
    run_len_is_bounded(keep);
    let n = run_len(keep);
    if s.len() == 0 {
        assert(all.flatten() =~= marked(s, keep));
    } else if n == 0 {
        runs_hold_what_is_marked(s.drop_first(), keep.drop_first());
        lemma_run_marks(keep);
        assert(!keep[0]);
        assert(marked(s, keep) =~= marked(s.drop_first(), keep.drop_first()));
    } else {
        let (rest, marks) = (s.skip(n), keep.skip(n));
        runs_hold_what_is_marked(rest, marks);
        lemma_marked_run(s, keep);
        assert(all.drop_first() =~= runs_of(rest, marks));
        assert forall|i: int| 0 <= i < all.len() implies (#[trigger] all[i]).len() > 0 by {
            if i > 0 {
                assert(all[i] == runs_of(rest, marks)[i - 1]);
            }
        }
    }
}

proof fn lemma_marked_run(s: Seq<char>, keep: Seq<bool>)
    requires
        s.len() == keep.len(),
    ensures
        0 <= run_len(keep) <= keep.len(),
        marked(s, keep) == s.take(run_len(keep)) + marked(
            s.skip(run_len(keep)),
            keep.skip(run_len(keep)),
        ),
    decreases s.len(),
{
    run_len_is_bounded(keep);
    let n = run_len(keep);
    if n == 0 {
        assert(s.skip(0) =~= s && keep.skip(0) =~= keep);
        assert(s.take(0) + marked(s, keep) =~= marked(s, keep));
    } else {
        let (s1, k1) = (s.drop_first(), keep.drop_first());
        lemma_marked_run(s1, k1);
        assert(s1.skip(n - 1) =~= s.skip(n));
        assert(k1.skip(n - 1) =~= keep.skip(n));
        assert(s.take(n) =~= seq![s[0]] + s1.take(n - 1));
        assert(marked(s, keep) =~= s.take(n) + marked(s.skip(n), keep.skip(n)));
    }
}

/// A run goes as far as the marks do: what follows it is not marked.
pub proof fn runs_are_maximal(s: Seq<char>, keep: Seq<bool>)
    requires
        s.len() == keep.len(),
        s.len() > 0,
        keep[0],
    ensures
        runs_of(s, keep).len() > 0,
        begins_with(s, runs_of(s, keep)[0]),
        ({
            let n = runs_of(s, keep)[0].len() as int;
            &&& forall|i: int| 0 <= i < n ==> #[trigger] keep[i]
            &&& n < keep.len() ==> !keep[n]
        }),
{
    lemma_run_marks(keep);
    let run = runs_of(s, keep)[0];
    assert(run =~= s.take(run_len(keep)));
    assert(s.subrange(0, run.len() as int) =~= run);
}

proof fn lemma_run_marks(keep: Seq<bool>)
    ensures
        0 <= run_len(keep) <= keep.len(),
        forall|i: int| 0 <= i < run_len(keep) ==> #[trigger] keep[i],
        run_len(keep) < keep.len() ==> !keep[run_len(keep)],
    decreases keep.len(),
{
    if keep.len() > 0 && keep[0] {
        let rest = keep.drop_first();
        lemma_run_marks(rest);
        assert forall|i: int| 0 <= i < run_len(keep) implies #[trigger] keep[i] by {
            if i > 0 {
                assert(keep[i] == rest[i - 1]);
            }
        }
        if run_len(keep) < keep.len() {
            assert(keep[run_len(keep)] == rest[run_len(rest)]);
        }
    }
}

/// The head of a text is its beginning, as long as was asked for where there is
/// that much.
pub proof fn heads_are_beginnings(s: Seq<char>, rest: Seq<char>, n: nat)
    ensures
        head(s + rest, s.len()) == s,
        s.len() <= n ==> head(s, n) == s,
        head(s, n).len() <= n,
{
    assert((s + rest).take(s.len() as int) =~= s);
}

/// A character takes one to four bytes, and texts take what their characters
/// do.
pub proof fn bytes_add_up(a: Seq<char>, c: char, b: Seq<char>)
    ensures
        1 <= width(c) <= 4,
        (c as u32) < 0x80 ==> width(c) == 1,
        bytes_in(a + b) == bytes_in(a) + bytes_in(b),
        bytes_in(seq![c]) == width(c),
        a.len() <= bytes_in(a) <= 4 * a.len(),
    decreases a.len(),
{
    assert(encode_utf8(seq![c]) == encode_scalar(c as u32) + encode_utf8(seq![c].drop_first()));
    assert(seq![c].drop_first() =~= Seq::<char>::empty());
    assert(encode_utf8(Seq::<char>::empty()) =~= Seq::<u8>::empty());
    if a.len() == 0 {
        assert(a + b =~= b);
        assert(encode_utf8(a) =~= Seq::<u8>::empty());
    } else {
        bytes_add_up(a.drop_first(), a[0], b);
        assert((a + b).drop_first() =~= a.drop_first() + b);
        assert((a + b)[0] == a[0]);
    }
}

/// A text stands in what it was put into.
pub proof fn parts_occur(before: Seq<char>, part: Seq<char>, after: Seq<char>)
    ensures
        occurs(before + part + after, part),
        occurs_at(before + part + after, part, before.len() as int),
{
    let n = before.len() as int;
    assert((before + part + after).subrange(n, n + part.len()) =~= part);
    assert(occurs_at(before + part + after, part, n));
}

/// A character that is not marked ends a run: what stands before it and what
/// stands behind it keep their own.
pub proof fn unmarked_separates_runs(
    a: Seq<char>,
    ka: Seq<bool>,
    c: char,
    b: Seq<char>,
    kb: Seq<bool>,
)
    requires
        a.len() == ka.len(),
        b.len() == kb.len(),
    ensures
        runs_of(a.push(c) + b, ka.push(false) + kb) == runs_of(a, ka) + runs_of(b, kb),
    decreases a.len(),
{
    let s = a.push(c) + b;
    let keep = ka.push(false) + kb;
    lemma_run_marks(ka);
    let n = run_len(ka);
    assert forall|i: int| 0 <= i < n implies #[trigger] keep[i] by {
        assert(keep[i] == ka[i]);
    }
    assert(n < keep.len() && !keep[n]) by {
        if n < ka.len() {
            assert(keep[n] == ka[n]);
        }
    }
    lemma_run_len(keep, n);
    if a.len() == 0 {
        assert(s.drop_first() =~= b);
        assert(keep.drop_first() =~= kb);
        assert(runs_of(a, ka) + runs_of(b, kb) =~= runs_of(b, kb));
    } else if n == 0 {
        unmarked_separates_runs(a.drop_first(), ka.drop_first(), c, b, kb);
        assert(s.drop_first() =~= a.drop_first().push(c) + b);
        assert(keep.drop_first() =~= ka.drop_first().push(false) + kb);
    } else {
        unmarked_separates_runs(a.skip(n), ka.skip(n), c, b, kb);
        assert(s.skip(n) =~= a.skip(n).push(c) + b);
        assert(keep.skip(n) =~= ka.skip(n).push(false) + kb);
        assert(s.take(n) =~= a.take(n));
        assert(runs_of(s, keep) =~= runs_of(a, ka) + runs_of(b, kb));
    }
}

/// A text that is marked throughout is one run.
pub proof fn marked_throughout_is_one_run(s: Seq<char>, keep: Seq<bool>)
    requires
        s.len() == keep.len(),
        forall|i: int| 0 <= i < keep.len() ==> #[trigger] keep[i],
    ensures
        s.len() > 0 ==> runs_of(s, keep) == seq![s],
        s.len() == 0 ==> runs_of(s, keep) == Seq::<Seq<char>>::empty(),
{
    if s.len() > 0 {
        let n = s.len() as int;
        lemma_run_len(keep, n);
        assert(s.take(n) =~= s);
        assert(runs_of(s.skip(n), keep.skip(n)) =~= Seq::<Seq<char>>::empty());
        assert(runs_of(s, keep) =~= seq![s]);
    }
}

/// What stands in a part stands in the whole.
pub proof fn occurrences_carry_over(whole: Seq<char>, part: Seq<char>, inner: Seq<char>)
    requires
        occurs(whole, part),
        occurs(part, inner),
    ensures
        occurs(whole, inner),
{
    let i = choose|i: int| #[trigger] occurs_at(whole, part, i);
    let j = choose|j: int| #[trigger] occurs_at(part, inner, j);
    assert(whole.subrange(i + j, i + j + inner.len()) =~= part.subrange(j, j + inner.len()));
    assert(occurs_at(whole, inner, i + j));
}

/// Every text that is joined stands in what they are joined to.
pub proof fn joined_texts_occur(parts: Seq<Seq<char>>, sep: Seq<char>, i: int)
    requires
        0 <= i < parts.len(),
    ensures
        occurs(joined(parts, sep), parts[i]),
    decreases parts.len(),
{
    let all = joined(parts, sep);
    let none = Seq::<char>::empty();
    if parts.len() == 1 {
        assert(all =~= none + parts[0] + none);
        parts_occur(none, parts[0], none);
    } else {
        let before = joined(parts.drop_last(), sep);
        if i == parts.len() - 1 {
            assert(all =~= (before + sep) + parts[i] + none);
            parts_occur(before + sep, parts[i], none);
        } else {
            joined_texts_occur(parts.drop_last(), sep, i);
            assert(all =~= none + before + (sep + parts.last()));
            parts_occur(none, before, sep + parts.last());
            occurrences_carry_over(all, before, parts[i]);
        }
    }
}

/// A line ends at its line feed, and the carriage return in front of it is no
/// part of it.
pub proof fn lines_end_at_their_line_feed(line: Seq<char>, rest: Seq<char>)
    requires
        !line.contains('\n'),
    ensures
        lines_of(line + seq!['\r', '\n'] + rest) == seq![line] + lines_of(rest),
        line.len() == 0 || line.last() != '\r' ==> lines_of(line + seq!['\n'] + rest)
            == seq![line] + lines_of(rest),
        line.len() > 0 ==> lines_of(line) == seq![line],
{
    assert forall|i: int| 0 <= i < line.len() implies #[trigger] line[i] != '\n' by {
        assert(line.contains(line[i]));
    }
    let a = line + seq!['\r', '\n'] + rest;
    let n = line.len() as int;
    assert forall|i: int| 0 <= i < n + 1 implies #[trigger] a[i] != '\n' by {
        if i < n {
            assert(a[i] == line[i]);
        }
    }
    lemma_line_feed_at_unique(a, n + 1);
    assert(a.take(n + 1) =~= line.push('\r'));
    assert(line.push('\r').drop_last() =~= line);
    assert(a.skip(n + 2) =~= rest);
    let b = line + seq!['\n'] + rest;
    assert forall|i: int| 0 <= i < n implies #[trigger] b[i] != '\n' by {
        assert(b[i] == line[i]);
    }
    lemma_line_feed_at_unique(b, n);
    assert(b.take(n) =~= line);
    assert(b.skip(n + 1) =~= rest);
    if n > 0 {
        lemma_line_feed_at_unique(line, n);
    }
}

/// A numeral below zero is that of the number above it, behind a minus sign.
pub proof fn signed_numerals_read_back(n: int)
    ensures
        n >= 0 ==> number_of(decimal_int(n)) == n,
        n < 0 ==> decimal_int(n)[0] == '-' && number_of(decimal_int(n).drop_first()) == -n,
{
    if n >= 0 {
        numerals_read_back(n as nat);
    } else {
        numerals_read_back((-n) as nat);
        assert(decimal_int(n).drop_first() =~= decimal((-n) as nat));
    }
}

/// The spaces of other scripts and of typography count as white space too.
pub proof fn typographic_spaces_are_white_space(c: char)
    ensures
        c as u32 == 0x85 || c as u32 == 0xa0 || c as u32 == 0x1680 ==> white_space(c),
        0x2000 <= c as u32 <= 0x200a || c as u32 == 0x2028 || c as u32 == 0x2029 ==> white_space(c),
        c as u32 == 0x202f || c as u32 == 0x205f || c as u32 == 0x3000 ==> white_space(c),
        c as u32 == 0x200b || c as u32 == 0xfeff ==> !white_space(c),
{
}

} // verus!
