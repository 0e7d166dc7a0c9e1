//! Searching, splitting and trimming of text, as sequences of characters.

use vstd::prelude::*;

verus! {

/// `pat` stands in `text` at position `i`.
pub open spec fn occurs_at(text: Seq<char>, pat: Seq<char>, i: int) -> bool {
    &&& 0 <= i
    &&& i + pat.len() <= text.len()
    &&& text.subrange(i, i + pat.len()) == pat
}

/// `pat` stands in `text` somewhere.
pub open spec fn contains(text: Seq<char>, pat: Seq<char>) -> bool {
    exists|i: int| occurs_at(text, pat, i)
}

/// `i` is the leftmost position at which `pat` stands in `text`.
pub open spec fn first_at(text: Seq<char>, pat: Seq<char>, i: int) -> bool {
    &&& occurs_at(text, pat, i)
    &&& forall|j: int| 0 <= j < i ==> !occurs_at(text, pat, j)
}

/// The leftmost position of `pat` in `text`, if there is one.
pub open spec fn first_occurrence(text: Seq<char>, pat: Seq<char>) -> Option<int> {
    if contains(text, pat) {
        Some(choose|i: int| first_at(text, pat, i))
    } else {
        None
    }
}

/// Every occurrence has a leftmost one at or before it.
proof fn lemma_leftmost_exists(text: Seq<char>, pat: Seq<char>, i: int)
    requires
        occurs_at(text, pat, i),
    ensures
        exists|k: int| k <= i && first_at(text, pat, k),
    decreases i,
{
    if exists|j: int| 0 <= j < i && occurs_at(text, pat, j) {
        let j = choose|j: int| 0 <= j < i && occurs_at(text, pat, j);
        lemma_leftmost_exists(text, pat, j);
    } else {
        assert(first_at(text, pat, i));
    }
}

/// A text that holds the pattern has a first occurrence, and it is leftmost.
pub proof fn lemma_first_occurrence(text: Seq<char>, pat: Seq<char>)
    ensures
        match first_occurrence(text, pat) {
            Some(i) => first_at(text, pat, i),
            None => forall|i: int| !occurs_at(text, pat, i),
        },
{
    if contains(text, pat) {
        let i = choose|i: int| occurs_at(text, pat, i);
        lemma_leftmost_exists(text, pat, i);
    }
}

/// There is only one leftmost position.
pub proof fn lemma_first_at_unique(text: Seq<char>, pat: Seq<char>, i: int)
    requires
        first_at(text, pat, i),
    ensures
        first_occurrence(text, pat) == Some(i),
{
    lemma_first_occurrence(text, pat);
    let k = first_occurrence(text, pat)->0;
    assert(k == i) by {
        if k < i {
            assert(!occurs_at(text, pat, k));
        } else if i < k {
            assert(!occurs_at(text, pat, i));
        }
    }
}

/// The first `n` characters of both texts are the same.
pub open spec fn same_start(a: Seq<char>, b: Seq<char>, n: int) -> bool {
    forall|i: int| 0 <= i < n ==> a[i] == b[i]
}

/// The texts are the same up to position `k`, where `a` ends or has the lesser
/// character.
pub open spec fn less_at(a: Seq<char>, b: Seq<char>, k: int) -> bool {
    &&& 0 <= k <= a.len()
    &&& k < b.len()
    &&& same_start(a, b, k)
    &&& k < a.len() ==> a[k] < b[k]
}

/// `a` comes before `b` where texts are sorted by their characters.
pub open spec fn sorts_before(a: Seq<char>, b: Seq<char>) -> bool {
    exists|k: int| less_at(a, b, k)
}

/// The characters of `s`, one by one.
pub fn chars_of(s: &str) -> (chars: Vec<char>)
    ensures
        chars@ == s@,
{
    let mut chars: Vec<char> = Vec::new();
    for c in iter: s.chars()
        invariant
            iter.seq() == s@,
            chars@ == s@.take(iter.index() as int),
    {
        chars.push(c);
    }
    chars
}

/// Whether `pat` stands in `text` at position `at`.
fn matches_at(text: &[char], pat: &[char], at: usize) -> (r: bool)
    requires
        at + pat@.len() <= text@.len(),
    ensures
        r == occurs_at(text@, pat@, at as int),
{
    let size: usize = text.len();
    let mut k: usize = 0;
    while k < pat.len()
        invariant
            k <= pat@.len(),
            at + pat@.len() <= text@.len(),
            size == text@.len(),
            forall|j: int| 0 <= j < k ==> text@[at + j] == pat@[j],
        decreases pat@.len() - k,
    {
        if text[at + k] != pat[k] {
            assert(text@.subrange(at as int, at + pat@.len())[k as int] != pat@[k as int]);
            return false;
        }
        k += 1;
    }
    assert(text@.subrange(at as int, at + pat@.len()) =~= pat@);
    true
}

/// The leftmost position of `pat` in `text`.
pub fn find(text: &[char], pat: &[char]) -> (r: Option<usize>)
    ensures
        match first_occurrence(text@, pat@) {
            Some(i) => r matches Some(at) && at == i,
            None => r is None,
        },
{
    proof {
        lemma_first_occurrence(text@, pat@);
    }
    if pat.len() > text.len() {
        return None;
    }
    let last: usize = text.len() - pat.len();
    let mut at: usize = 0;
    loop
        invariant
            at <= last,
            last == text@.len() - pat@.len(),
            forall|j: int| 0 <= j < at ==> !occurs_at(text@, pat@, j),
        decreases last - at,
    {
        if matches_at(text, pat, at) {
            proof {
                lemma_first_at_unique(text@, pat@, at as int);
            }
            return Some(at);
        }
        if at == last {
            assert forall|j: int| !occurs_at(text@, pat@, j) by {}
            return None;
        }
        at += 1;
    }
}

/// The characters of Unicode's `White_Space` property.
pub open spec fn is_white_space(c: char) -> bool {
    ||| 0x09 <= c as u32 <= 0x0d
    ||| c as u32 == 0x20
    ||| c as u32 == 0x85
    ||| c as u32 == 0xa0
    ||| c as u32 == 0x1680
    ||| 0x2000 <= c as u32 <= 0x200a
    ||| c as u32 == 0x2028
    ||| c as u32 == 0x2029
    ||| c as u32 == 0x202f
    ||| c as u32 == 0x205f
    ||| c as u32 == 0x3000
}

/// Whether `c` has Unicode's `White_Space` property.
pub fn white_space(c: char) -> (r: bool)
    ensures
        r == is_white_space(c),
{
    let code: u32 = c as u32;
    (0x09 <= code && code <= 0x0d) || code == 0x20 || code == 0x85 || code == 0xa0 || code == 0x1680
        || (0x2000 <= code && code <= 0x200a) || code == 0x2028 || code == 0x2029 || code == 0x202f
        || code == 0x205f || code == 0x3000
}

/// `s` from its first character on that is no white space.
pub open spec fn trim_start(s: Seq<char>) -> Seq<char>
    decreases s.len(),
{
    if s.len() > 0 && is_white_space(s[0]) {
        trim_start(s.skip(1))
    } else {
        s
    }
}

/// `s` up to its last character that is no white space.
pub open spec fn trim_end(s: Seq<char>) -> Seq<char>
    decreases s.len(),
{
    if s.len() > 0 && is_white_space(s.last()) {
        trim_end(s.drop_last())
    } else {
        s
    }
}

/// `s` without the white space at either end.
pub open spec fn trimmed(s: Seq<char>) -> Seq<char> {
    trim_end(trim_start(s))
}

/// The bounds of what is left of `text[from..to]` without the white space at either end.
pub fn trim_bounds(text: &[char], from: usize, to: usize) -> (r: (usize, usize))
    requires
        from <= to <= text@.len(),
    ensures
        from <= r.0 <= r.1 <= to,
        text@.subrange(r.0 as int, r.1 as int) == trimmed(text@.subrange(from as int, to as int)),
{
    let mut lo: usize = from;
    while lo < to && white_space(text[lo])
        invariant
            from <= lo <= to <= text@.len(),
            trim_start(text@.subrange(lo as int, to as int)) == trim_start(
                text@.subrange(from as int, to as int),
            ),
        ensures
            from <= lo <= to,
            text@.subrange(lo as int, to as int) == trim_start(
                text@.subrange(from as int, to as int),
            ),
        decreases to - lo,
    {
        assert(text@.subrange(lo as int, to as int).skip(1) =~= text@.subrange(
            lo + 1,
            to as int,
        ));
        lo += 1;
    }
    let mut hi: usize = to;
    while lo < hi && white_space(text[hi - 1])
        invariant
            lo <= hi <= to <= text@.len(),
            trim_end(text@.subrange(lo as int, hi as int)) == trim_end(
                text@.subrange(lo as int, to as int),
            ),
        ensures
            lo <= hi <= to,
            text@.subrange(lo as int, hi as int) == trim_end(
                text@.subrange(lo as int, to as int),
            ),
        decreases hi - lo,
    {
        assert(text@.subrange(lo as int, hi as int).drop_last() =~= text@.subrange(
            lo as int,
            hi - 1,
        ));
        hi -= 1;
    }
    (lo, hi)
}

/// The length of the text before the first line feed, or of all of it.
pub open spec fn line_length(text: Seq<char>) -> nat
    decreases text.len(),
{
    if text.len() == 0 || text[0] == '\n' {
        0
    } else {
        1 + line_length(text.skip(1))
    }
}

/// A line without the carriage return that stood before its line feed.
pub open spec fn without_return(line: Seq<char>) -> Seq<char> {
    if line.len() > 0 && line.last() == '\r' {
        line.drop_last()
    } else {
        line
    }
}

/// The lines of a text. A line ends in a line feed, or in a carriage return and
/// a line feed; after the last line either may be missing.
pub open spec fn lines(text: Seq<char>) -> Seq<Seq<char>>
    decreases text.len(),
{
    if text.len() == 0 {
        seq![]
    } else if line_length(text) < text.len() {
        seq![without_return(text.take(line_length(text) as int))] + lines(
            text.skip(line_length(text) as int + 1),
        )
    } else {
        seq![text]
    }
}

/// Where the line that starts at `from` has its line feed, or the text its end.
pub fn line_feed(text: &[char], from: usize) -> (r: usize)
    requires
        from <= text@.len(),
    ensures
        from <= r <= text@.len(),
        r == from + line_length(text@.skip(from as int)),
        r < text@.len() ==> text@[r as int] == '\n',
{
    let mut at: usize = from;
    while at < text.len() && text[at] != '\n'
        invariant
            from <= at <= text@.len(),
            from + line_length(text@.skip(from as int)) == at + line_length(text@.skip(at as int)),
        decreases text@.len() - at,
    {
        assert(text@.skip(at as int).skip(1) =~= text@.skip(at + 1));
        at += 1;
    }
    at
}

/// A first occurrence is where the text first goes on with the pattern, and there
/// is none if and only if the text goes on with the pattern nowhere.
pub proof fn law_first_occurrence_is_leftmost(text: Seq<char>, pat: Seq<char>)
    ensures
        match first_occurrence(text, pat) {
            Some(i) => {
                &&& 0 <= i <= text.len()
                &&& pat.is_prefix_of(text.skip(i))
                &&& forall|j: int| 0 <= j < i ==> !pat.is_prefix_of(#[trigger] text.skip(j))
            },
            None => forall|j: int|
                0 <= j <= text.len() ==> !pat.is_prefix_of(#[trigger] text.skip(j)),
        },
{
    lemma_first_occurrence(text, pat);
    assert forall|j: int| 0 <= j <= text.len() implies occurs_at(text, pat, j)
        == pat.is_prefix_of(#[trigger] text.skip(j)) by {
        lemma_occurs_at(text, pat, j);
    }
}

/// A pattern stands where the text goes on with it.
pub(crate) proof fn lemma_occurs_at(text: Seq<char>, pat: Seq<char>, j: int)
    requires
        0 <= j <= text.len(),
    ensures
        occurs_at(text, pat, j) == pat.is_prefix_of(text.skip(j)),
{
    if j + pat.len() <= text.len() {
        assert(text.skip(j).subrange(0, pat.len() as int) =~= text.subrange(j, j + pat.len()));
    }
}

/// A text holds a pattern if and only if it goes on with the pattern somewhere.
pub proof fn law_contains_is_somewhere(text: Seq<char>, pat: Seq<char>)
    ensures
        contains(text, pat) <==> exists|j: int|
            0 <= j <= text.len() && pat.is_prefix_of(#[trigger] text.skip(j)),
{
    law_first_occurrence_is_leftmost(text, pat);
    if contains(text, pat) {
        let j = first_occurrence(text, pat)->0;
        assert(pat.is_prefix_of(text.skip(j)));
    }
}

/// The white space of Unicode is these twenty-five characters.
pub proof fn law_white_space_is_that_of_unicode(c: char)
    ensures
        is_white_space(c) <==> (c == '\t' || c == '\n' || c == '\u{b}' || c == '\u{c}' || c == '\r'
            || c == ' ' || c == '\u{85}' || c == '\u{a0}' || c == '\u{1680}' || c == '\u{2000}' || c
            == '\u{2001}' || c == '\u{2002}' || c == '\u{2003}' || c == '\u{2004}' || c
            == '\u{2005}' || c == '\u{2006}' || c == '\u{2007}' || c == '\u{2008}' || c
            == '\u{2009}' || c == '\u{200a}' || c == '\u{2028}' || c == '\u{2029}' || c
            == '\u{202f}' || c == '\u{205f}' || c == '\u{3000}'),
{
}

/// What is left of a text at its start is what stands behind its first white space.
proof fn lemma_trim_start_bounds(s: Seq<char>, lo: int)
    requires
        0 <= lo <= s.len(),
        forall|i: int| 0 <= i < lo ==> is_white_space(#[trigger] s[i]),
        lo < s.len() ==> !is_white_space(s[lo]),
    ensures
        trim_start(s) == s.skip(lo),
    decreases lo,
{
    if lo > 0 {
        assert(is_white_space(s[0]));
        let t = s.skip(1);
        assert forall|i: int| 0 <= i < lo - 1 implies is_white_space(#[trigger] t[i]) by {
            assert(t[i] == s[i + 1]);
        }
        lemma_trim_start_bounds(t, lo - 1);
        assert(t.skip(lo - 1) =~= s.skip(lo));
    } else {
        assert(s.skip(0) =~= s);
    }
}

/// What is left of a text at its end is what stands before its last white space.
proof fn lemma_trim_end_bounds(s: Seq<char>, hi: int)
    requires
        0 <= hi <= s.len(),
        forall|i: int| hi <= i < s.len() ==> is_white_space(#[trigger] s[i]),
        hi > 0 ==> !is_white_space(s[hi - 1]),
    ensures
        trim_end(s) == s.take(hi),
    decreases s.len(),
{
    if hi < s.len() {
        assert(is_white_space(s[s.len() - 1]));
        lemma_trim_end_bounds(s.drop_last(), hi);
        assert(s.drop_last().take(hi) =~= s.take(hi));
    } else {
        assert(s.take(hi) =~= s);
    }
}

/// Trimming leaves what stands between the white space at either end: whatever
/// surrounds a text of white space only, the text comes out if it neither starts
/// nor ends with white space.
pub proof fn law_trimming_takes_white_space_at_the_ends(
    before: Seq<char>,
    text: Seq<char>,
    after: Seq<char>,
)
    requires
        forall|i: int| 0 <= i < before.len() ==> is_white_space(#[trigger] before[i]),
        forall|i: int| 0 <= i < after.len() ==> is_white_space(#[trigger] after[i]),
        text.len() > 0 ==> !is_white_space(text[0]) && !is_white_space(text.last()),
    ensures
        trimmed(before + text + after) == text,
{
    let s = before + text + after;
    let lo = if text.len() > 0 {
        before.len() as int
    } else {
        s.len() as int
    };
    assert forall|i: int| 0 <= i < lo implies is_white_space(#[trigger] s[i]) by {
        if i < before.len() {
            assert(s[i] == before[i]);
        } else {
            assert(s[i] == after[i - before.len()]);
        }
    }
    lemma_trim_start_bounds(s, lo);
    let rest = s.skip(lo);
    if text.len() > 0 {
        assert(rest =~= text + after);
        let hi = text.len() as int;
        assert forall|i: int| hi <= i < rest.len() implies is_white_space(#[trigger] rest[i]) by {
            assert(rest[i] == after[i - hi]);
        }
        lemma_trim_end_bounds(rest, hi);
        assert(rest.take(hi) =~= text);
    } else {
        assert(rest =~= text);
    }
}

/// A line goes up to the first line feed, or to the end of the text.
pub proof fn law_line_ends_at_the_first_feed(text: Seq<char>)
    ensures
        ({
            let n = line_length(text) as int;
            &&& n <= text.len()
            &&& n < text.len() ==> text[n] == '\n'
            &&& forall|i: int| 0 <= i < n ==> text[i] != '\n'
        }),
    decreases text.len(),
{
    if text.len() > 0 && text[0] != '\n' {
        let rest = text.skip(1);
        law_line_ends_at_the_first_feed(rest);
        let n = line_length(text) as int;
        assert forall|i: int| 0 <= i < n implies text[i] != '\n' by {
            if i > 0 {
                assert(text[i] == rest[i - 1]);
            }
        }
    }
}

/// A line is what stands before a line feed, without a carriage return right before
/// it, and the lines of what follows come after it. What is left at the end without
/// a line feed is a line as it is, and an empty text has no line.
pub proof fn law_lines_are_split_at_feeds(line: Seq<char>, rest: Seq<char>)
    requires
        forall|i: int| 0 <= i < line.len() ==> line[i] != '\n',
    ensures
        line.len() > 0 && line.last() == '\r' ==> lines(line + seq!['\n'] + rest) == seq![
            line.drop_last(),
        ] + lines(rest),
        !(line.len() > 0 && line.last() == '\r') ==> lines(line + seq!['\n'] + rest) == seq![line]
            + lines(rest),
        line.len() > 0 ==> lines(line) == seq![line],
        lines(Seq::empty()) == Seq::<Seq<char>>::empty(),
{
    let text = line + seq!['\n'] + rest;
    let n = line.len() as int;
    law_line_ends_at_the_first_feed(text);
    law_line_ends_at_the_first_feed(line);
    let m = line_length(text) as int;
    assert(m == n) by {
        if m < n {
            assert(text[m] == line[m]);
        } else if n < m {
            assert(text[n] == '\n');
        }
    }
    assert(text.take(n) =~= line);
    assert(text.skip(n + 1) =~= rest);
}

} // verus!
