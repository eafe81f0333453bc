//! Character-level helpers shared by the query and parsing code.
//!
//! Text is modelled as its sequence of Unicode scalar values (`Seq<char>`).

use vstd::prelude::*;

verus! {

/// The lower-case form of a text, as `str::to_lowercase` of the standard
/// library computes it from the Unicode case mappings.
pub uninterp spec fn lowercase(s: Seq<char>) -> Seq<char>;

/// Whether a character has the Unicode `White_Space` property, as
/// `char::is_whitespace` of the standard library reports it.
pub uninterp spec fn is_whitespace(c: char) -> bool;

/// Calls `str::to_lowercase`; the result is, by definition, the lower-case
/// form of the argument.
#[verifier::external_body]
pub(crate) fn to_lowercase(s: &str) -> (out: String)
    ensures
        out@ == lowercase(s@),
{
    s.to_lowercase()
}

/// Calls `char::is_whitespace`; the result says, by definition, whether the
/// character is white space.
#[verifier::external_body]
pub(crate) fn char_is_whitespace(c: char) -> (b: bool)
    ensures
        b == is_whitespace(c),
{
    c.is_whitespace()
}

/// Collects characters into a `String` with `String::from_iter`; the string
/// holds exactly the given characters, in order.
#[verifier::external_body]
pub(crate) fn string_of(chars: &Vec<char>) -> (out: String)
    ensures
        out@ == chars@,
{
    String::from_iter(chars)
}

/// The characters of `s`, in order.
pub fn chars_of(s: &str) -> (out: Vec<char>)
    ensures
        out@ == s@,
{
    let mut out: Vec<char> = Vec::new();
    for c in it: s.chars()
        invariant
            it.seq() == s@,
            out@ == it.seq().take(it.index()),
    {
        out.push(c);
    }
    out
}

/// Whether two texts hold the same characters.
pub fn same_text(a: &str, b: &str) -> (eq: bool)
    ensures
        eq == (a@ == b@),
{
    let x = chars_of(a);
    let y = chars_of(b);
    same_chars(&x, &y)
}

/// Whether two character vectors are equal.
pub fn same_chars(a: &Vec<char>, b: &Vec<char>) -> (eq: bool)
    ensures
        eq == (a@ == b@),
{
    if a.len() != b.len() {
        return false;
    }
    let mut i: usize = 0;
    while i < a.len()
        invariant
            a.len() == b.len(),
            i <= a.len(),
            a@.take(i as int) == b@.take(i as int),
        decreases a.len() - i,
    {
        if a[i] != b[i] {
            return false;
        }
        assert(a@.take(i + 1) == a@.take(i as int).push(a@[i as int]));
        assert(b@.take(i + 1) == b@.take(i as int).push(b@[i as int]));
        i += 1;
    }
    assert(a@ == a@.take(a.len() as int));
    assert(b@ == b@.take(b.len() as int));
    true
}

/// A set of characters that can be stripped from the ends of a text.
#[derive(Clone, Copy, Debug, PartialEq, Eq, Structural)]
pub enum Strip {
    /// White space.
    WhiteSpace,
    /// The double quote.
    Quotes,
    /// What surrounds a list in the notation of AppleScript: braces, double
    /// quotes and line ends.
    ListMarks,
}

impl Strip {
    /// The character belongs to the set.
    pub open spec fn drops(self, c: char) -> bool {
        match self {
            Strip::WhiteSpace => is_whitespace(c),
            Strip::Quotes => c == '"',
            Strip::ListMarks => c == '{' || c == '}' || c == '"' || c == '\n' || c == '\r',
        }
    }

    /// Whether the character belongs to the set.
    pub fn drops_char(&self, c: char) -> (b: bool)
        ensures
            b == self.drops(c),
    {
        match self {
            Strip::WhiteSpace => char_is_whitespace(c),
            Strip::Quotes => c == '"',
            Strip::ListMarks => c == '{' || c == '}' || c == '"' || c == '\n' || c == '\r',
        }
    }
}

/// `s` without the characters of the set at its start.
pub open spec fn strip_leading(s: Seq<char>, set: Strip) -> Seq<char>
    decreases s.len(),
{
    if s.len() > 0 && set.drops(s[0]) {
        strip_leading(s.drop_first(), set)
    } else {
        s
    }
}

/// `s` without the characters of the set at its end.
pub open spec fn strip_trailing(s: Seq<char>, set: Strip) -> Seq<char>
    decreases s.len(),
{
    if s.len() > 0 && set.drops(s.last()) {
        strip_trailing(s.drop_last(), set)
    } else {
        s
    }
}

/// `s` without the characters of the set at its start and at its end.
pub open spec fn stripped(s: Seq<char>, set: Strip) -> Seq<char> {
    strip_trailing(strip_leading(s, set), set)
}

/// `s` without leading and trailing white space.
pub open spec fn trimmed(s: Seq<char>) -> Seq<char> {
    stripped(s, Strip::WhiteSpace)
}

/// Where the part of `s` starts and ends that is left when the characters
/// of the set are stripped from both ends.
pub fn strip_bounds(s: &Vec<char>, from: usize, to: usize, set: Strip) -> (bounds: (usize, usize))
    requires
        from <= to <= s.len(),
    ensures
        from <= bounds.0 <= bounds.1 <= to,
        s@.subrange(bounds.0 as int, bounds.1 as int) == stripped(
            s@.subrange(from as int, to as int),
            set,
        ),
{
    let ghost whole = s@.subrange(from as int, to as int);
    let mut start: usize = from;
    while start < to && set.drops_char(s[start])
        invariant
            from <= start <= to <= s.len(),
            whole == s@.subrange(from as int, to as int),
            strip_leading(whole, set) == strip_leading(s@.subrange(start as int, to as int), set),
        decreases to - start,
    {
        assert(s@.subrange(start as int, to as int).drop_first() == s@.subrange(
            start + 1,
            to as int,
        ));
        start += 1;
    }
    assert(strip_leading(whole, set) == s@.subrange(start as int, to as int)) by {
        if start < to {
            assert(s@.subrange(start as int, to as int)[0] == s@[start as int]);
        }
    }
    let mut end: usize = to;
    while end > start && set.drops_char(s[end - 1])
        invariant
            from <= start <= end <= to <= s.len(),
            stripped(whole, set) == strip_trailing(s@.subrange(start as int, end as int), set),
        decreases end,
    {
        assert(s@.subrange(start as int, end as int).drop_last() == s@.subrange(
            start as int,
            end - 1,
        ));
        end -= 1;
    }
    assert(stripped(whole, set) == s@.subrange(start as int, end as int)) by {
        if end > start {
            assert(s@.subrange(start as int, end as int).last() == s@[end - 1]);
        }
    }
    (start, end)
}

/// Strips the characters of the set from both ends.
pub fn strip(s: &Vec<char>, set: Strip) -> (out: Vec<char>)
    ensures
        out@ == stripped(s@, set),
{
    assert(s@.subrange(0, s.len() as int) == s@);
    let (start, end) = strip_bounds(s, 0, s.len(), set);
    slice_of(s, start, end)
}

/// Removes leading and trailing white space.
pub fn trim(s: &Vec<char>) -> (out: Vec<char>)
    ensures
        out@ == trimmed(s@),
{
    strip(s, Strip::WhiteSpace)
}

/// The characters of `s` from position `from` up to, not including, `to`.
pub fn slice_of(s: &Vec<char>, from: usize, to: usize) -> (out: Vec<char>)
    requires
        from <= to <= s.len(),
    ensures
        out@ == s@.subrange(from as int, to as int),
{
    let mut out: Vec<char> = Vec::new();
    let mut i: usize = from;
    while i < to
        invariant
            from <= i <= to <= s.len(),
            out@ == s@.subrange(from as int, i as int),
        decreases to - i,
    {
        out.push(s[i]);
        assert(s@.subrange(from as int, i + 1) == s@.subrange(from as int, i as int).push(
            s@[i as int],
        ));
        i += 1;
    }
    out
}

/// `needle` occurs in `hay` at position `at`.
pub open spec fn occurs_at(hay: Seq<char>, needle: Seq<char>, at: int) -> bool {
    0 <= at && at + needle.len() <= hay.len() && hay.subrange(at, at + needle.len()) == needle
}

/// `needle` occurs somewhere in `hay` as a contiguous run of characters.
pub open spec fn is_infix(needle: Seq<char>, hay: Seq<char>) -> bool {
    exists|at: int| occurs_at(hay, needle, at)
}

/// Whether `needle` occurs in `hay` at position `at`.
pub fn matches_at(hay: &Vec<char>, needle: &Vec<char>, at: usize) -> (b: bool)
    requires
        at + needle.len() <= hay.len(),
    ensures
        b == occurs_at(hay@, needle@, at as int),
{
    let mut k: usize = 0;
    while k < needle.len()
        invariant
            at + needle.len() <= hay.len(),
            k <= needle.len(),
            hay@.subrange(at as int, at + k) == needle@.take(k as int),
        decreases needle.len() - k,
    {
        if hay[at + k] != needle[k] {
            assert(hay@.subrange(at as int, at + needle.len())[k as int] != needle@[k as int]);
            return false;
        }
        assert(hay@.subrange(at as int, at + k + 1) == hay@.subrange(at as int, at + k).push(
            hay@[at + k],
        ));
        assert(needle@.take(k + 1) == needle@.take(k as int).push(needle@[k as int]));
        k += 1;
    }
    assert(needle@.take(needle.len() as int) == needle@);
    true
}

/// Where `needle` first occurs in `hay` at or after `from`, if it occurs
/// there at all.
pub open spec fn occurrence_from(hay: Seq<char>, needle: Seq<char>, from: int) -> Option<int>
    decreases hay.len() - from + 1,
{
    if from < 0 || from + needle.len() > hay.len() {
        None
    } else if occurs_at(hay, needle, from) {
        Some(from)
    } else {
        occurrence_from(hay, needle, from + 1)
    }
}

/// Where `needle` first occurs in `hay`.
pub open spec fn first_occurrence(hay: Seq<char>, needle: Seq<char>) -> Option<int> {
    occurrence_from(hay, needle, 0)
}

/// The first occurrence at or after `from` is an occurrence with none
/// between `from` and it; where there is none, `needle` does not occur from
/// `from` on.
pub proof fn lemma_occurrence_from(hay: Seq<char>, needle: Seq<char>, from: int)
    requires
        0 <= from,
    ensures
        match occurrence_from(hay, needle, from) {
            Some(p) => from <= p && occurs_at(hay, needle, p) && forall|q: int|
                from <= q < p ==> !occurs_at(hay, needle, q),
            None => forall|q: int| from <= q ==> !occurs_at(hay, needle, q),
        },
    decreases hay.len() - from + 1,
{
    if from + needle.len() <= hay.len() && !occurs_at(hay, needle, from) {
        lemma_occurrence_from(hay, needle, from + 1);
    }
}

/// Position of the first occurrence of `needle` in `hay` at or after
/// `from`, if there is one.
pub fn find_from(hay: &Vec<char>, needle: &Vec<char>, from: usize) -> (pos: Option<usize>)
    ensures
        match pos {
            Some(p) => occurrence_from(hay@, needle@, from as int) == Some(p as int),
            None => occurrence_from(hay@, needle@, from as int) is None,
        },
{
    if needle.len() > hay.len() || from > hay.len() - needle.len() {
        return None;
    }
    let last: usize = hay.len() - needle.len();
    let mut at: usize = from;
    loop
        invariant
            last == hay.len() - needle.len(),
            needle.len() <= hay.len(),
            from <= at <= last,
            occurrence_from(hay@, needle@, from as int) == occurrence_from(
                hay@,
                needle@,
                at as int,
            ),
        decreases last - at,
    {
        if matches_at(hay, needle, at) {
            return Some(at);
        }
        if at == last {
            return None;
        }
        at += 1;
    }
}

/// Position of the first occurrence of `needle` in `hay`, if there is one.
pub fn find(hay: &Vec<char>, needle: &Vec<char>) -> (pos: Option<usize>)
    ensures
        match pos {
            Some(p) => first_occurrence(hay@, needle@) == Some(p as int) && occurs_at(
                hay@,
                needle@,
                p as int,
            ) && forall|q: int| 0 <= q < p ==> !occurs_at(hay@, needle@, q),
            None => first_occurrence(hay@, needle@) is None && !is_infix(needle@, hay@),
        },
{
    proof {
        lemma_occurrence_from(hay@, needle@, 0);
    }
    find_from(hay, needle, 0)
}

/// Whether `needle` occurs in `hay`.
pub fn contains(hay: &Vec<char>, needle: &Vec<char>) -> (b: bool)
    ensures
        b == is_infix(needle@, hay@),
{
    find(hay, needle).is_some()
}

/// `a` sorts strictly before `b` when texts are compared character by
/// character, a proper prefix sorting before its extensions.
pub open spec fn text_less(a: Seq<char>, b: Seq<char>) -> bool
    decreases a.len(),
{
    if b.len() == 0 {
        false
    } else if a.len() == 0 {
        true
    } else if a[0] != b[0] {
        a[0] < b[0]
    } else {
        text_less(a.drop_first(), b.drop_first())
    }
}

/// Whether `a` sorts strictly before `b`.
pub fn less_than(a: &Vec<char>, b: &Vec<char>) -> (lt: bool)
    ensures
        lt == text_less(a@, b@),
{
    let mut i: usize = 0;
    assert(a@.skip(0) == a@ && b@.skip(0) == b@);
    while i < a.len() && i < b.len()
        invariant
            i <= a.len(),
            i <= b.len(),
            text_less(a@, b@) == text_less(a@.skip(i as int), b@.skip(i as int)),
        decreases a.len() - i,
    {
        if a[i] != b[i] {
            return a[i] < b[i];
        }
        assert(a@.skip(i as int).drop_first() == a@.skip(i + 1));
        assert(b@.skip(i as int).drop_first() == b@.skip(i + 1));
        i += 1;
    }
    i < b.len()
}

} // verus!
