//! Character-level helpers shared by the parsers of this crate.
//!
//! Specifications speak of a string through its view, the sequence of its
//! characters. The executable helpers turn a string into a vector of
//! characters once and search that.

use vstd::prelude::*;
use vstd::string::StrSliceExecFns;
use vstd::utf8::{encode_utf8, encode_utf8_decode_utf8};

verus! {

/// Whether `needle` stands in `s` starting at position `i`.
pub open spec fn occurs_at(s: Seq<char>, needle: Seq<char>, i: int) -> bool {
    &&& 0 <= i
    &&& i + needle.len() <= s.len()
    &&& s.subrange(i, i + needle.len()) == needle
}

/// Whether `needle` stands somewhere in `s`.
pub open spec fn contains_text(s: Seq<char>, needle: Seq<char>) -> bool {
    exists|i: int| occurs_at(s, needle, i)
}

/// The least position at or after `from` at which `needle` stands in `s`,
/// or `s.len()` where there is none before the end.
pub open spec fn first_match(s: Seq<char>, needle: Seq<char>, from: int) -> int
    decreases s.len() - from,
{
    if from >= s.len() {
        s.len() as int
    } else if occurs_at(s, needle, from) {
        from
    } else {
        first_match(s, needle, from + 1)
    }
}

/// `s` up to the first `stop`, or all of `s` where it holds none.
pub open spec fn before_first(s: Seq<char>, stop: Seq<char>) -> Seq<char> {
    s.take(first_match(s, stop, 0))
}

/// `s` without one leading slash, where it has one.
pub open spec fn without_leading_slash(s: Seq<char>) -> Seq<char> {
    if s.len() > 0 && s[0] == '/' {
        s.skip(1)
    } else {
        s
    }
}

/// The ASCII lower-case form of `c`: `A` to `Z` become `a` to `z`, every
/// other character stays.
pub open spec fn ascii_lower(c: char) -> char {
    if 'A' <= c && c <= 'Z' {
        (((c as u8) + 32) as u8) as char
    } else {
        c
    }
}

/// `s` with each character in its ASCII lower-case form.
pub open spec fn ascii_lowercase(s: Seq<char>) -> Seq<char> {
    Seq::new(s.len(), |i: int| ascii_lower(s[i]))
}

/// `first_match` finds the first occurrence and skips none.
pub proof fn lemma_first_match(s: Seq<char>, needle: Seq<char>, from: int)
    requires
        0 <= from,
    ensures
        from <= s.len() ==> from <= first_match(s, needle, from) <= s.len(),
        from > s.len() ==> first_match(s, needle, from) == s.len(),
        first_match(s, needle, from) < s.len() ==> occurs_at(
            s,
            needle,
            first_match(s, needle, from),
        ),
        forall|j: int| from <= j < first_match(s, needle, from) ==> !occurs_at(s, needle, j),
    decreases s.len() - from,
{
    if from < s.len() && !occurs_at(s, needle, from) {
        lemma_first_match(s, needle, from + 1);
    }
}

/// A needle that is not empty stands in `s` exactly where `first_match`
/// from the start stops before the end.
pub proof fn lemma_contains_text(s: Seq<char>, needle: Seq<char>)
    requires
        needle.len() > 0,
    ensures
        contains_text(s, needle) <==> first_match(s, needle, 0) < s.len(),
{
    lemma_first_match(s, needle, 0);
}

/// What stands before the first `c` is a prefix of the text and holds no
/// `c`; it is the whole text exactly where the text holds no `c`.
pub proof fn lemma_before_first_char(s: Seq<char>, c: char)
    ensures
        before_first(s, seq![c]).is_prefix_of(s),
        forall|j: int| 0 <= j < before_first(s, seq![c]).len() ==> before_first(s, seq![c])[j] != c,
        before_first(s, seq![c]) == s <==> !s.contains(c),
{
    let stop = seq![c];
    let cut = first_match(s, stop, 0);
    lemma_first_match(s, stop, 0);
    assert forall|j: int| 0 <= j < s.len() implies occurs_at(s, stop, j) == (s[j] == c) by {
        if s[j] == c {
            assert(s.subrange(j, j + 1) =~= stop);
        } else {
            assert(s.subrange(j, j + 1)[0] != stop[0]);
        }
    }
    if cut < s.len() {
        assert(s[cut] == c);
    } else {
        assert(s.take(cut) =~= s);
    }
}

/// The characters of `s`, in order.
pub fn chars_of(s: &str) -> (v: Vec<char>)
    ensures
        v@ == s@,
{
    let mut v: Vec<char> = Vec::new();
    for c in it: s.chars()
        invariant
            v@ == it.seq().take(it.index() as int),
            it.seq() == s@,
    {
        v.push(c);
    }
    v
}

/// Whether two strings hold the same characters.
pub fn same_text(a: &str, b: &str) -> (r: bool)
    ensures
        r == (a@ == b@),
{
    let x = a.as_bytes();
    let y = b.as_bytes();
    proof {
        encode_utf8_decode_utf8(a@);
        encode_utf8_decode_utf8(b@);
    }
    if x.len() != y.len() {
        return false;
    }
    let mut i: usize = 0;
    while i < x.len()
        invariant
            i <= x.len(),
            x.len() == y.len(),
            x@ == encode_utf8(a@),
            y@ == encode_utf8(b@),
            forall|j: int| 0 <= j < i ==> x@[j] == y@[j],
        decreases x.len() - i,
    {
        if x[i] != y[i] {
            return false;
        }
        i += 1;
    }
    assert(x@ =~= y@);
    true
}

/// Whether `needle` stands in `hay` at position `at`.
pub fn matches_at(hay: &Vec<char>, needle: &Vec<char>, at: usize) -> (r: bool)
    ensures
        r == occurs_at(hay@, needle@, at as int),
{
    if needle.len() > hay.len() || at > hay.len() - needle.len() {
        return false;
    }
    let mut k: usize = 0;
    while k < needle.len()
        invariant
            k <= needle.len(),
            at + needle.len() <= hay.len(),
            forall|j: int| 0 <= j < k ==> hay@[at + j] == needle@[j],
        decreases needle.len() - k,
    {
        if hay[at + k] != needle[k] {
            return false;
        }
        k += 1;
    }
    assert(hay@.subrange(at as int, at + needle.len()) =~= needle@);
    true
}

/// The first position at or after `from` at which `needle` stands in `hay`,
/// or the length of `hay`.
pub fn find_text(hay: &Vec<char>, needle: &Vec<char>, from: usize) -> (r: usize)
    ensures
        r == first_match(hay@, needle@, from as int),
        r <= hay.len(),
        from <= hay.len() ==> from <= r,
{
    if from >= hay.len() {
        return hay.len();
    }
    let mut i: usize = from;
    while i < hay.len()
        invariant
            from <= i <= hay.len(),
            first_match(hay@, needle@, from as int) == first_match(hay@, needle@, i as int),
        decreases hay.len() - i,
    {
        if matches_at(hay, needle, i) {
            return i;
        }
        i += 1;
    }
    i
}

/// The ASCII lower-case form of a character.
pub fn to_ascii_lower(c: char) -> (r: char)
    ensures
        r == ascii_lower(c),
{
    if c >= 'A' && c <= 'Z' {
        let code: u8 = c as u8;
        (code + 32) as char
    } else {
        c
    }
}

/// The characters of `chars`, each in its ASCII lower-case form.
pub fn lowercase_chars(chars: &Vec<char>) -> (r: Vec<char>)
    ensures
        r@ == ascii_lowercase(chars@),
{
    let mut lower: Vec<char> = Vec::new();
    let mut i: usize = 0;
    while i < chars.len()
        invariant
            i <= chars.len(),
            lower.len() == i,
            forall|j: int| 0 <= j < i ==> lower@[j] == ascii_lower(chars@[j]),
        decreases chars.len() - i,
    {
        lower.push(to_ascii_lower(chars[i]));
        i += 1;
    }
    lower
}

/// Whether `chars` are the characters of `text`.
pub fn chars_are(chars: &Vec<char>, text: &str) -> (r: bool)
    ensures
        r == (chars@ == text@),
{
    let other = chars_of(text);
    if chars.len() != other.len() {
        return false;
    }
    let same = matches_at(chars, &other, 0);
    proof {
        assert(chars@.subrange(0, chars@.len() as int) =~= chars@);
    }
    same
}

/// The text before the first `stop`, or all of it where it holds none.
pub fn prefix_before<'a>(text: &'a str, stop: &str) -> (r: &'a str)
    ensures
        r@ == before_first(text@, stop@),
{
    let chars = chars_of(text);
    let needle = chars_of(stop);
    let end = find_text(&chars, &needle, 0);
    text.substring_char(0, end)
}

/// The text without one leading slash, where it has one.
pub fn strip_leading_slash<'a>(text: &'a str) -> (r: &'a str)
    ensures
        r@ == without_leading_slash(text@),
{
    let chars = chars_of(text);
    if chars.len() > 0 && chars[0] == '/' {
        text.substring_char(1, chars.len())
    } else {
        text
    }
}

} // verus!
