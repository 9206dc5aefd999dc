//! Text helpers: padding, separator lines, trimming, capitalisation and
//! substring search. Every text is measured in characters.

use vstd::prelude::*;
use vstd::string::*;

verus! {

/// The text made of `n` copies of the character `c`.
pub open spec fn repeated(c: char, n: nat) -> Seq<char> {
    Seq::new(n, |i: int| c)
}

/// What `str::to_uppercase` returns for the text `s`.
pub uninterp spec fn uppercase_of(s: Seq<char>) -> Seq<char>;

/// What `str::to_lowercase` returns for the text `s`.
pub uninterp spec fn lowercase_of(s: Seq<char>) -> Seq<char>;

/// Whether `char::is_whitespace` holds of `c`.
pub uninterp spec fn white_space(c: char) -> bool;

/// `s` without its leading white space.
pub open spec fn skip_leading(s: Seq<char>) -> Seq<char>
    decreases s.len(),
{
    if s.len() > 0 && white_space(s.first()) {
        skip_leading(s.drop_first())
    } else {
        s
    }
}

/// `s` without its trailing white space.
pub open spec fn skip_trailing(s: Seq<char>) -> Seq<char>
    decreases s.len(),
{
    if s.len() > 0 && white_space(s.last()) {
        skip_trailing(s.drop_last())
    } else {
        s
    }
}

/// `s` without leading and trailing white space.
pub open spec fn trimmed(s: Seq<char>) -> Seq<char> {
    skip_trailing(skip_leading(s))
}

/// `s` with its first character in upper case and the rest in lower case.
/// The empty text stays empty.
pub open spec fn capitalized(s: Seq<char>) -> Seq<char> {
    if s.len() == 0 {
        s
    } else if s.len() == 1 {
        uppercase_of(s)
    } else {
        uppercase_of(s.take(1)) + lowercase_of(s.skip(1))
    }
}

/// `needle` stands in `hay` at offset `i`.
pub open spec fn occurs_at(needle: Seq<char>, hay: Seq<char>, i: int) -> bool {
    0 <= i && i + needle.len() <= hay.len() && hay.subrange(i, i + needle.len()) == needle
}

/// `needle` stands somewhere in `hay`.
pub open spec fn is_substring(needle: Seq<char>, hay: Seq<char>) -> bool {
    exists|i: int| occurs_at(needle, hay, i)
}

/// `a`, one space, then `b`.
pub open spec fn spaced(a: Seq<char>, b: Seq<char>) -> Seq<char> {
    a + seq![' '] + b
}

/// Calls `str::to_uppercase`. Trusted: the result is the upper-case form that
/// the standard library gives for this text, here called `uppercase_of`.
#[verifier::external_body]
pub(crate) fn to_upper(s: &str) -> (result: String)
    ensures
        result@ == uppercase_of(s@),
{
    s.to_uppercase()
}

/// Calls `str::to_lowercase`. Trusted: the result is the lower-case form that
/// the standard library gives for this text, here called `lowercase_of`.
#[verifier::external_body]
pub(crate) fn to_lower(s: &str) -> (result: String)
    ensures
        result@ == lowercase_of(s@),
{
    s.to_lowercase()
}

/// Calls `char::is_whitespace`. Trusted: the answer is the standard library's
/// white-space property of this character, here called `white_space`.
#[verifier::external_body]
pub(crate) fn is_white_space(c: char) -> (result: bool)
    ensures
        result == white_space(c),
{
    c.is_whitespace()
}

/// The characters of `s`, in order.
pub fn to_chars(s: &str) -> (v: Vec<char>)
    ensures
        v@ == s@,
{
    let mut v: Vec<char> = Vec::new();
    for c in it: s.chars()
        invariant
            v@ == s@.take(it.index() as int),
            it.seq() == s@,
    {
        v.push(c);
        assert(v@ =~= s@.take(it.index() + 1));
    }
    assert(v@ =~= s@);
    v
}

/// A run of `n` spaces, used to pad a line on its left.
pub fn spaces(n: usize) -> (result: String)
    ensures
        result@ == repeated(' ', n as nat),
        result@.len() == n,
{
    let mut result = String::new();
    let mut i: usize = 0;
    proof {
        reveal_strlit(" ");
    }
    while i < n
        invariant
            i <= n,
            result@ == repeated(' ', i as nat),
            " "@ == seq![' '],
        decreases n - i,
    {
        result.append(" ");
        i = i + 1;
        assert(result@ =~= repeated(' ', i as nat));
    }
    result
}

/// A separator line of `n` dashes.
pub fn lb(n: &usize) -> (result: String)
    ensures
        result@ == repeated('-', *n as nat),
        result@.len() == *n,
{
    let mut result = String::new();
    let mut i: usize = 0;
    proof {
        reveal_strlit("-");
    }
    while i < *n
        invariant
            i <= *n,
            result@ == repeated('-', i as nat),
            "-"@ == seq!['-'],
        decreases *n - i,
    {
        result.append("-");
        i = i + 1;
        assert(result@ =~= repeated('-', i as nat));
    }
    result
}

/// `a`, one space, then `b`: the form of a full name.
pub fn join_words(a: &str, b: &str) -> (result: String)
    ensures
        result@ == spaced(a@, b@),
{
    proof {
        reveal_strlit(" ");
    }
    let mut result = a.to_owned();
    result.append(" ");
    result.append(b);
    result
}

/// Removes leading and trailing white space.
pub fn trim(s: &str) -> (result: String)
    ensures
        result@ == trimmed(s@),
{
    let chars = to_chars(s);
    let n = chars.len();
    let mut start: usize = 0;
    assert(chars@.skip(0) =~= chars@);
    while start < n && is_white_space(chars[start])
        invariant
            start <= n,
            n == chars@.len(),
            skip_leading(chars@) == skip_leading(chars@.skip(start as int)),
        decreases n - start,
    {
        assert(chars@.skip(start as int).drop_first() =~= chars@.skip(start as int + 1));
        start = start + 1;
    }
    let ghost rest = chars@.skip(start as int);
    assert(skip_leading(chars@) == rest);
    let mut end: usize = n;
    assert(rest.take(n - start) =~= rest);
    while end > start && is_white_space(chars[end - 1])
        invariant
            start <= end <= n,
            n == chars@.len(),
            rest == chars@.skip(start as int),
            skip_trailing(rest) == skip_trailing(rest.take(end - start)),
        decreases end,
    {
        assert(rest.take(end - start).drop_last() =~= rest.take(end - start - 1));
        end = end - 1;
    }
    assert(rest.take(end - start) =~= chars@.subrange(start as int, end as int));
    assert(skip_trailing(rest) == chars@.subrange(start as int, end as int));
    s.substring_char(start, end).to_owned()
}

/// Upper-cases the first character and lower-cases the rest.
pub fn capitalize(word: &String) -> (result: String)
    ensures
        result@ == capitalized(word@),
{
    let text = word.as_str();
    let n = text.unicode_len();
    if n == 0 {
        String::new()
    } else if n == 1 {
        to_upper(text)
    } else {
        assert(text@.subrange(0, 1) =~= text@.take(1));
        assert(text@.subrange(1, n as int) =~= text@.skip(1));
        let head = to_upper(text.substring_char(0, 1));
        let tail = to_lower(text.substring_char(1, n));
        head.concat(tail.as_str())
    }
}

/// Whether `needle` stands in `hay` at offset `at`.
fn matches_at(hay: &Vec<char>, needle: &Vec<char>, at: usize) -> (result: bool)
    requires
        at + needle@.len() <= hay@.len(),
    ensures
        result == occurs_at(needle@, hay@, at as int),
{
    let m = needle.len();
    let mut k: usize = 0;
    while k < m
        invariant
            k <= m,
            m == needle.len(),
            at + m <= hay.len(),
            forall|j: int| 0 <= j < k ==> hay@[at + j] == needle@[j],
        decreases m - k,
    {
        if hay[at + k] != needle[k] {
            assert(hay@.subrange(at as int, at + m)[k as int] == hay@[at + k]);
            return false;
        }
        k = k + 1;
    }
    assert(hay@.subrange(at as int, at + m) =~= needle@);
    true
}

/// Whether `needle` occurs in `hay` as a run of consecutive characters.
/// The empty text occurs in every text.
pub fn contains(hay: &str, needle: &str) -> (result: bool)
    ensures
        result == is_substring(needle@, hay@),
{
    let h = to_chars(hay);
    let p = to_chars(needle);
    if p.len() > h.len() {
        return false;
    }
    let last = h.len() - p.len();
    let mut i: usize = 0;
    loop
        invariant
            i <= last,
            last == h.len() - p.len(),
            h@ == hay@,
            p@ == needle@,
            forall|j: int| 0 <= j < i ==> !occurs_at(p@, h@, j),
        decreases last - i,
    {
        if matches_at(&h, &p, i) {
            return true;
        }
        if i == last {
            return false;
        }
        i = i + 1;
    }
}

} // verus!
