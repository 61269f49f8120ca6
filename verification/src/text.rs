//! Conversions between strings and sequences of symbols.
use vstd::prelude::*;

verus! {

/// Appends one character to a string, by `String::push` of the standard
/// library: the string afterwards is the string before followed by `c`.
#[verifier::external_body]
pub(crate) fn push_char(s: &mut String, c: char)
    ensures
        final(s)@ == old(s)@.push(c),
{
    s.push(c)
}

/// Whether `a` and `b` hold the same characters.
pub fn same_text(a: &str, b: &str) -> (same: bool)
    ensures
        same == (a@ == b@),
{
    let left = a.to_owned();
    let right = b.to_owned();
    left == right
}

/// What `char::is_alphanumeric` of the standard library answers for `c`.
pub uninterp spec fn is_alphanumeric(c: char) -> bool;

/// Whether `c` is a letter or a digit of ASCII.
pub open spec fn is_ascii_alphanumeric(c: char) -> bool {
    ||| 'a' <= c <= 'z'
    ||| 'A' <= c <= 'Z'
    ||| '0' <= c <= '9'
}

/// Asks `char::is_alphanumeric` of the standard library whether `c` is a
/// letter or a digit of any script. The letters and digits of ASCII are
/// among them.
#[verifier::external_body]
pub(crate) fn char_is_alphanumeric(c: char) -> (answer: bool)
    ensures
        answer == is_alphanumeric(c),
        is_ascii_alphanumeric(c) ==> answer,
{
    c.is_alphanumeric()
}

/// Whether `c` is one of the punctuation marks of ASCII.
pub open spec fn is_ascii_punctuation(c: char) -> bool {
    ||| '!' <= c <= '/'
    ||| ':' <= c <= '@'
    ||| '[' <= c <= '`'
    ||| '{' <= c <= '~'
}

/// Whether a key that produces `c` takes part in a composition: `c` is a
/// letter, a digit or an ASCII punctuation mark.
pub open spec fn is_composable(c: char) -> bool {
    is_alphanumeric(c) || is_ascii_punctuation(c)
}

/// Whether `c` is a letter, a digit or a punctuation mark of ASCII. Such a
/// character takes part in a composition.
pub open spec fn is_ascii_composable(c: char) -> bool {
    is_ascii_alphanumeric(c) || is_ascii_punctuation(c)
}

/// Decides `is_composable`.
pub fn char_is_composable(c: char) -> (answer: bool)
    ensures
        answer == is_composable(c),
        is_ascii_composable(c) ==> answer,
{
    if char_is_alphanumeric(c) {
        return true;
    }
    ('!' <= c && c <= '/') || (':' <= c && c <= '@') || ('[' <= c && c <= '`') || ('{' <= c
        && c <= '~')
}

/// The characters of `s`, in order.
pub fn chars_of(s: &str) -> (out: Vec<char>)
    ensures
        out@ == s@,
{
    let mut out: Vec<char> = Vec::new();
    let n: usize = s.unicode_len();
    let mut i: usize = 0;
    while i < n
        invariant
            n == s@.len(),
            i <= n,
            out@ == s@.take(i as int),
        decreases n - i,
    {
        let c = s.get_char(i);
        out.push(c);
        i += 1;
    }
    out
}

/// The string whose characters are `symbols`, in order.
pub fn string_of(symbols: &Vec<char>) -> (out: String)
    ensures
        out@ == symbols@,
{
    let mut out = String::new();
    let mut i: usize = 0;
    while i < symbols.len()
        invariant
            i <= symbols.len(),
            out@ == symbols@.take(i as int),
        decreases symbols.len() - i,
    {
        push_char(&mut out, symbols[i]);
        i += 1;
    }
    out
}

} // verus!
