//! Character-level helpers shared by the payload builders.

use vstd::prelude::*;

verus! {

/// Specifies `String::push` of the standard library, which is documented
/// to append the given character to the end of the string: afterwards the
/// string holds what it held, followed by `c`.
pub assume_specification[ String::push ](s: &mut String, c: char)
    ensures
        final(s)@ == old(s)@.push(c),
;

/// Specifies `==` on `str` of the standard library (`PartialEq::eq`): two
/// string slices are equal exactly when they hold the same characters in
/// the same order.
pub assume_specification[ <str as PartialEq>::eq ](a: &str, b: &str) -> (same: bool)
    ensures
        same == (a@ == b@),
;

/// Whether `a` and `b` hold the same characters.
pub fn same_text(a: &str, b: &str) -> (same: bool)
    ensures
        same == (a@ == b@),
{
    a.eq(b)
}

/// The characters of `s`, in order.
pub fn chars_of(s: &str) -> (out: Vec<char>)
    ensures
        out@ == s@,
{
    let mut out: Vec<char> = Vec::new();
    for c in it: s.chars()
        invariant
            it.seq() == s@,
            out@ == it.seq().take(it.index()),
    {
        out.push(c);
    }
    assert(out@ =~= s@);
    out
}

/// ASCII lower-casing of one character; everything outside `A..=Z` is kept.
pub open spec fn lower_char(c: char) -> char {
    if 'A' <= c && c <= 'Z' {
        ((c as u8) + 32) as char
    } else {
        c
    }
}

/// `c` in lower case if it is an ASCII capital, else `c` itself.
pub fn to_lower_char(c: char) -> (out: char)
    ensures
        out == lower_char(c),
{
    if 'A' <= c && c <= 'Z' {
        ((c as u8) + 32) as char
    } else {
        c
    }
}

/// Whether `needle` occurs in `hay` as a run of consecutive characters.
pub open spec fn contains_run(hay: Seq<char>, needle: Seq<char>) -> bool {
    exists|start: int|
        0 <= start && start + needle.len() <= hay.len() && #[trigger] hay.subrange(
            start,
            start + needle.len(),
        ) == needle
}

/// A text contains whatever it was put together from.
pub proof fn lemma_run_between(before: Seq<char>, needle: Seq<char>, after: Seq<char>)
    ensures
        contains_run(before + needle + after, needle),
{
    let hay = before + needle + after;
    let start = before.len() as int;
    assert(hay.subrange(start, start + needle.len()) =~= needle);
}

} // verus!
