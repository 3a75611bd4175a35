//! Case conversion and whitespace trimming of strings.
//!
//! Unicode case mapping and the `White_Space` property are tables of the
//! standard library; they appear here as uninterpreted functions over
//! `Seq<char>` that the contracts of this crate are phrased in.

use vstd::prelude::*;
use vstd::string::*;

verus! {

/// The lowercase form of `s`, as `str::to_lowercase` computes it.
pub uninterp spec fn lowercase_of(s: Seq<char>) -> Seq<char>;

/// The uppercase form of `s`, as `str::to_uppercase` computes it.
pub uninterp spec fn uppercase_of(s: Seq<char>) -> Seq<char>;

/// The uppercase mapping of the single character `c`, as `char::to_uppercase`
/// yields it (one or more characters).
pub uninterp spec fn char_uppercase_of(c: char) -> Seq<char>;

/// Whether `c` has the Unicode `White_Space` property, as `char::is_whitespace`
/// reports it and `str::trim` applies it.
pub uninterp spec fn is_white_space(c: char) -> bool;

/// `s` reads the same after lowercasing.
pub open spec fn is_all_lowercase(s: Seq<char>) -> bool {
    lowercase_of(s) == s
}

/// `s` reads the same after uppercasing.
pub open spec fn is_all_uppercase(s: Seq<char>) -> bool {
    uppercase_of(s) == s
}

/// `c` occurs in the lowercase form of some string.
pub open spec fn lowercase_yields(c: char) -> bool {
    exists|s: Seq<char>| lowercase_of(s).contains(c)
}

/// `c` occurs in the uppercase form of some string.
pub open spec fn uppercase_yields(c: char) -> bool {
    exists|s: Seq<char>| uppercase_of(s).contains(c)
}

/// Every character of `s` is one that lowercasing yields.
pub open spec fn is_lowercased(s: Seq<char>) -> bool {
    forall|i: int| 0 <= i < s.len() ==> lowercase_yields(#[trigger] s[i])
}

/// Every character of `s` is one that uppercasing yields.
pub open spec fn is_uppercased(s: Seq<char>) -> bool {
    forall|i: int| 0 <= i < s.len() ==> uppercase_yields(#[trigger] s[i])
}

/// Number of whitespace characters at the front of `s`.
pub open spec fn leading_white_space(s: Seq<char>) -> nat
    decreases s.len(),
{
    if s.len() > 0 && is_white_space(s[0]) {
        1 + leading_white_space(s.drop_first())
    } else {
        0
    }
}

/// Number of whitespace characters at the back of `s`.
pub open spec fn trailing_white_space(s: Seq<char>) -> nat
    decreases s.len(),
{
    if s.len() > 0 && is_white_space(s.last()) {
        1 + trailing_white_space(s.drop_last())
    } else {
        0
    }
}

/// `s` without its leading and trailing whitespace.
pub open spec fn trimmed(s: Seq<char>) -> Seq<char> {
    let front = s.skip(leading_white_space(s) as int);
    front.take(front.len() - trailing_white_space(front))
}

/// `s` with its first character replaced by that character's uppercase
/// mapping; the rest is kept as it is. The empty string stays empty.
pub open spec fn title_cased(s: Seq<char>) -> Seq<char> {
    if s.len() == 0 {
        Seq::empty()
    } else {
        char_uppercase_of(s[0]) + s.drop_first()
    }
}

/// Calls `str::to_lowercase`; the result is by definition `lowercase_of`
/// of the argument.
#[verifier::external_body]
pub(crate) fn lowercase(s: &str) -> (r: String)
    ensures
        r@ == lowercase_of(s@),
{
    s.to_lowercase()
}

/// Calls `str::to_uppercase`; the result is by definition `uppercase_of`
/// of the argument.
#[verifier::external_body]
pub(crate) fn uppercase(s: &str) -> (r: String)
    ensures
        r@ == uppercase_of(s@),
{
    s.to_uppercase()
}

/// Calls `char::to_uppercase` and collects the characters it yields; the
/// result is by definition `char_uppercase_of` of the argument.
#[verifier::external_body]
pub(crate) fn uppercase_char(c: char) -> (r: String)
    ensures
        r@ == char_uppercase_of(c),
{
    c.to_uppercase().collect()
}

/// Calls `str::trim`, which returns the slice that remains once every
/// leading and every trailing whitespace character is removed: what is left
/// neither begins nor ends with whitespace.
#[verifier::external_body]
pub(crate) fn trim(s: &str) -> (r: &str)
    ensures
        r@ == trimmed(s@),
        r@.len() > 0 ==> !is_white_space(r@.first()) && !is_white_space(r@.last()),
{
    s.trim()
}

/// Upper-cases the first character of `s` and leaves the rest untouched.
pub fn title_case(s: &str) -> (r: String)
    ensures
        r@ == title_cased(s@),
{
    let n: usize = s.unicode_len();
    if n == 0 {
        String::new()
    } else {
        let first: char = s.get_char(0);
        let mut out = uppercase_char(first);
        out.append(s.substring_char(1, n));
        assert(s@.subrange(1, n as int) == s@.drop_first());
        out
    }
}

} // verus!
