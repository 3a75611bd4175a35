//! Plain substring search and replacement.
//!
//! Replacement is stated over characters; match offsets are byte offsets
//! into the UTF-8 encoding, as the standard library reports them.

use vstd::prelude::*;
use vstd::string::*;
use vstd::utf8::*;

verus! {

/// `to`, then each character of `s` followed by `to`: what replacing the
/// empty pattern produces.
pub open spec fn interspersed(s: Seq<char>, to: Seq<char>) -> Seq<char>
    decreases s.len(),
{
    if s.len() == 0 {
        to
    } else {
        interspersed(s.drop_last(), to) + seq![s.last()] + to
    }
}

/// `s` with every occurrence of the non-empty pattern `from` replaced by
/// `to`, scanning left to right and resuming after each occurrence.
pub open spec fn replaced_pattern(s: Seq<char>, from: Seq<char>, to: Seq<char>) -> Seq<char>
    decreases s.len(),
{
    if from.len() == 0 || s.len() < from.len() {
        s
    } else if s.take(from.len() as int) == from {
        to + replaced_pattern(s.skip(from.len() as int), from, to)
    } else {
        seq![s[0]] + replaced_pattern(s.drop_first(), from, to)
    }
}

/// `s` with every non-overlapping occurrence of `from` replaced by `to`.
/// The empty pattern occurs before every character and at the end.
pub open spec fn replaced(s: Seq<char>, from: Seq<char>, to: Seq<char>) -> Seq<char> {
    if from.len() == 0 {
        interspersed(s, to)
    } else {
        replaced_pattern(s, from, to)
    }
}

/// Start offsets, at or after `from`, of the occurrences of the non-empty
/// `needle` in `hay`, scanning left to right and resuming after each
/// occurrence, so that no two of them overlap.
pub open spec fn occurrences(hay: Seq<u8>, needle: Seq<u8>, from: int) -> Seq<int>
    decreases hay.len() - from,
{
    if from < 0 || needle.len() == 0 || from + needle.len() > hay.len() {
        Seq::empty()
    } else if hay.subrange(from, from + needle.len()) == needle {
        seq![from] + occurrences(hay, needle, from + needle.len())
    } else {
        occurrences(hay, needle, from + 1)
    }
}

/// The character boundaries of `bytes` below `n`, in increasing order.
pub open spec fn boundaries_below(bytes: Seq<u8>, n: int) -> Seq<int>
    decreases n,
{
    if n <= 0 {
        Seq::empty()
    } else if is_char_boundary(bytes, n - 1) {
        boundaries_below(bytes, n - 1).push(n - 1)
    } else {
        boundaries_below(bytes, n - 1)
    }
}

/// Every character boundary of `bytes`, its length included.
pub open spec fn all_boundaries(bytes: Seq<u8>) -> Seq<int> {
    boundaries_below(bytes, bytes.len() as int + 1)
}

/// Byte offsets at which `needle` matches in `hay`: its non-overlapping
/// occurrences from the left, or every character boundary of `hay`, the end
/// included, where `needle` is empty.
pub open spec fn match_offsets(hay: Seq<char>, needle: Seq<char>) -> Seq<int> {
    if needle.len() == 0 {
        all_boundaries(encode_utf8(hay))
    } else {
        occurrences(encode_utf8(hay), encode_utf8(needle), 0)
    }
}

/// The offsets in `v` are exactly those of `offsets`, in the same order.
pub open spec fn holds_offsets(v: Seq<usize>, offsets: Seq<int>) -> bool {
    &&& v.len() == offsets.len()
    &&& forall|i: int| 0 <= i < v.len() ==> #[trigger] v[i] as int == offsets[i]
}

/// Calls `str::replace` with a non-empty pattern: every match of the
/// pattern, found from the left and disjoint from the one before, is
/// replaced, and the text between matches is copied.
#[verifier::external_body]
fn replace_pattern(text: &str, from: &str, to: &str) -> (r: String)
    requires
        from@.len() > 0,
    ensures
        r@ == replaced_pattern(text@, from@, to@),
{
    text.replace(from, to)
}

/// Calls `str::match_indices` with a non-empty pattern and keeps the start
/// index of each match: the byte offsets of the disjoint matches, from the
/// left; of overlapping candidates only the first counts.
#[verifier::external_body]
fn match_starts(hay: &str, needle: &str) -> (v: Vec<usize>)
    requires
        needle@.len() > 0,
    ensures
        holds_offsets(v@, occurrences(hay.spec_bytes(), needle.spec_bytes(), 0)),
{
    hay.match_indices(needle).map(|(start, _)| start).collect()
}

/// Length of `s` in bytes.
pub fn byte_len(s: &str) -> (n: usize)
    ensures
        n == encode_utf8(s@).len(),
{
    s.as_bytes().len()
}

/// Inserts `to` before every character of `text` and at its end.
fn intersperse(text: &str, to: &str) -> (r: String)
    ensures
        r@ == interspersed(text@, to@),
{
    let n: usize = text.unicode_len();
    let mut out = to.to_owned();
    let mut i: usize = 0;
    while i < n
        invariant
            i <= n,
            n == text@.len(),
            out@ == interspersed(text@.take(i as int), to@),
        decreases n - i,
    {
        out.append(text.substring_char(i, i + 1));
        out.append(to);
        proof {
            let next = text@.take(i + 1);
            assert(next.drop_last() == text@.take(i as int));
            assert(text@.subrange(i as int, i + 1) == seq![next.last()]);
        }
        i = i + 1;
    }
    assert(text@.take(n as int) == text@);
    out
}

/// Replaces every non-overlapping occurrence of `from` in `text` by `to`,
/// scanning from the left.
pub fn replace_all(text: &str, from: &str, to: &str) -> (r: String)
    ensures
        r@ == replaced(text@, from@, to@),
{
    if from.is_empty() {
        intersperse(text, to)
    } else {
        replace_pattern(text, from, to)
    }
}

/// Every character boundary of `text`, its length included, in increasing
/// order.
fn char_boundaries(text: &str) -> (v: Vec<usize>)
    ensures
        holds_offsets(v@, all_boundaries(encode_utf8(text@))),
{
    let len: usize = byte_len(text);
    let mut v: Vec<usize> = Vec::new();
    let mut i: usize = 0;
    while i < len
        invariant
            i <= len,
            len == encode_utf8(text@).len(),
            holds_offsets(v@, boundaries_below(encode_utf8(text@), i as int)),
        decreases len - i,
    {
        if text.is_char_boundary(i) {
            v.push(i);
        }
        i = i + 1;
    }
    proof {
        encode_utf8_valid_utf8(text@);
        is_char_boundary_start_end_of_seq(encode_utf8(text@));
    }
    v.push(len);
    v
}

/// The byte offsets at which `needle` matches in `hay`, in increasing
/// order.
pub fn find_offsets(hay: &str, needle: &str) -> (v: Vec<usize>)
    ensures
        holds_offsets(v@, match_offsets(hay@, needle@)),
{
    if needle.is_empty() {
        char_boundaries(hay)
    } else {
        match_starts(hay, needle)
    }
}

} // verus!
