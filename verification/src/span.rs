//! Byte ranges of a string that fall on character boundaries.

use vstd::prelude::*;
use vstd::string::*;
use vstd::utf8::*;
use crate::search::byte_len;

verus! {

/// The bytes `[start, start + width)` of `text` exist and both ends are
/// character boundaries, so the range can be cut out of `text`.
pub open spec fn is_char_range(text: Seq<char>, start: int, width: int) -> bool {
    let bytes = encode_utf8(text);
    &&& 0 <= start
    &&& 0 <= width
    &&& start + width <= bytes.len()
    &&& is_char_boundary(bytes, start)
    &&& is_char_boundary(bytes, start + width)
}

/// The characters of `text` encoded in its bytes `[from, to)`.
pub open spec fn byte_slice(text: Seq<char>, from: int, to: int) -> Seq<char> {
    decode_utf8(encode_utf8(text).subrange(from, to))
}

/// What precedes byte `start` of `text`.
pub open spec fn text_before(text: Seq<char>, start: int) -> Seq<char> {
    byte_slice(text, 0, start)
}

/// The bytes `[start, start + width)` of `text`.
pub open spec fn text_within(text: Seq<char>, start: int, width: int) -> Seq<char> {
    byte_slice(text, start, start + width)
}

/// What follows byte `end` of `text`.
pub open spec fn text_after(text: Seq<char>, end: int) -> Seq<char> {
    byte_slice(text, end, encode_utf8(text).len() as int)
}

/// A character boundary of valid UTF-8 stays one in the suffix that starts
/// at an earlier boundary.
pub proof fn lemma_boundary_in_suffix(bytes: Seq<u8>, start: int, end: int)
    requires
        valid_utf8(bytes),
        0 <= start <= end <= bytes.len(),
        is_char_boundary(bytes, start),
        is_char_boundary(bytes, end),
    ensures
        valid_utf8(bytes.subrange(start, bytes.len() as int)),
        is_char_boundary(bytes.subrange(start, bytes.len() as int), end - start),
{
    let suffix = bytes.subrange(start, bytes.len() as int);
    valid_utf8_split(bytes, start);
    if end == bytes.len() {
        is_char_boundary_start_end_of_seq(suffix);
    } else {
        is_char_boundary_iff_not_is_continuation_byte(bytes, end);
        is_char_boundary_iff_not_is_continuation_byte(suffix, end - start);
    }
}

/// Cuts `text` into what precedes byte `start`, the `width` bytes from
/// there, and what follows, provided that the range lies inside `text` and
/// on character boundaries; `None` otherwise.
pub fn split_range<'a>(text: &'a str, start: usize, width: usize) -> (r: Option<
    (&'a str, &'a str, &'a str),
>)
    ensures
        r is Some <==> is_char_range(text@, start as int, width as int),
        r matches Some((before, within, after)) ==> {
            &&& before@ == text_before(text@, start as int)
            &&& within@ == text_within(text@, start as int, width as int)
            &&& after@ == text_after(text@, start + width)
        },
{
    let len: usize = byte_len(text);
    if width > len || start > len - width {
        return None;
    }
    let end: usize = start + width;
    if !text.is_char_boundary(start) || !text.is_char_boundary(end) {
        return None;
    }
    proof {
        encode_utf8_valid_utf8(text@);
        lemma_boundary_in_suffix(encode_utf8(text@), start as int, end as int);
    }
    let (before, rest) = text.split_at(start);
    let (within, after) = rest.split_at(width);
    proof {
        let bytes = encode_utf8(text@);
        let suffix = bytes.subrange(start as int, len as int);
        assert(suffix.subrange(0, width as int) == bytes.subrange(start as int, end as int));
        assert(suffix.subrange(width as int, suffix.len() as int) == bytes.subrange(
            end as int,
            len as int,
        ));
        encode_utf8_decode_utf8(before@);
        encode_utf8_decode_utf8(within@);
        encode_utf8_decode_utf8(after@);
    }
    Some((before, within, after))
}

} // verus!
