//! Properties of the engine and of a session that hold for every input.

use vstd::prelude::*;
use vstd::utf8::*;
use crate::casing::{
    is_all_lowercase, is_all_uppercase, is_lowercased, is_uppercased, lowercase_of,
    lowercase_yields, title_cased, trimmed, uppercase_of, uppercase_yields,
};
use crate::engine::{applied, applied_all, cased_replacement, normalized, spliced, translated};
use crate::profile::CapitalizationMode;
use crate::search::{interspersed, replaced, replaced_pattern};
use crate::session::{Config, Failure};
use crate::span::{
    is_char_range, lemma_boundary_in_suffix, text_after, text_before, text_within,
};

verus! {

/// Every character of `s` satisfies `holds`.
pub open spec fn each_char(s: Seq<char>, holds: spec_fn(char) -> bool) -> bool {
    forall|i: int| 0 <= i < s.len() ==> holds(#[trigger] s[i])
}

/// Replacing a non-empty pattern keeps what holds of every character of
/// the text and of the replacement.
pub proof fn lemma_replaced_pattern_each_char(
    s: Seq<char>,
    from: Seq<char>,
    to: Seq<char>,
    holds: spec_fn(char) -> bool,
)
    requires
        each_char(s, holds),
        each_char(to, holds),
    ensures
        each_char(replaced_pattern(s, from, to), holds),
    decreases s.len(),
{
    if from.len() == 0 || s.len() < from.len() {
    } else if s.take(from.len() as int) == from {
        let rest = s.skip(from.len() as int);
        assert forall|i: int| 0 <= i < rest.len() implies holds(#[trigger] rest[i]) by {
            assert(rest[i] == s[i + from.len()]);
        }
        lemma_replaced_pattern_each_char(rest, from, to, holds);
    } else {
        let rest = s.drop_first();
        assert forall|i: int| 0 <= i < rest.len() implies holds(#[trigger] rest[i]) by {
            assert(rest[i] == s[i + 1]);
        }
        lemma_replaced_pattern_each_char(rest, from, to, holds);
    }
}

/// Replacing the empty pattern keeps what holds of every character of the
/// text and of the replacement.
pub proof fn lemma_interspersed_each_char(
    s: Seq<char>,
    to: Seq<char>,
    holds: spec_fn(char) -> bool,
)
    requires
        each_char(s, holds),
        each_char(to, holds),
    ensures
        each_char(interspersed(s, to), holds),
    decreases s.len(),
{
    if s.len() > 0 {
        let rest = s.drop_last();
        assert forall|i: int| 0 <= i < rest.len() implies holds(#[trigger] rest[i]) by {
            assert(rest[i] == s[i]);
        }
        lemma_interspersed_each_char(rest, to, holds);
    }
}

/// Replacement makes no character of its own: what holds of every
/// character of the text and of the replacement holds of every character
/// of the result.
pub proof fn law_replaced_each_char(
    s: Seq<char>,
    from: Seq<char>,
    to: Seq<char>,
    holds: spec_fn(char) -> bool,
)
    requires
        each_char(s, holds),
        each_char(to, holds),
    ensures
        each_char(replaced(s, from, to), holds),
{
    if from.len() == 0 {
        lemma_interspersed_each_char(s, to, holds);
    } else {
        lemma_replaced_pattern_each_char(s, from, to, holds);
    }
}

/// The lowercase form of a string consists of characters that lowercasing
/// yields, and the uppercase form of characters that uppercasing yields.
pub proof fn lemma_case_forms(s: Seq<char>)
    ensures
        is_lowercased(lowercase_of(s)),
        is_uppercased(uppercase_of(s)),
{
    assert forall|i: int| 0 <= i < lowercase_of(s).len() implies lowercase_yields(
        #[trigger] lowercase_of(s)[i],
    ) by {
        assert(lowercase_of(s).contains(lowercase_of(s)[i]));
    }
    assert forall|i: int| 0 <= i < uppercase_of(s).len() implies uppercase_yields(
        #[trigger] uppercase_of(s)[i],
    ) by {
        assert(uppercase_of(s).contains(uppercase_of(s)[i]));
    }
}

/// Cutting a string at a range on character boundaries loses nothing: the
/// three parts, put together again, are the string, and each part has the
/// byte length that the offsets give.
pub proof fn law_char_range_parts(text: Seq<char>, start: int, width: int)
    requires
        is_char_range(text, start, width),
    ensures
        text == text_before(text, start) + text_within(text, start, width) + text_after(
            text,
            start + width,
        ),
        encode_utf8(text_before(text, start)) == encode_utf8(text).subrange(0, start),
        encode_utf8(text_within(text, start, width)) == encode_utf8(text).subrange(
            start,
            start + width,
        ),
        encode_utf8(text_after(text, start + width)) == encode_utf8(text).subrange(
            start + width,
            encode_utf8(text).len() as int,
        ),
{
    let bytes = encode_utf8(text);
    let len = bytes.len() as int;
    let suffix = bytes.subrange(start, len);
    encode_utf8_valid_utf8(text);
    encode_utf8_decode_utf8(text);
    lemma_boundary_in_suffix(bytes, start, start + width);
    valid_utf8_split(bytes, start);
    decode_utf8_split(bytes, start);
    valid_utf8_split(suffix, width);
    decode_utf8_split(suffix, width);
    assert(suffix.subrange(0, width) == bytes.subrange(start, start + width));
    assert(suffix.subrange(width, suffix.len() as int) == bytes.subrange(start + width, len));
    decode_utf8_encode_utf8(bytes.subrange(0, start));
    decode_utf8_encode_utf8(bytes.subrange(start, start + width));
    decode_utf8_encode_utf8(bytes.subrange(start + width, len));
    assert(text =~= text_before(text, start) + text_within(text, start, width) + text_after(
        text,
        start + width,
    ));
}

/// The encoding of a concatenation is the concatenation of the encodings.
pub proof fn lemma_encode_concat(a: Seq<char>, b: Seq<char>)
    ensures
        encode_utf8(a + b) == encode_utf8(a) + encode_utf8(b),
    decreases a.len(),
{
    if a.len() == 0 {
        assert(a + b =~= b);
        assert(encode_utf8(a) + encode_utf8(b) =~= encode_utf8(b));
    } else {
        assert((a + b).drop_first() =~= a.drop_first() + b);
        lemma_encode_concat(a.drop_first(), b);
        assert(encode_utf8(a + b) =~= encode_utf8(a) + encode_utf8(b));
    }
}

/// Splicing at a match leaves every range that ends at or before it where
/// it was: such a range still lies on character boundaries and still holds
/// the same text. This is why the matches of one entry are spliced from the
/// last to the first.
pub proof fn law_splice_keeps_earlier_ranges(
    text: Seq<char>,
    start: int,
    width: int,
    translation: Seq<char>,
    earlier: int,
    span: int,
)
    requires
        is_char_range(text, start, width),
        is_char_range(text, earlier, span),
        earlier + span <= start,
    ensures
        is_char_range(spliced(text, start, width, translation), earlier, span),
        text_within(spliced(text, start, width, translation), earlier, span) == text_within(
            text,
            earlier,
            span,
        ),
{
    let bytes = encode_utf8(text);
    let len = bytes.len() as int;
    let before = text_before(text, start);
    let replacement = cased_replacement(text_within(text, start, width), text, translation);
    let after = text_after(text, start + width);
    let out = spliced(text, start, width, translation);
    let tail = encode_utf8(replacement) + encode_utf8(after);
    let new_bytes = encode_utf8(out);
    law_char_range_parts(text, start, width);
    lemma_encode_concat(before + replacement, after);
    lemma_encode_concat(before, replacement);
    assert(new_bytes =~= bytes.subrange(0, start) + tail);
    encode_utf8_valid_utf8(text);
    encode_utf8_valid_utf8(out);
    encode_utf8_valid_utf8(replacement);
    encode_utf8_valid_utf8(after);
    valid_utf8_concat(encode_utf8(replacement), encode_utf8(after));
    assert forall|at: int| 0 <= at <= start && is_char_boundary(bytes, at) implies is_char_boundary(
        new_bytes,
        at,
    ) by {
        if at == new_bytes.len() {
            is_char_boundary_start_end_of_seq(new_bytes);
        } else if at < start {
            is_char_boundary_iff_not_is_continuation_byte(bytes, at);
            is_char_boundary_iff_not_is_continuation_byte(new_bytes, at);
        } else {
            assert(new_bytes[at] == tail[0]);
            assert(is_char_boundary(tail, 0));
            is_char_boundary_iff_not_is_continuation_byte(tail, 0);
            is_char_boundary_iff_not_is_continuation_byte(new_bytes, at);
        }
    }
    assert(new_bytes.subrange(earlier, earlier + span) =~= bytes.subrange(
        earlier,
        earlier + span,
    ));
}

/// With an empty dictionary the output is the trimmed input, lowercased or
/// uppercased as the mode demands and untouched where case is preserved.
pub proof fn law_empty_dictionary(text: Seq<char>, mode: CapitalizationMode)
    ensures
        translated(text, mode, Seq::empty()) == normalized(mode, text),
        translated(text, CapitalizationMode::Preserve, Seq::empty()) == trimmed(text),
        translated(text, CapitalizationMode::Lower, Seq::empty()) == lowercase_of(trimmed(text)),
        translated(text, CapitalizationMode::Upper, Seq::empty()) == uppercase_of(trimmed(text)),
{
}

/// Entries cascade: a further entry at the end of the dictionary is applied
/// to what the entries before it made of the text.
pub proof fn law_entries_cascade(
    text: Seq<char>,
    mode: CapitalizationMode,
    entries: Seq<(Seq<char>, Seq<char>)>,
    word: Seq<char>,
    translation: Seq<char>,
)
    ensures
        translated(text, mode, entries.push((word, translation))) == applied(
            mode,
            translated(text, mode, entries),
            word,
            translation,
        ),
{
    let longer = entries.push((word, translation));
    assert(longer.drop_last() == entries);
    assert(longer.last() == (word, translation));
}

/// In `Lower` mode the output is lowercase throughout: each of its
/// characters is one that lowercasing yields.
pub proof fn law_lower_output_is_lowercase(text: Seq<char>, entries: Seq<(Seq<char>, Seq<char>)>)
    ensures
        is_lowercased(translated(text, CapitalizationMode::Lower, entries)),
    decreases entries.len(),
{
    let holds = |c: char| lowercase_yields(c);
    if entries.len() == 0 {
        lemma_case_forms(trimmed(text));
    } else {
        let before = translated(text, CapitalizationMode::Lower, entries.drop_last());
        let to = lowercase_of(entries.last().1);
        law_lower_output_is_lowercase(text, entries.drop_last());
        lemma_case_forms(entries.last().1);
        assert(each_char(before, holds));
        assert(each_char(to, holds));
        law_replaced_each_char(before, lowercase_of(entries.last().0), to, holds);
        let out = translated(text, CapitalizationMode::Lower, entries);
        assert(each_char(out, holds));
        assert forall|i: int| 0 <= i < out.len() implies lowercase_yields(#[trigger] out[i]) by {
            assert(holds(out[i]));
        }
    }
}

/// In `Upper` mode the output is uppercase throughout: each of its
/// characters is one that uppercasing yields.
pub proof fn law_upper_output_is_uppercase(text: Seq<char>, entries: Seq<(Seq<char>, Seq<char>)>)
    ensures
        is_uppercased(translated(text, CapitalizationMode::Upper, entries)),
    decreases entries.len(),
{
    let holds = |c: char| uppercase_yields(c);
    if entries.len() == 0 {
        lemma_case_forms(trimmed(text));
    } else {
        let before = translated(text, CapitalizationMode::Upper, entries.drop_last());
        let to = uppercase_of(entries.last().1);
        law_upper_output_is_uppercase(text, entries.drop_last());
        lemma_case_forms(entries.last().1);
        assert(each_char(before, holds));
        assert(each_char(to, holds));
        law_replaced_each_char(before, uppercase_of(entries.last().0), to, holds);
        let out = translated(text, CapitalizationMode::Upper, entries);
        assert(each_char(out, holds));
        assert forall|i: int| 0 <= i < out.len() implies uppercase_yields(#[trigger] out[i]) by {
            assert(holds(out[i]));
        }
    }
}

/// With case preserved, a match is replaced in the case of what it
/// replaces, and nothing around it changes: a lowercase match by the
/// lowercased translation; a match that is uppercase and not lowercase, in
/// a text that is uppercase throughout, by the uppercased translation; any
/// other match by the translation with its first character upper-cased and
/// the rest as the dictionary gives it.
pub proof fn law_preserve_case_of_match(
    text: Seq<char>,
    start: int,
    width: int,
    translation: Seq<char>,
)
    requires
        is_char_range(text, start, width),
    ensures
        ({
            let segment = text_within(text, start, width);
            let replacement = cased_replacement(segment, text, translation);
            &&& spliced(text, start, width, translation) == text_before(text, start) + replacement
                + text_after(text, start + width)
            &&& is_all_lowercase(segment) ==> replacement == lowercase_of(translation)
                && is_lowercased(replacement)
            &&& !is_all_lowercase(segment) && is_all_uppercase(segment) && is_all_uppercase(text)
                ==> replacement == uppercase_of(translation) && is_uppercased(replacement)
            &&& !is_all_lowercase(segment) && !(is_all_uppercase(segment) && is_all_uppercase(
                text,
            )) ==> replacement == title_cased(translation)
        }),
{
    lemma_case_forms(translation);
}

/// A session ends on a line exactly when the trimmed line equals one of
/// the quit keywords; a line that only contains a keyword goes on.
pub proof fn law_quit_is_exact_match(config: Config, line: Seq<char>)
    ensures
        config.quits_on(line) <==> exists|i: int|
            0 <= i < config.quit_words().len() && #[trigger] config.quit_words()[i] == trimmed(
                line,
            ),
{
}

/// The message for a language that is not configured quotes the requested
/// name in full.
pub proof fn law_not_found_message_quotes_name(name: String)
    ensures
        ({
            let message = Failure::LanguageNotFound(name).text();
            exists|at: int|
                0 <= at && at + name@.len() <= message.len() && #[trigger] message.subrange(
                    at,
                    at + name@.len(),
                ) == name@
        }),
{
    let message = Failure::LanguageNotFound(name).text();
    let at = "Language "@.len() as int;
    assert(message.subrange(at, at + name@.len()) == name@);
}

} // verus!
