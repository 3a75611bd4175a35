//! The substitution engine.
//!
//! The text is trimmed and, unless case is preserved, normalized; then the
//! dictionary entries are applied one after another, each to the text that
//! the entries before it produced, so that an earlier translation can be
//! translated again by a later entry.

use vstd::prelude::*;
use vstd::string::*;
use vstd::utf8::*;
use crate::casing::{
    is_all_lowercase, is_all_uppercase, lowercase, lowercase_of, title_case, title_cased, trim,
    trimmed, uppercase, uppercase_of,
};
use crate::profile::{CapitalizationMode, Language};
use crate::search::{byte_len, find_offsets, holds_offsets, match_offsets, replace_all, replaced};
use crate::span::{is_char_range, split_range, text_after, text_before, text_within};

verus! {

/// The replacement for one match when case is preserved. `segment` is the
/// matched part of the text as it stands and `text` the whole text around
/// it. A lowercase segment takes the lowercased translation; an uppercase
/// segment in a text that is uppercase throughout takes the uppercased
/// translation; anything else takes the translation with its first
/// character upper-cased.
pub open spec fn cased_replacement(
    segment: Seq<char>,
    text: Seq<char>,
    translation: Seq<char>,
) -> Seq<char> {
    if is_all_lowercase(segment) {
        lowercase_of(translation)
    } else if is_all_uppercase(segment) && is_all_uppercase(text) {
        uppercase_of(translation)
    } else {
        title_cased(translation)
    }
}

/// `text` with its bytes `[start, start + width)` replaced by the
/// translation in the case of what stood there. A range that does not lie
/// inside `text` on character boundaries leaves `text` as it is.
pub open spec fn spliced(text: Seq<char>, start: int, width: int, translation: Seq<char>) -> Seq<
    char,
> {
    if is_char_range(text, start, width) {
        text_before(text, start) + cased_replacement(
            text_within(text, start, width),
            text,
            translation,
        ) + text_after(text, start + width)
    } else {
        text
    }
}

/// `text` after splicing at each of `offsets`, the last one first, so that
/// a replacement of another length does not move the offsets still to come.
pub open spec fn spliced_all(
    text: Seq<char>,
    offsets: Seq<int>,
    width: int,
    translation: Seq<char>,
) -> Seq<char>
    decreases offsets.len(),
{
    if offsets.len() == 0 {
        text
    } else {
        spliced_all(
            spliced(text, offsets.last(), width, translation),
            offsets.drop_last(),
            width,
            translation,
        )
    }
}

/// One dictionary entry applied with case preserved: the matches of the
/// lowercased word are sought in the lowercased text, and each offset found
/// there is spliced in the text itself, over the byte length of the word as
/// the dictionary spells it.
pub open spec fn preserved(text: Seq<char>, word: Seq<char>, translation: Seq<char>) -> Seq<char> {
    spliced_all(
        text,
        match_offsets(lowercase_of(text), lowercase_of(word)),
        encode_utf8(word).len() as int,
        translation,
    )
}

/// One dictionary entry applied to `text` under `mode`.
pub open spec fn applied(
    mode: CapitalizationMode,
    text: Seq<char>,
    word: Seq<char>,
    translation: Seq<char>,
) -> Seq<char> {
    match mode {
        CapitalizationMode::Lower => replaced(
            text,
            lowercase_of(word),
            lowercase_of(translation),
        ),
        CapitalizationMode::Upper => replaced(
            text,
            uppercase_of(word),
            uppercase_of(translation),
        ),
        CapitalizationMode::Preserve => preserved(text, word, translation),
    }
}

/// All of `entries` applied to `text` in order, each to the result of the
/// ones before it.
pub open spec fn applied_all(
    mode: CapitalizationMode,
    text: Seq<char>,
    entries: Seq<(Seq<char>, Seq<char>)>,
) -> Seq<char>
    decreases entries.len(),
{
    if entries.len() == 0 {
        text
    } else {
        applied(
            mode,
            applied_all(mode, text, entries.drop_last()),
            entries.last().0,
            entries.last().1,
        )
    }
}

/// The input as the entries first see it: trimmed, and lowercased or
/// uppercased as a whole unless case is preserved.
pub open spec fn normalized(mode: CapitalizationMode, text: Seq<char>) -> Seq<char> {
    match mode {
        CapitalizationMode::Lower => lowercase_of(trimmed(text)),
        CapitalizationMode::Upper => uppercase_of(trimmed(text)),
        CapitalizationMode::Preserve => trimmed(text),
    }
}

/// The translation of `text` under `mode` with the dictionary `entries`.
pub open spec fn translated(
    text: Seq<char>,
    mode: CapitalizationMode,
    entries: Seq<(Seq<char>, Seq<char>)>,
) -> Seq<char> {
    applied_all(mode, normalized(mode, text), entries)
}

/// Chooses the case of a replacement from the matched `segment` and the
/// whole `text` it stands in.
pub fn replacement_for(segment: &str, text: &str, translation: &str) -> (r: String)
    ensures
        r@ == cased_replacement(segment@, text@, translation@),
{
    let found = segment.to_owned();
    if lowercase(segment) == found {
        lowercase(translation)
    } else if uppercase(segment) == found && uppercase(text) == text.to_owned() {
        uppercase(translation)
    } else {
        title_case(translation)
    }
}

/// Replaces the bytes `[start, start + width)` of `text` by the translation
/// in the matching case, or returns `text` unchanged where that range does
/// not lie inside it on character boundaries.
pub fn splice(text: String, start: usize, width: usize, translation: &str) -> (r: String)
    ensures
        r@ == spliced(text@, start as int, width as int, translation@),
{
    let mut out = String::new();
    match split_range(text.as_str(), start, width) {
        None => {
            return text;
        },
        Some((before, within, after)) => {
            let replacement = replacement_for(within, text.as_str(), translation);
            out.append(before);
            out.append(replacement.as_str());
            out.append(after);
        },
    }
    out
}

/// Applies one dictionary entry with case preserved.
pub fn preserve(text: String, word: &str, translation: &str) -> (r: String)
    ensures
        r@ == preserved(text@, word@, translation@),
{
    let lower_word = lowercase(word);
    let lowered = lowercase(text.as_str());
    let offsets = find_offsets(lowered.as_str(), lower_word.as_str());
    let width: usize = byte_len(word);
    let ghost all = match_offsets(lowercase_of(text@), lowercase_of(word@));
    let ghost goal = preserved(text@, word@, translation@);
    let mut current = text;
    let mut i: usize = offsets.len();
    assert(all.take(i as int) == all);
    while i > 0
        invariant
            i <= offsets.len(),
            holds_offsets(offsets@, all),
            spliced_all(current@, all.take(i as int), width as int, translation@) == goal,
        decreases i,
    {
        i = i - 1;
        proof {
            let upto = all.take(i + 1);
            assert(upto.last() == offsets@[i as int] as int);
            assert(upto.drop_last() == all.take(i as int));
        }
        current = splice(current, offsets[i], width, translation);
    }
    current
}

/// Applies one dictionary entry to `text` under `mode`.
pub fn apply(mode: CapitalizationMode, text: String, word: &str, translation: &str) -> (r: String)
    ensures
        r@ == applied(mode, text@, word@, translation@),
{
    match mode {
        CapitalizationMode::Lower => replace_all(
            text.as_str(),
            lowercase(word).as_str(),
            lowercase(translation).as_str(),
        ),
        CapitalizationMode::Upper => replace_all(
            text.as_str(),
            uppercase(word).as_str(),
            uppercase(translation).as_str(),
        ),
        CapitalizationMode::Preserve => preserve(text, word, translation),
    }
}

/// Translates `text` with the dictionary and the capitalization mode of
/// `language`.
pub fn translate(text: &str, language: &Language) -> (r: String)
    ensures
        r@ == translated(text@, language.lower_mode, language.entries()),
{
    let mode = language.lower_mode;
    let stripped = trim(text);
    let mut current = match mode {
        CapitalizationMode::Lower => lowercase(stripped),
        CapitalizationMode::Upper => uppercase(stripped),
        CapitalizationMode::Preserve => stripped.to_owned(),
    };
    let count: usize = language.entry_count();
    let mut i: usize = 0;
    while i < count
        invariant
            i <= count,
            count == language.entries().len(),
            mode == language.lower_mode,
            current@ == applied_all(mode, normalized(mode, text@), language.entries().take(i as int)),
        decreases count - i,
    {
        if let Some((word, translation)) = language.entry(i) {
            proof {
                let upto = language.entries().take(i + 1);
                assert(upto.drop_last() == language.entries().take(i as int));
                assert(upto.last() == language.entries()[i as int]);
            }
            current = apply(mode, current, word.as_str(), translation.as_str());
        }
        i = i + 1;
    }
    assert(language.entries().take(count as int) == language.entries());
    current
}

} // verus!
