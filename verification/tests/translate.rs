use indexmap::IndexMap;
use tranclator::engine::translate;
use tranclator::profile::{CapitalizationMode, Language};

fn language(mode: CapitalizationMode, pairs: &[(&str, &str)]) -> Language {
    let mut dict: IndexMap<String, String> = IndexMap::new();
    for (word, translation) in pairs {
        dict.insert(word.to_string(), translation.to_string());
    }
    Language {
        name: "test".to_string(),
        lower_mode: mode,
        dict,
    }
}

const GREETING: [(&str, &str); 2] = [("hello", "hola"), ("world", "mundo")];

#[test]
fn test_translate() {
    let language = Language {
        name: "test".to_string(),
        lower_mode: CapitalizationMode::Lower,
        dict: vec![
            ("hello".to_string(), "hola".to_string()),
            ("world".to_string(), "mundo".to_string()),
        ]
        .into_iter()
        .collect(),
    };

    assert_eq!(translate("hello world", &language), "hola mundo");
    assert_eq!(translate("Hello WorLd", &language), "hola mundo");
}

#[test]
fn lower_mode_lowercases_everything() {
    let l = language(CapitalizationMode::Lower, &GREETING);
    assert_eq!(translate("HELLO Big World", &l), "hola big mundo");
    let out = translate("Hello ÉCOLE", &l);
    assert_eq!(out, "hola école");
    assert_eq!(out.to_lowercase(), out);
}

#[test]
fn lower_mode_lowercases_words_and_translations() {
    let l = language(CapitalizationMode::Lower, &[("HeLLo", "HOLA")]);
    assert_eq!(translate("hello", &l), "hola");
}

#[test]
fn upper_mode_uppercases_everything() {
    let l = language(CapitalizationMode::Upper, &GREETING);
    assert_eq!(translate("hello world", &l), "HOLA MUNDO");
    let out = translate("Hello there", &l);
    assert_eq!(out, "HOLA THERE");
    assert_eq!(out.to_uppercase(), out);
}

#[test]
fn upper_mode_expands_characters() {
    let l = language(CapitalizationMode::Upper, &[("ß", "x")]);
    assert_eq!(translate("straße", &l), "STRAXE");
}

#[test]
fn preserve_keeps_title_and_lower_case() {
    let l = language(CapitalizationMode::Preserve, &GREETING);
    assert_eq!(translate("Hello world", &l), "Hola mundo");
}

#[test]
fn preserve_uppercase_text_gives_uppercase() {
    let l = language(CapitalizationMode::Preserve, &GREETING);
    assert_eq!(translate("HELLO WORLD", &l), "HOLA MUNDO");
}

#[test]
fn preserve_lowercase_match_gives_lowercase() {
    let l = language(CapitalizationMode::Preserve, &[("hello", "HOLA")]);
    assert_eq!(translate("Say hello", &l), "Say hola");
}

#[test]
fn preserve_uppercase_match_in_mixed_text_is_title_cased() {
    let l = language(CapitalizationMode::Preserve, &GREETING);
    assert_eq!(translate("HELLO there", &l), "Hola there");
    assert_eq!(translate("hELLO", &l), "Hola");
}

#[test]
fn preserve_title_case_keeps_rest_of_translation() {
    let l = language(CapitalizationMode::Preserve, &[("hello", "hoLA")]);
    assert_eq!(translate("Hello", &l), "HoLA");
}

#[test]
fn preserve_caseless_match_counts_as_lowercase() {
    let l = language(CapitalizationMode::Preserve, &[("123", "X")]);
    assert_eq!(translate("ABC 123", &l), "ABC x");
}

#[test]
fn preserve_judges_the_text_as_it_stands() {
    let l = language(CapitalizationMode::Preserve, &[("123", "x"), ("abc", "def")]);
    assert_eq!(translate("ABC 123", &l), "Def x");
}

#[test]
fn preserve_replaces_every_match() {
    let l = language(CapitalizationMode::Preserve, &[("a", "bb")]);
    assert_eq!(translate("A a", &l), "Bb bb");
    assert_eq!(translate("banana", &l), "bbbnbbnbb");
}

#[test]
fn preserve_matches_do_not_overlap() {
    let l = language(CapitalizationMode::Preserve, &[("aa", "b")]);
    assert_eq!(translate("aaa", &l), "ba");
    assert_eq!(translate("aaaa", &l), "bb");
}

#[test]
fn lower_matches_do_not_overlap() {
    let l = language(CapitalizationMode::Lower, &[("aa", "b")]);
    assert_eq!(translate("aaa", &l), "ba");
}

#[test]
fn empty_dictionary_normalizes_only() {
    let lower = language(CapitalizationMode::Lower, &[]);
    let upper = language(CapitalizationMode::Upper, &[]);
    let preserve = language(CapitalizationMode::Preserve, &[]);
    assert_eq!(translate("  Hello World \n", &lower), "hello world");
    assert_eq!(translate("  Hello World \n", &upper), "HELLO WORLD");
    assert_eq!(translate("  Hello World \n", &preserve), "Hello World");
}

#[test]
fn input_is_trimmed_of_unicode_whitespace() {
    let preserve = language(CapitalizationMode::Preserve, &[]);
    assert_eq!(translate("\u{3000}\thi there\r\n", &preserve), "hi there");
    assert_eq!(translate(" \n ", &preserve), "");
}

#[test]
fn empty_input_stays_empty() {
    for mode in [
        CapitalizationMode::Lower,
        CapitalizationMode::Preserve,
        CapitalizationMode::Upper,
    ] {
        let l = language(mode, &GREETING);
        assert_eq!(translate("", &l), "");
        assert_eq!(translate("   ", &l), "");
    }
}

#[test]
fn entries_cascade_in_order() {
    let l = language(CapitalizationMode::Lower, &[("a", "b"), ("b", "c")]);
    assert_eq!(translate("a", &l), "c");
    let p = language(CapitalizationMode::Preserve, &[("cat", "dog"), ("dog", "cow")]);
    assert_eq!(translate("cat dog", &p), "cow cow");
}

#[test]
fn translation_is_not_idempotent() {
    let l = language(CapitalizationMode::Lower, &[("b", "c"), ("a", "b")]);
    let once = translate("a", &l);
    let twice = translate(&once, &l);
    assert_eq!(once, "b");
    assert_eq!(twice, "c");
    assert_ne!(once, twice);
}

#[test]
fn later_entry_with_same_word_in_other_case_still_applies() {
    let l = language(CapitalizationMode::Lower, &[("Hi", "hey"), ("hi", "yo"), ("hey", "hi")]);
    assert_eq!(translate("hi", &l), "hi");
    let m = language(CapitalizationMode::Lower, &[("x", "hi"), ("Hi", "a"), ("hi", "b")]);
    assert_eq!(translate("x hi", &m), "a a");
}

#[test]
fn empty_translation_removes_the_word() {
    let lower = language(CapitalizationMode::Lower, &[("hello", "")]);
    assert_eq!(translate("hello world", &lower), " world");
    let preserve = language(CapitalizationMode::Preserve, &[("hello", "")]);
    assert_eq!(translate("Hello world", &preserve), " world");
    assert_eq!(translate("HELLO", &preserve), "");
}

#[test]
fn matching_ignores_word_boundaries() {
    let lower = language(CapitalizationMode::Lower, &[("cat", "dog")]);
    assert_eq!(translate("concatenate", &lower), "condogenate");
    let preserve = language(CapitalizationMode::Preserve, &[("cat", "dog")]);
    assert_eq!(translate("ConCATenate", &preserve), "ConDogenate");
}

#[test]
fn replacement_may_change_the_length() {
    let l = language(CapitalizationMode::Preserve, &[("a", "xyz"), ("longer", "l")]);
    assert_eq!(translate("a longer a", &l), "xyz l xyz");
}

#[test]
fn empty_word_matches_at_every_character() {
    let lower = language(CapitalizationMode::Lower, &[("", "-")]);
    assert_eq!(translate("ab", &lower), "-a-b-");
    assert_eq!(translate("", &lower), "-");
    let upper = language(CapitalizationMode::Upper, &[("", "x")]);
    assert_eq!(translate("ab", &upper), "XAXBX");
    let preserve = language(CapitalizationMode::Preserve, &[("", "-")]);
    assert_eq!(translate("aé", &preserve), "-a-é-");
    assert_eq!(translate("", &preserve), "-");
}

#[test]
fn non_ascii_words_are_matched_without_regard_to_case() {
    let lower = language(CapitalizationMode::Lower, &[("ñ", "n")]);
    assert_eq!(translate("Ñandú", &lower), "nandú");
    let preserve = language(CapitalizationMode::Preserve, &[("ñandú", "rhea"), ("é", "e")]);
    assert_eq!(translate("Ñandú café", &preserve), "Rhea cafe");
    assert_eq!(translate("ÑANDÚ", &preserve), "RHEA");
}

#[test]
fn title_case_uses_the_full_uppercase_mapping() {
    let preserve = language(CapitalizationMode::Preserve, &[("street", "ßtraße")]);
    assert_eq!(translate("Street", &preserve), "SStraße");
}

#[test]
fn offsets_are_taken_from_the_lowercased_text() {
    // 'İ' is two bytes and its lowercase form three, so what is found at
    // byte 3 of the lowercased text is replaced at byte 3 of the text.
    let l = language(CapitalizationMode::Preserve, &[("x", "q")]);
    assert_eq!(translate("İxy", &l), "İxq");
}

#[test]
fn match_outside_the_text_is_left_alone() {
    let l = language(CapitalizationMode::Preserve, &[("x", "q")]);
    assert_eq!(translate("İstanbul x", &l), "İstanbul x");
}

#[test]
fn match_inside_a_character_is_left_alone() {
    let l = language(CapitalizationMode::Preserve, &[("é", "e")]);
    assert_eq!(translate("İéa", &l), "İéa");
}

#[test]
fn replaced_range_has_the_length_of_the_dictionary_word() {
    // 'K' (Kelvin sign) is three bytes and lowercases to the one-byte 'k':
    // the word matches at byte 0 and three bytes are replaced.
    let l = language(CapitalizationMode::Preserve, &[("\u{212A}", "kelvin")]);
    assert_eq!(translate("k12 ", &l), "kelvin");
    assert_eq!(translate("k1", &l), "k1");
}
