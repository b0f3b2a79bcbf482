use dict_lookup::decode::{decode_entries, DecodeError};
use dict_lookup::model::{Definition, DictionaryEntry, Meaning, PhoneticEntry};

fn full_body() -> &'static str {
    r#"[
        {
            "word": "hello",
            "phonetic": "/həˈloʊ/",
            "phonetics": [
                {"text": "/həˈloʊ/", "audio": "https://example.org/hello.mp3"},
                {"text": null}
            ],
            "meanings": [
                {
                    "partOfSpeech": "exclamation",
                    "definitions": [
                        {
                            "definition": "used as a greeting",
                            "example": "hello there",
                            "synonyms": ["hi", "hey"],
                            "antonyms": ["goodbye"]
                        },
                        {
                            "definition": "an expression of surprise",
                            "synonyms": [],
                            "antonyms": []
                        }
                    ]
                }
            ]
        }
    ]"#
}

#[test]
fn decodes_full_entry() {
    let entries = decode_entries(full_body()).unwrap();
    assert_eq!(entries.len(), 1);
    let e = &entries[0];
    assert_eq!(e.word, "hello");
    assert_eq!(e.phonetic.as_deref(), Some("/həˈloʊ/"));
    assert_eq!(e.phonetics.len(), 2);
    assert_eq!(e.phonetics[0].text.as_deref(), Some("/həˈloʊ/"));
    assert_eq!(
        e.phonetics[0].audio.as_deref(),
        Some("https://example.org/hello.mp3")
    );
    assert_eq!(e.phonetics[1].text, None);
    assert_eq!(e.phonetics[1].audio, None);
    assert_eq!(e.meanings.len(), 1);
    let m = &e.meanings[0];
    assert_eq!(m.part_of_speech, "exclamation");
    assert_eq!(m.definitions.len(), 2);
    assert_eq!(m.definitions[0].definition, "used as a greeting");
    assert_eq!(m.definitions[0].example.as_deref(), Some("hello there"));
    assert_eq!(m.definitions[0].synonyms, vec!["hi", "hey"]);
    assert_eq!(m.definitions[0].antonyms, vec!["goodbye"]);
    assert_eq!(m.definitions[1].example, None);
    assert!(m.definitions[1].synonyms.is_empty());
}

#[test]
fn preserves_order_of_entries_and_lists() {
    let body = r#"[
        {"word": "b", "phonetics": [], "meanings": [
            {"partOfSpeech": "noun", "definitions": [
                {"definition": "second sense", "synonyms": ["z", "a", "m"], "antonyms": []},
                {"definition": "first sense", "synonyms": [], "antonyms": []}
            ]},
            {"partOfSpeech": "verb", "definitions": [
                {"definition": "third sense", "synonyms": [], "antonyms": []}
            ]}
        ]},
        {"word": "a", "phonetics": [], "meanings": []}
    ]"#;
    let entries = decode_entries(body).unwrap();
    assert_eq!(entries.len(), 2);
    assert_eq!(entries[0].word, "b");
    assert_eq!(entries[1].word, "a");
    let ms = &entries[0].meanings;
    assert_eq!(ms[0].part_of_speech, "noun");
    assert_eq!(ms[1].part_of_speech, "verb");
    assert_eq!(ms[0].definitions[0].definition, "second sense");
    assert_eq!(ms[0].definitions[1].definition, "first sense");
    assert_eq!(ms[0].definitions[0].synonyms, vec!["z", "a", "m"]);
}

#[test]
fn empty_array_decodes_to_no_entries() {
    let entries = decode_entries("[]").unwrap();
    assert!(entries.is_empty());
}

#[test]
fn null_phonetic_decodes_as_absent() {
    let body = r#"[{"word": "x", "phonetic": null, "phonetics": [], "meanings": []}]"#;
    let entries = decode_entries(body).unwrap();
    assert_eq!(entries[0].phonetic, None);
}

#[test]
fn unknown_fields_are_ignored() {
    let body = r#"[{"word": "x", "origin": "unknown", "license": {"name": "n"},
        "phonetics": [], "meanings": []}]"#;
    let entries = decode_entries(body).unwrap();
    assert_eq!(entries[0].word, "x");
}

#[test]
fn invalid_json_is_a_syntax_error() {
    assert_eq!(decode_entries("not json").unwrap_err(), DecodeError::Syntax);
    assert_eq!(decode_entries("[{").unwrap_err(), DecodeError::Syntax);
}

#[test]
fn top_level_object_is_a_schema_error() {
    // The upstream "not found" shape: an error object instead of an array.
    let body = r#"{"title": "No Definitions Found", "message": "...", "resolution": "..."}"#;
    assert_eq!(decode_entries(body).unwrap_err(), DecodeError::Schema);
}

#[test]
fn missing_word_is_a_schema_error() {
    let body = r#"[{"phonetics": [], "meanings": []}]"#;
    assert_eq!(decode_entries(body).unwrap_err(), DecodeError::Schema);
}

#[test]
fn missing_part_of_speech_is_a_schema_error() {
    let body = r#"[{"word": "x", "phonetics": [], "meanings": [
        {"definitions": [{"definition": "d", "synonyms": [], "antonyms": []}]}
    ]}]"#;
    assert_eq!(decode_entries(body).unwrap_err(), DecodeError::Schema);
}

#[test]
fn missing_synonyms_is_a_schema_error() {
    let body = r#"[{"word": "x", "phonetics": [], "meanings": [
        {"partOfSpeech": "noun", "definitions": [{"definition": "d", "antonyms": []}]}
    ]}]"#;
    assert_eq!(decode_entries(body).unwrap_err(), DecodeError::Schema);
}

#[test]
fn type_mismatch_is_a_schema_error() {
    // A number where a string is required.
    let body = r#"[{"word": 7, "phonetics": [], "meanings": []}]"#;
    assert_eq!(decode_entries(body).unwrap_err(), DecodeError::Schema);
    // A string where an array is required.
    let body2 = r#"[{"word": "x", "phonetics": "none", "meanings": []}]"#;
    assert_eq!(decode_entries(body2).unwrap_err(), DecodeError::Schema);
    // A non-null, non-string optional field.
    let body3 = r#"[{"word": "x", "phonetic": 3, "phonetics": [], "meanings": []}]"#;
    assert_eq!(decode_entries(body3).unwrap_err(), DecodeError::Schema);
}

#[test]
fn one_bad_entry_fails_the_whole_response() {
    let body = r#"[
        {"word": "good", "phonetics": [], "meanings": []},
        {"phonetics": [], "meanings": []}
    ]"#;
    assert_eq!(decode_entries(body).unwrap_err(), DecodeError::Schema);
}

#[test]
fn non_object_phonetic_entry_is_a_schema_error() {
    let body = r#"[{"word": "x", "phonetics": ["oops"], "meanings": []}]"#;
    assert_eq!(decode_entries(body).unwrap_err(), DecodeError::Schema);
}

fn expected_round_trip_entry() -> DictionaryEntry {
    DictionaryEntry {
        word: "hello".to_string(),
        phonetic: Some("/həˈloʊ/".to_string()),
        phonetics: vec![
            PhoneticEntry {
                text: Some("/həˈloʊ/".to_string()),
                audio: Some("https://example.org/hello.mp3".to_string()),
            },
            PhoneticEntry { text: None, audio: None },
        ],
        meanings: vec![Meaning {
            part_of_speech: "exclamation".to_string(),
            definitions: vec![
                Definition {
                    definition: "used as a greeting".to_string(),
                    example: Some("hello there".to_string()),
                    synonyms: vec!["hi".to_string(), "hey".to_string()],
                    antonyms: vec!["goodbye".to_string()],
                },
                Definition {
                    definition: "an expression of surprise".to_string(),
                    example: None,
                    synonyms: vec![],
                    antonyms: vec![],
                },
            ],
        }],
    }
}

#[test]
fn decoded_entry_matches_value_built_by_hand() {
    let entries = decode_entries(full_body()).unwrap();
    let expected = expected_round_trip_entry();
    let e = &entries[0];
    assert_eq!(e.word, expected.word);
    assert_eq!(e.phonetic, expected.phonetic);
    assert_eq!(e.phonetics.len(), expected.phonetics.len());
    for (got, want) in e.phonetics.iter().zip(expected.phonetics.iter()) {
        assert_eq!(got.text, want.text);
        assert_eq!(got.audio, want.audio);
    }
    assert_eq!(e.meanings.len(), expected.meanings.len());
    for (got, want) in e.meanings.iter().zip(expected.meanings.iter()) {
        assert_eq!(got.part_of_speech, want.part_of_speech);
        assert_eq!(got.definitions.len(), want.definitions.len());
        for (g, w) in got.definitions.iter().zip(want.definitions.iter()) {
            assert_eq!(g.definition, w.definition);
            assert_eq!(g.example, w.example);
            assert_eq!(g.synonyms, w.synonyms);
            assert_eq!(g.antonyms, w.antonyms);
        }
    }
}
