use dict_lookup::decode::decode_entries;
use dict_lookup::model::{Definition, DictionaryEntry, Meaning, PhoneticEntry};
use dict_lookup::serialize::entries_to_json;

fn sample_entries() -> Vec<DictionaryEntry> {
    vec![
        DictionaryEntry {
            word: "hello".to_string(),
            phonetic: Some("/həˈloʊ/".to_string()),
            phonetics: vec![
                PhoneticEntry {
                    text: Some("/həˈloʊ/".to_string()),
                    audio: Some("https://example.org/hello.mp3".to_string()),
                },
                PhoneticEntry { text: None, audio: None },
                PhoneticEntry { text: None, audio: Some("a".to_string()) },
            ],
            meanings: vec![
                Meaning {
                    part_of_speech: "exclamation".to_string(),
                    definitions: vec![
                        Definition {
                            definition: "used as a greeting".to_string(),
                            example: Some("she said \"hello\"\nand left".to_string()),
                            synonyms: vec!["hi".to_string(), "hey".to_string()],
                            antonyms: vec![],
                        },
                        Definition {
                            definition: "back\\slash and\ttab".to_string(),
                            example: None,
                            synonyms: vec![],
                            antonyms: vec!["goodbye".to_string()],
                        },
                    ],
                },
                Meaning {
                    part_of_speech: "noun".to_string(),
                    definitions: vec![],
                },
            ],
        },
        DictionaryEntry {
            word: "z".to_string(),
            phonetic: None,
            phonetics: vec![],
            meanings: vec![],
        },
    ]
}

#[test]
fn serializing_then_decoding_preserves_everything() {
    // The order-preservation round trip: every word, phonetic and list
    // order survives serialization and a fresh decode unchanged.
    let entries = sample_entries();
    let text = entries_to_json(&entries);
    let back = decode_entries(&text).unwrap();
    assert_eq!(back, entries);
}

#[test]
fn decoding_then_reserializing_preserves_the_decoded_fields() {
    let body = r#"[
        {"word": "hello", "phonetic": "/həˈloʊ/", "ignored": 1,
         "phonetics": [{"text": "/həˈloʊ/"}],
         "meanings": [{"partOfSpeech": "exclamation", "definitions": [
            {"definition": "a greeting", "example": "well, hello!",
             "synonyms": ["hi"], "antonyms": ["bye"]}
         ]}]}
    ]"#;
    let first = decode_entries(body).unwrap();
    let reserialized = entries_to_json(&first);
    let second = decode_entries(&reserialized).unwrap();
    assert_eq!(second, first);
}

#[test]
fn serializes_control_characters_as_escapes() {
    let entries = vec![DictionaryEntry {
        word: "a\u{1}b".to_string(),
        phonetic: None,
        phonetics: vec![],
        meanings: vec![],
    }];
    let text = entries_to_json(&entries);
    assert_eq!(
        text,
        r#"[{"word":"a\u0001b","phonetics":[],"meanings":[]}]"#
    );
    let back = decode_entries(&text).unwrap();
    assert_eq!(back, entries);
}

#[test]
fn serializes_an_empty_response() {
    let text = entries_to_json(&vec![]);
    assert_eq!(text, "[]");
    assert!(decode_entries(&text).unwrap().is_empty());
}
