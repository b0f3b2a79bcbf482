use dict_lookup::lookup_output;
use dict_lookup::lookup_url;
use dict_lookup::model::{Definition, DictionaryEntry, Meaning};
use dict_lookup::render::{render_text, Style};
use dict_lookup::text::visible_width;

const BOLD: &str = "\x1b[;1m";
const ITALIC: &str = "\x1b[;3m";
const DIM: &str = "\x1b[90m";
const RESET: &str = "\x1b[0m";

fn entry(word: &str, phonetic: Option<&str>, meanings: Vec<Meaning>) -> DictionaryEntry {
    DictionaryEntry {
        word: word.to_string(),
        phonetic: phonetic.map(|p| p.to_string()),
        phonetics: vec![],
        meanings,
    }
}

fn meaning(pos: &str, defs: Vec<Definition>) -> Meaning {
    Meaning {
        part_of_speech: pos.to_string(),
        definitions: defs,
    }
}

fn definition(text: &str, example: Option<&str>) -> Definition {
    Definition {
        definition: text.to_string(),
        example: example.map(|e| e.to_string()),
        synonyms: vec![],
        antonyms: vec![],
    }
}

#[test]
fn builds_the_lookup_url() {
    assert_eq!(
        lookup_url("hello"),
        "https://api.dictionaryapi.dev/api/v2/entries/en/hello"
    );
    assert_eq!(
        lookup_url("serendipity"),
        "https://api.dictionaryapi.dev/api/v2/entries/en/serendipity"
    );
}

#[test]
fn scenario_one_meaning_one_definition_no_example() {
    // Word "hello", one meaning "exclamation", one definition, no example:
    // headword line, separator, part of speech, numbered definition,
    // separator — and no example line.
    let e = entry(
        "hello",
        None,
        vec![meaning(
            "exclamation",
            vec![definition("used as a greeting or to begin a phone conversation", None)],
        )],
    );
    let out = render_text(&vec![e]);
    let expected = format!(
        "{BOLD}hello{RESET}\n{DIM}-----{RESET}\n{BOLD}(exclamation){RESET}\n1. used as a greeting or to begin a phone conversation\n{DIM}-----{RESET}\n"
    );
    assert_eq!(out, expected);
}

#[test]
fn scenario_phonetic_extends_headword_and_separator() {
    // The bracketed phonetic follows the word at once, and the separator
    // counts the added text: hello(5) + ["(2) + /həˈloʊ/(8) + "](2) = 17.
    let e = entry("hello", Some("/həˈloʊ/"), vec![]);
    let out = render_text(&vec![e]);
    let expected = format!(
        "{BOLD}hello{RESET}[\"/həˈloʊ/\"]\n{DIM}{}{RESET}\n",
        "-".repeat(17)
    );
    assert_eq!(out, expected);
}

#[test]
fn scenario_example_line_follows_its_definition() {
    // A definition with an example gets an indented, italicised, quoted
    // line right beneath its numbered line, before the next definition.
    let e = entry(
        "greet",
        None,
        vec![meaning(
            "verb",
            vec![
                definition("to welcome someone", Some("she greeted us warmly")),
                definition("to react to something", None),
            ],
        )],
    );
    let out = render_text(&vec![e]);
    let expected = format!(
        "{BOLD}greet{RESET}\n{DIM}-----{RESET}\n{BOLD}(verb){RESET}\n1. to welcome someone\n   {ITALIC}\"she greeted us warmly\"{RESET}\n2. to react to something\n{DIM}-----{RESET}\n"
    );
    assert_eq!(out, expected);
}

#[test]
fn definitions_are_numbered_from_one_in_input_order() {
    let defs: Vec<Definition> = (0..12)
        .map(|i| definition(&format!("sense number {}", i), None))
        .collect();
    let e = entry("w", None, vec![meaning("noun", defs)]);
    let out = render_text(&vec![e]);
    for i in 0..12 {
        let line = format!("{}. sense number {}\n", i + 1, i);
        assert!(out.contains(&line), "missing line: {line:?}");
    }
    // Contiguous and in input order: line k + 1 comes after line k.
    let mut last = 0;
    for i in 0..12 {
        let pos = out.find(&format!("\n{}. ", i + 1)).unwrap();
        assert!(pos > last);
        last = pos;
    }
}

#[test]
fn zero_entries_render_as_nothing() {
    let out = render_text(&vec![]);
    assert_eq!(out, "");
}

#[test]
fn separator_counts_graphemes_not_chars() {
    // "café" written with a combining acute: five chars, four perceived
    // characters, so four dashes.
    let word = "cafe\u{301}";
    assert_eq!(word.chars().count(), 5);
    let e = entry(word, None, vec![]);
    let out = render_text(&vec![e]);
    let expected = format!("{BOLD}cafe\u{301}{RESET}\n{DIM}----{RESET}\n");
    assert_eq!(out, expected);
}

#[test]
fn separator_width_matches_visible_width_of_headword_line() {
    let e = entry("hello", Some("/həˈloʊ/"), vec![meaning("noun", vec![])]);
    let out = render_text(&vec![e]);
    let mut lines = out.lines();
    let head = lines.next().unwrap();
    let sep = lines.next().unwrap();
    let dash_count = sep
        .strip_prefix(DIM)
        .unwrap()
        .strip_suffix(RESET)
        .unwrap()
        .chars()
        .count();
    assert_eq!(dash_count, visible_width(head));
}

#[test]
fn visible_width_strips_styling_and_counts_perceived_chars() {
    assert_eq!(visible_width("hello"), 5);
    assert_eq!(visible_width("\x1b[;1mhello\x1b[0m"), 5);
    assert_eq!(visible_width("\x1b[90m\x1b[0m"), 0);
    assert_eq!(visible_width("e\u{301}"), 1);
    assert_eq!(visible_width(""), 0);
    // A styling sequence ends at the first `m`.
    assert_eq!(visible_width("\x1b[zmab"), 2);
    // A newline never belongs to a styling sequence: nothing is stripped
    // here, and each of the seven characters counts.
    assert_eq!(visible_width("a\x1b[z\nmb"), 7);
}

#[test]
fn entry_render_lines_gives_the_styled_structure() {
    let e = entry(
        "hi",
        None,
        vec![meaning("noun", vec![definition("a word", Some("hi!"))])],
    );
    let lines = e.render_lines();
    // Headword, separator, part of speech, numbered line, example line,
    // separator.
    assert_eq!(lines.len(), 6);
    assert_eq!(lines[0].len(), 1);
    assert_eq!(lines[0][0].style, Style::Bold);
    assert_eq!(lines[0][0].text, "hi");
    assert_eq!(lines[1][0].style, Style::Dim);
    assert_eq!(lines[1][0].text, "--");
    assert_eq!(lines[2][0].style, Style::Bold);
    assert_eq!(lines[2][0].text, "(noun)");
    assert_eq!(lines[3][0].style, Style::Plain);
    assert_eq!(lines[3][0].text, "1. a word");
    assert_eq!(lines[4].len(), 2);
    assert_eq!(lines[4][0].style, Style::Plain);
    assert_eq!(lines[4][0].text, "   ");
    assert_eq!(lines[4][1].style, Style::Italic);
    assert_eq!(lines[4][1].text, "\"hi!\"");
    assert_eq!(lines[5][0].style, Style::Dim);
    assert_eq!(lines[5][0].text, "--");
}

#[test]
fn headword_spans_include_the_bracketed_phonetic() {
    let e = entry("go", Some("/ɡoʊ/"), vec![]);
    let spans = e.headword_spans();
    assert_eq!(spans.len(), 2);
    assert_eq!(spans[0].style, Style::Bold);
    assert_eq!(spans[0].text, "go");
    assert_eq!(spans[1].style, Style::Plain);
    assert_eq!(spans[1].text, "[\"/ɡoʊ/\"]");
}

#[test]
fn meaning_render_lines_stand_alone() {
    let m = meaning("verb", vec![definition("to move", None)]);
    let lines = m.render_lines();
    assert_eq!(lines.len(), 2);
    assert_eq!(lines[0][0].text, "(verb)");
    assert_eq!(lines[1][0].text, "1. to move");
}

#[test]
fn lookup_output_renders_a_decoded_body() {
    let body = r#"[{"word": "hi", "phonetics": [], "meanings": [
        {"partOfSpeech": "exclamation", "definitions": [
            {"definition": "a greeting", "synonyms": [], "antonyms": []}
        ]}
    ]}]"#;
    let out = lookup_output(body).unwrap();
    let expected = format!(
        "{BOLD}hi{RESET}\n{DIM}--{RESET}\n{BOLD}(exclamation){RESET}\n1. a greeting\n{DIM}--{RESET}\n"
    );
    assert_eq!(out, expected);
}

#[test]
fn lookup_output_of_empty_response_is_empty() {
    assert_eq!(lookup_output("[]").unwrap(), "");
}

#[test]
fn lookup_output_fails_on_bad_bodies() {
    assert!(lookup_output("nonsense").is_err());
    assert!(lookup_output(r#"{"title": "No Definitions Found"}"#).is_err());
}
