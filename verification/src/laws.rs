//! The library's general guarantees, stated and proved once over the
//! decoder's and renderer's specifications.

use vstd::prelude::*;

use crate::decode::{
    decode_definition_json, decode_entries_json, decode_entries_seq, decode_entry_json,
    decode_meaning_json,
};
use crate::json::JsonData;
use crate::model::{DefinitionView, DictionaryEntryView, MeaningView, PhoneticEntryView};
use crate::render::{
    ansi_lines, ansi_span, ansi_spans, dashes, definition_block, definitions_lines,
    entries_lines, entry_lines, headword_line, headword_width, line_text, meaning_lines,
    meanings_lines, numbered_line, rendered_text, reset_code, separator_line, style_code,
    SpanView, Style,
};
use crate::text::{first_m, graphemes_of, strip_styling};

verus! {

/// A response of zero entries renders as zero lines and as the empty text.
pub proof fn lemma_empty_response_renders_nothing(es: Seq<DictionaryEntryView>)
    requires
        es.len() == 0,
    ensures
        entries_lines(es).len() == 0,
        rendered_text(es).len() == 0,
{
    assert(entries_lines(es) == Seq::<Seq<SpanView>>::empty());
    assert(ansi_lines(Seq::<Seq<SpanView>>::empty()) == Seq::<char>::empty());
}

/// An entry's block opens with its headword line and then a separator of
/// exactly as many dashes as the headword line has user-perceived
/// characters once styling is stripped; the same separator follows each
/// meaning.
pub proof fn lemma_entry_block_structure(e: DictionaryEntryView)
    ensures
        entry_lines(e).len() >= 2,
        entry_lines(e)[0] == headword_line(e),
        entry_lines(e)[1] == separator_line(headword_width(e)),
        separator_line(headword_width(e))[0].text == dashes(headword_width(e)),
        separator_line(headword_width(e))[0].text.len() == headword_width(e),
        entry_lines(e) == seq![headword_line(e), separator_line(headword_width(e))]
            + meanings_lines(e.meanings, separator_line(headword_width(e))),
{
    let sep = separator_line(headword_width(e));
    assert(entry_lines(e)[0] == headword_line(e));
    assert(entry_lines(e)[1] == sep);
}

/// A meaning object without a `partOfSpeech` field fails to decode.
pub proof fn lemma_missing_part_of_speech_fails(j: JsonData)
    requires
        j is Obj,
        !j->Obj_0.dom().contains("partOfSpeech"@),
    ensures
        decode_meaning_json(j) is None,
{
}

/// A meaning object without a `definitions` field fails to decode.
pub proof fn lemma_missing_definitions_fails(j: JsonData)
    requires
        j is Obj,
        !j->Obj_0.dom().contains("definitions"@),
    ensures
        decode_meaning_json(j) is None,
{
}

/// An entry object without a `word` field fails to decode.
pub proof fn lemma_missing_word_fails(j: JsonData)
    requires
        j is Obj,
        !j->Obj_0.dom().contains("word"@),
    ensures
        decode_entry_json(j) is None,
{
}

/// A definition object without a `definition` field fails to decode.
pub proof fn lemma_missing_definition_text_fails(j: JsonData)
    requires
        j is Obj,
        !j->Obj_0.dom().contains("definition"@),
    ensures
        decode_definition_json(j) is None,
{
}

/// One undecodable element fails the whole response: no partial list of
/// entries is ever recovered.
pub proof fn lemma_no_partial_entries(j: JsonData, i: int)
    requires
        j is Arr,
        0 <= i < j->Arr_0.len(),
        decode_entry_json(j->Arr_0[i]) is None,
    ensures
        decode_entries_json(j) is None,
{
    assert(decode_entries_seq(j->Arr_0) is None);
}

/// One undecodable meaning fails its whole entry.
pub proof fn lemma_bad_meaning_fails_entry(j: JsonData, i: int)
    requires
        j is Obj,
        j->Obj_0.dom().contains("meanings"@),
        j->Obj_0["meanings"@] is Arr,
        0 <= i < j->Obj_0["meanings"@]->Arr_0.len(),
        decode_meaning_json(j->Obj_0["meanings"@]->Arr_0[i]) is None,
    ensures
        decode_entry_json(j) is None,
{
    assert(crate::decode::decode_meanings_seq(j->Obj_0["meanings"@]->Arr_0) is None);
}

/// No escape character occurs in a text.
pub open spec fn esc_free(s: Seq<char>) -> bool {
    forall|i: int| 0 <= i < s.len() ==> s[i] != '\x1b'
}

proof fn lemma_strip_esc_free_prefix(a: Seq<char>, b: Seq<char>)
    requires
        esc_free(a),
    ensures
        strip_styling(a + b) == a + strip_styling(b),
    decreases a.len(),
{
    if a.len() == 0 {
        assert(a + b =~= b);
        assert(a + strip_styling(b) =~= strip_styling(b));
    } else {
        assert((a + b)[0] == a[0]);
        assert((a + b).drop_first() =~= a.drop_first() + b);
        lemma_strip_esc_free_prefix(a.drop_first(), b);
        assert(strip_styling(a + b) == seq![a[0]] + strip_styling(a.drop_first() + b));
        assert(strip_styling(a + b) =~= a + strip_styling(b));
    }
}

/// Stripping leaves an escape-free text untouched.
pub proof fn lemma_strip_esc_free(s: Seq<char>)
    requires
        esc_free(s),
    ensures
        strip_styling(s) == s,
{
    lemma_strip_esc_free_prefix(s, Seq::empty());
    assert(s + Seq::<char>::empty() =~= s);
    assert(strip_styling(Seq::<char>::empty()) == Seq::<char>::empty());
    assert(s + strip_styling(Seq::<char>::empty()) =~= s);
}

proof fn lemma_first_m_at(t: Seq<char>, rest: Seq<char>, k: int)
    requires
        0 <= k < t.len(),
        t[k] == 'm',
        forall|i: int| 0 <= i < k ==> t[i] != 'm' && t[i] != '\n',
    ensures
        first_m(t + rest) == Some(k as nat),
    decreases k,
{
    if k == 0 {
        assert((t + rest)[0] == 'm');
    } else {
        assert((t + rest)[0] == t[0]);
        assert((t + rest).drop_first() =~= t.drop_first() + rest);
        lemma_first_m_at(t.drop_first(), rest, k - 1);
    }
}

proof fn lemma_strip_code(code: Seq<char>, rest: Seq<char>)
    requires
        code.len() >= 3,
        code[0] == '\x1b',
        code[1] == '[',
        code[code.len() - 1] == 'm',
        forall|i: int| 2 <= i < code.len() - 1 ==> code[i] != 'm' && code[i] != '\n',
    ensures
        strip_styling(code + rest) == strip_styling(rest),
{
    let s = code + rest;
    assert(s.skip(2) =~= code.skip(2) + rest);
    lemma_first_m_at(code.skip(2), rest, code.len() - 3);
    assert(first_m(s.skip(2)) == Some((code.len() - 3) as nat));
    assert(s.skip(2 + (code.len() - 3) + 1) =~= rest);
}

proof fn lemma_code_shapes()
    ensures
        forall|st: Style|
            st != Style::Plain ==> (#[trigger] style_code(st)).len() >= 3 && style_code(st)[0]
                == '\x1b' && style_code(st)[1] == '[' && style_code(st)[style_code(st).len() - 1]
                == 'm' && (forall|i: int|
                2 <= i < style_code(st).len() - 1 ==> style_code(st)[i] != 'm' && style_code(
                    st,
                )[i] != '\n'),
        reset_code().len() >= 3,
        reset_code()[0] == '\x1b',
        reset_code()[1] == '[',
        reset_code()[reset_code().len() - 1] == 'm',
        forall|i: int| 2 <= i < reset_code().len() - 1 ==> reset_code()[i] != 'm' && reset_code(
            )[i] != '\n',
{
    reveal_strlit("\x1b[;1m");
    reveal_strlit("\x1b[;3m");
    reveal_strlit("\x1b[90m");
    reveal_strlit("\x1b[0m");
    assert forall|st: Style| st != Style::Plain implies (#[trigger] style_code(st)).len() >= 3
        && style_code(st)[0] == '\x1b' && style_code(st)[1] == '[' && style_code(st)[style_code(
        st,
    ).len() - 1] == 'm' && (forall|i: int|
        2 <= i < style_code(st).len() - 1 ==> style_code(st)[i] != 'm' && style_code(st)[i]
            != '\n') by {
        match st {
            Style::Plain => {},
            Style::Bold => {
                assert(style_code(st) == "\x1b[;1m"@);
            },
            Style::Italic => {
                assert(style_code(st) == "\x1b[;3m"@);
            },
            Style::Dim => {
                assert(style_code(st) == "\x1b[90m"@);
            },
        }
    }
}

/// Stripping the styling sequences from a rendered line's terminal text
/// recovers exactly the line's text, provided the spans' texts hold no
/// escape character of their own.
pub proof fn lemma_strip_recovers_line_text(l: Seq<SpanView>)
    requires
        forall|i: int| 0 <= i < l.len() ==> esc_free(#[trigger] l[i].text),
    ensures
        strip_styling(ansi_spans(l)) == line_text(l),
    decreases l.len(),
{
    lemma_code_shapes();
    if l.len() == 0 {
        assert(strip_styling(Seq::<char>::empty()) == Seq::<char>::empty());
    } else {
        lemma_strip_recovers_line_text(l.drop_first());
        let s0 = l[0];
        let rest = ansi_spans(l.drop_first());
        assert(ansi_spans(l) == ansi_span(s0) + rest);
        if s0.style is Plain {
            assert(ansi_span(s0) == s0.text);
            lemma_strip_esc_free_prefix(s0.text, rest);
            assert(strip_styling(ansi_spans(l)) =~= line_text(l));
        } else {
            let code = style_code(s0.style);
            assert(ansi_span(s0) + rest =~= code + (s0.text + (reset_code() + rest)));
            lemma_strip_code(code, s0.text + (reset_code() + rest));
            lemma_strip_esc_free_prefix(s0.text, reset_code() + rest);
            lemma_strip_code(reset_code(), rest);
            assert(strip_styling(ansi_spans(l)) == s0.text + strip_styling(rest));
            assert(strip_styling(ansi_spans(l)) =~= line_text(l));
        }
    }
}

/// The separator width measured on the emitted headword line — strip the
/// styling sequences, count the user-perceived characters — equals the
/// width the renderer sizes its separator to, for every word and phonetic
/// free of embedded escape characters.
pub proof fn lemma_separator_matches_emitted_line(e: DictionaryEntryView)
    requires
        esc_free(e.word),
        e.phonetic is Some ==> esc_free(e.phonetic->0),
    ensures
        graphemes_of(strip_styling(ansi_spans(headword_line(e)))) == headword_width(e),
{
    reveal_strlit("[\"");
    reveal_strlit("\"]");
    let hl = headword_line(e);
    assert forall|i: int| 0 <= i < hl.len() implies esc_free(#[trigger] hl[i].text) by {
        match e.phonetic {
            Some(p) => {
                assert(hl[1].text == "[\""@ + p + "\"]"@);
            },
            None => {},
        }
    }
    lemma_strip_recovers_line_text(hl);
    assert forall|i: int| 0 <= i < line_text(hl).len() implies line_text(hl)[i] != '\x1b' by {
        lemma_line_text_esc_free(hl);
    }
    lemma_strip_esc_free(line_text(hl));
}

proof fn lemma_line_text_esc_free(l: Seq<SpanView>)
    requires
        forall|i: int| 0 <= i < l.len() ==> esc_free(#[trigger] l[i].text),
    ensures
        esc_free(line_text(l)),
    decreases l.len(),
{
    if l.len() == 0 {
    } else {
        lemma_line_text_esc_free(l.drop_first());
        assert(line_text(l) == l[0].text + line_text(l.drop_first()));
        assert forall|i: int| 0 <= i < line_text(l).len() implies line_text(l)[i] != '\x1b' by {
            if i < l[0].text.len() {
                assert(line_text(l)[i] == l[0].text[i]);
            } else {
                assert(line_text(l)[i] == line_text(l.drop_first())[i - l[0].text.len()]);
            }
        }
    }
}

/// How many lines one definition renders to: two with an example, else one.
pub open spec fn def_block_len(d: DefinitionView) -> nat {
    if d.example is Some {
        2
    } else {
        1
    }
}

/// Where the numbered line of the definition at position `k` stands within
/// its row's rendered lines.
pub open spec fn def_line_pos(ds: Seq<DefinitionView>, k: int) -> nat
    decreases k,
{
    if k <= 0 {
        0
    } else {
        def_block_len(ds[0]) + def_line_pos(ds.drop_first(), k - 1)
    }
}

/// Definitions are numbered contiguously from `start`, in input order: the
/// definition at position `k` of the row gets the number `start + k`, on
/// the line at its block's position.
pub proof fn lemma_definition_numbering(ds: Seq<DefinitionView>, start: nat, k: int)
    requires
        0 <= k < ds.len(),
    ensures
        def_line_pos(ds, k) < definitions_lines(ds, start).len(),
        definitions_lines(ds, start)[def_line_pos(ds, k) as int] == numbered_line(
            (start + k) as nat,
            ds[k],
        ),
    decreases k,
{
    if k == 0 {
        assert(definition_block(start, ds[0])[0] == numbered_line(start, ds[0]));
        assert(definitions_lines(ds, start)[0] == numbered_line(start, ds[0]));
    } else {
        lemma_definition_numbering(ds.drop_first(), start + 1, k - 1);
        assert(definition_block(start, ds[0]).len() == def_block_len(ds[0]));
        assert(ds.drop_first()[k - 1] == ds[k]);
        assert(def_line_pos(ds, k) == def_block_len(ds[0]) + def_line_pos(
            ds.drop_first(),
            k - 1,
        ));
        assert(definitions_lines(ds, start)[def_line_pos(ds, k) as int] == definitions_lines(
            ds.drop_first(),
            start + 1,
        )[def_line_pos(ds.drop_first(), k - 1) as int]);
    }
}

/// Within one meaning's rendered block, the definition at position `k` is
/// numbered `k + 1`: numbering starts at 1, is contiguous, and follows
/// input order.
pub proof fn lemma_meaning_numbering(m: MeaningView, k: int)
    requires
        0 <= k < m.definitions.len(),
    ensures
        1 + def_line_pos(m.definitions, k) < meaning_lines(m).len(),
        meaning_lines(m)[1 + (def_line_pos(m.definitions, k) as int)] == numbered_line(
            (1 + k) as nat,
            m.definitions[k],
        ),
{
    lemma_definition_numbering(m.definitions, 1, k);
    assert(meaning_lines(m)[1 + (def_line_pos(m.definitions, k) as int)] == definitions_lines(
        m.definitions,
        1,
    )[def_line_pos(m.definitions, k) as int]);
}

/// The canonical encoding of a row of plain strings.
pub open spec fn str_seq_json(ss: Seq<Seq<char>>) -> JsonData {
    JsonData::Arr(Seq::new(ss.len(), |i: int| JsonData::Str(ss[i])))
}

/// The canonical encoding of one definition record; an absent example is
/// an absent field, never a null or an empty string.
pub open spec fn definition_json(d: DefinitionView) -> JsonData {
    let base = Map::<Seq<char>, JsonData>::empty().insert(
        "definition"@,
        JsonData::Str(d.definition),
    ).insert("synonyms"@, str_seq_json(d.synonyms)).insert(
        "antonyms"@,
        str_seq_json(d.antonyms),
    );
    match d.example {
        Some(ex) => JsonData::Obj(base.insert("example"@, JsonData::Str(ex))),
        None => JsonData::Obj(base),
    }
}

proof fn lemma_definition_keys_distinct()
    ensures
        "definition"@ != "synonyms"@,
        "definition"@ != "antonyms"@,
        "definition"@ != "example"@,
        "synonyms"@ != "antonyms"@,
        "synonyms"@ != "example"@,
        "antonyms"@ != "example"@,
{
    reveal_strlit("definition");
    reveal_strlit("synonyms");
    reveal_strlit("antonyms");
    reveal_strlit("example");
    assert("definition"@.len() == 10);
    assert("synonyms"@.len() == 8);
    assert("antonyms"@.len() == 8);
    assert("example"@.len() == 7);
    assert("synonyms"@[0] == 's');
    assert("antonyms"@[0] == 'a');
}

/// Decoding an encoded definition yields it back exactly.
pub proof fn lemma_definition_round_trip(d: DefinitionView)
    ensures
        decode_definition_json(definition_json(d)) == Some(d),
{
    lemma_definition_keys_distinct();
    let j = definition_json(d);
    let o = j->Obj_0;
    assert(o["definition"@] == JsonData::Str(d.definition));
    assert(o["synonyms"@] == str_seq_json(d.synonyms));
    assert(o["antonyms"@] == str_seq_json(d.antonyms));
    assert(crate::decode::decode_str_seq(str_seq_json(d.synonyms)->Arr_0)
        == Some(d.synonyms)) by {
        lemma_str_seq_round_trip(d.synonyms);
    }
    assert(crate::decode::decode_str_seq(str_seq_json(d.antonyms)->Arr_0)
        == Some(d.antonyms)) by {
        lemma_str_seq_round_trip(d.antonyms);
    }
    match d.example {
        Some(ex) => {
            assert(o["example"@] == JsonData::Str(ex));
        },
        None => {
            assert(!o.dom().contains("example"@));
        },
    }
    assert(decode_definition_json(j)->Some_0 =~= d);
}

/// Decoding an encoded row of strings yields it back exactly.
proof fn lemma_str_seq_round_trip(ss: Seq<Seq<char>>)
    ensures
        crate::decode::decode_str_seq(str_seq_json(ss)->Arr_0) == Some(ss),
{
    let s = str_seq_json(ss)->Arr_0;
    assert(forall|i: int|
        0 <= i < s.len() ==> (#[trigger] crate::decode::str_elem(s[i])) is Some);
    assert(crate::decode::decode_str_seq(s)->Some_0 =~= ss);
}

/// The canonical encoding of one phonetic record; absent fields stay
/// absent.
pub open spec fn phonetic_json(p: PhoneticEntryView) -> JsonData {
    let m0 = Map::<Seq<char>, JsonData>::empty();
    let m1 = match p.text {
        Some(t) => m0.insert("text"@, JsonData::Str(t)),
        None => m0,
    };
    let m2 = match p.audio {
        Some(a) => m1.insert("audio"@, JsonData::Str(a)),
        None => m1,
    };
    JsonData::Obj(m2)
}

/// The canonical encoding of one meaning record.
pub open spec fn meaning_json(m: MeaningView) -> JsonData {
    JsonData::Obj(
        Map::<Seq<char>, JsonData>::empty().insert(
            "partOfSpeech"@,
            JsonData::Str(m.part_of_speech),
        ).insert(
            "definitions"@,
            JsonData::Arr(
                Seq::new(m.definitions.len(), |i: int| definition_json(m.definitions[i])),
            ),
        ),
    )
}

/// The canonical encoding of one entry record; an absent phonetic stays
/// absent.
pub open spec fn entry_json(e: DictionaryEntryView) -> JsonData {
    let base = Map::<Seq<char>, JsonData>::empty().insert("word"@, JsonData::Str(e.word)).insert(
        "phonetics"@,
        JsonData::Arr(Seq::new(e.phonetics.len(), |i: int| phonetic_json(e.phonetics[i]))),
    ).insert(
        "meanings"@,
        JsonData::Arr(Seq::new(e.meanings.len(), |i: int| meaning_json(e.meanings[i]))),
    );
    match e.phonetic {
        Some(p) => JsonData::Obj(base.insert("phonetic"@, JsonData::Str(p))),
        None => JsonData::Obj(base),
    }
}

/// The canonical encoding of a whole response: the entries in order.
pub open spec fn entries_json(es: Seq<DictionaryEntryView>) -> JsonData {
    JsonData::Arr(Seq::new(es.len(), |i: int| entry_json(es[i])))
}

/// Decoding an encoded phonetic record yields it back exactly.
pub proof fn lemma_phonetic_round_trip(p: PhoneticEntryView)
    ensures
        crate::decode::decode_phonetic_json(phonetic_json(p)) == Some(p),
{
    reveal_strlit("text");
    reveal_strlit("audio");
    assert("text"@.len() == 4);
    assert("audio"@.len() == 5);
    let j = phonetic_json(p);
    let o = j->Obj_0;
    match p.text {
        Some(t) => {
            assert(o["text"@] == JsonData::Str(t));
        },
        None => {
            assert(!o.dom().contains("text"@));
        },
    }
    match p.audio {
        Some(a) => {
            assert(o["audio"@] == JsonData::Str(a));
        },
        None => {
            assert(!o.dom().contains("audio"@));
        },
    }
    assert(crate::decode::decode_phonetic_json(j)->Some_0 =~= p);
}

/// Decoding an encoded meaning record yields it back exactly.
pub proof fn lemma_meaning_round_trip(m: MeaningView)
    ensures
        crate::decode::decode_meaning_json(meaning_json(m)) == Some(m),
{
    reveal_strlit("partOfSpeech");
    reveal_strlit("definitions");
    assert("partOfSpeech"@.len() == 12);
    assert("definitions"@.len() == 11);
    let j = meaning_json(m);
    let o = j->Obj_0;
    assert(o["partOfSpeech"@] == JsonData::Str(m.part_of_speech));
    let ds = o["definitions"@]->Arr_0;
    assert forall|i: int| 0 <= i < ds.len() implies (#[trigger] decode_definition_json(
        ds[i],
    )) is Some && decode_definition_json(ds[i])->Some_0 == m.definitions[i] by {
        lemma_definition_round_trip(m.definitions[i]);
    }
    assert(crate::decode::decode_definitions_seq(ds) is Some);
    assert(crate::decode::decode_definitions_seq(ds)->Some_0 =~= m.definitions);
    assert(decode_meaning_json(j)->Some_0 =~= m);
}

/// Decoding an encoded entry record yields it back exactly.
pub proof fn lemma_entry_round_trip(e: DictionaryEntryView)
    ensures
        decode_entry_json(entry_json(e)) == Some(e),
{
    reveal_strlit("word");
    reveal_strlit("phonetic");
    reveal_strlit("phonetics");
    reveal_strlit("meanings");
    assert("word"@.len() == 4);
    assert("phonetic"@.len() == 8);
    assert("phonetics"@.len() == 9);
    assert("meanings"@.len() == 8);
    assert("phonetic"@[0] == 'p');
    assert("meanings"@[0] == 'm');
    let j = entry_json(e);
    let o = j->Obj_0;
    assert(o["word"@] == JsonData::Str(e.word));
    let phs = o["phonetics"@]->Arr_0;
    assert forall|i: int| 0 <= i < phs.len() implies (
    #[trigger] crate::decode::decode_phonetic_json(phs[i])) is Some
        && crate::decode::decode_phonetic_json(phs[i])->Some_0 == e.phonetics[i] by {
        lemma_phonetic_round_trip(e.phonetics[i]);
    }
    assert(crate::decode::decode_phonetics_seq(phs) is Some);
    assert(crate::decode::decode_phonetics_seq(phs)->Some_0 =~= e.phonetics);
    let ms = o["meanings"@]->Arr_0;
    assert forall|i: int| 0 <= i < ms.len() implies (#[trigger] decode_meaning_json(
        ms[i],
    )) is Some && decode_meaning_json(ms[i])->Some_0 == e.meanings[i] by {
        lemma_meaning_round_trip(e.meanings[i]);
    }
    assert(crate::decode::decode_meanings_seq(ms) is Some);
    assert(crate::decode::decode_meanings_seq(ms)->Some_0 =~= e.meanings);
    match e.phonetic {
        Some(p) => {
            assert(o["phonetic"@] == JsonData::Str(p));
        },
        None => {
            assert(!o.dom().contains("phonetic"@));
        },
    }
    assert(decode_entry_json(j)->Some_0 =~= e);
}

/// Decoding an encoded response yields the entries back exactly: encoding
/// then decoding preserves each word and phonetic and the order of
/// phonetics, meanings, definitions, synonyms and antonyms.
pub proof fn lemma_entries_round_trip(es: Seq<DictionaryEntryView>)
    ensures
        decode_entries_json(entries_json(es)) == Some(es),
{
    let s = entries_json(es)->Arr_0;
    assert forall|i: int| 0 <= i < s.len() implies (#[trigger] decode_entry_json(
        s[i],
    )) is Some && decode_entry_json(s[i])->Some_0 == es[i] by {
        lemma_entry_round_trip(es[i]);
    }
    assert(decode_entries_seq(s) is Some);
    assert(decode_entries_seq(s)->Some_0 =~= es);
}

/// Re-encoding what a response decoded to loses nothing: the re-encoded
/// document decodes to the same entries as the original document.
pub proof fn lemma_decode_then_encode(j: JsonData)
    requires
        decode_entries_json(j) is Some,
    ensures
        decode_entries_json(entries_json(decode_entries_json(j)->Some_0))
            == decode_entries_json(j),
{
    lemma_entries_round_trip(decode_entries_json(j)->Some_0);
}

} // verus!
