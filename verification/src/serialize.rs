//! A JSON serializer for decoded entries: writes the canonical JSON text of
//! a response, with every field the decoder reads, in decoder-compatible
//! shape, so that a serialized response decodes back to the same entries.

use vstd::prelude::*;

use crate::model::{
    Definition, DefinitionView, DictionaryEntry, DictionaryEntryView, Meaning, MeaningView,
    PhoneticEntry, PhoneticEntryView,
};

verus! {

/// The lower-case hexadecimal digit character for one digit value.
pub open spec fn hex_digit(d: nat) -> char
    recommends
        d < 16,
{
    "0123456789abcdef"@[d as int]
}

/// The JSON escape of one character: the two-character escapes for quote,
/// backslash and the common control characters, a `\u00` escape for the
/// other control characters, and the character itself otherwise.
pub open spec fn escape_char(c: char) -> Seq<char> {
    if c == '"' {
        "\\\""@
    } else if c == '\\' {
        "\\\\"@
    } else if c == '\n' {
        "\\n"@
    } else if c == '\r' {
        "\\r"@
    } else if c == '\t' {
        "\\t"@
    } else if (c as u32) < 0x20 {
        "\\u00"@ + seq![hex_digit(((c as u32) / 16) as nat), hex_digit(((c as u32) % 16) as nat)]
    } else {
        seq![c]
    }
}

/// A text with every character JSON-escaped.
pub open spec fn escape_str(s: Seq<char>) -> Seq<char>
    decreases s.len(),
{
    if s.len() == 0 {
        Seq::empty()
    } else {
        escape_char(s[0]) + escape_str(s.drop_first())
    }
}

/// A JSON string literal: the escaped text in double quotes.
pub open spec fn quoted(s: Seq<char>) -> Seq<char> {
    "\""@ + escape_str(s) + "\""@
}

/// Texts joined with commas.
pub open spec fn joined(items: Seq<Seq<char>>) -> Seq<char>
    decreases items.len(),
{
    if items.len() == 0 {
        Seq::empty()
    } else if items.len() == 1 {
        items[0]
    } else {
        items[0] + ","@ + joined(items.drop_first())
    }
}

/// The JSON text of an array of strings.
pub open spec fn str_list_text(ss: Seq<Seq<char>>) -> Seq<char> {
    "["@ + joined(Seq::new(ss.len(), |i: int| quoted(ss[i]))) + "]"@
}

/// The JSON text of one definition record; an absent example is an absent
/// field.
pub open spec fn definition_text(d: DefinitionView) -> Seq<char> {
    "{\"definition\":"@ + quoted(d.definition) + (match d.example {
        Some(ex) => ",\"example\":"@ + quoted(ex),
        None => Seq::<char>::empty(),
    }) + ",\"synonyms\":"@ + str_list_text(d.synonyms) + ",\"antonyms\":"@ + str_list_text(
        d.antonyms,
    ) + "}"@
}

/// The JSON text of one meaning record.
pub open spec fn meaning_text(m: MeaningView) -> Seq<char> {
    "{\"partOfSpeech\":"@ + quoted(m.part_of_speech) + ",\"definitions\":["@ + joined(
        Seq::new(m.definitions.len(), |i: int| definition_text(m.definitions[i])),
    ) + "]}"@
}

/// The JSON text of one phonetic record; absent fields stay absent.
pub open spec fn phonetic_text(p: PhoneticEntryView) -> Seq<char> {
    match (p.text, p.audio) {
        (Some(t), Some(a)) => "{\"text\":"@ + quoted(t) + ",\"audio\":"@ + quoted(a) + "}"@,
        (Some(t), None) => "{\"text\":"@ + quoted(t) + "}"@,
        (None, Some(a)) => "{\"audio\":"@ + quoted(a) + "}"@,
        (None, None) => "{}"@,
    }
}

/// The JSON text of one entry record; an absent phonetic stays absent.
pub open spec fn entry_text(e: DictionaryEntryView) -> Seq<char> {
    "{\"word\":"@ + quoted(e.word) + (match e.phonetic {
        Some(p) => ",\"phonetic\":"@ + quoted(p),
        None => Seq::<char>::empty(),
    }) + ",\"phonetics\":["@ + joined(
        Seq::new(e.phonetics.len(), |i: int| phonetic_text(e.phonetics[i])),
    ) + "],\"meanings\":["@ + joined(
        Seq::new(e.meanings.len(), |i: int| meaning_text(e.meanings[i])),
    ) + "]}"@
}

/// The JSON text of a whole response: the entries, in order.
pub open spec fn entries_text(es: Seq<DictionaryEntryView>) -> Seq<char> {
    "["@ + joined(Seq::new(es.len(), |i: int| entry_text(es[i]))) + "]"@
}

proof fn lemma_escape_str_push(s: Seq<char>, c: char)
    ensures
        escape_str(s.push(c)) == escape_str(s) + escape_char(c),
    decreases s.len(),
{
    if s.len() == 0 {
        assert(s.push(c).drop_first() =~= Seq::<char>::empty());
        assert(escape_str(Seq::<char>::empty()) == Seq::<char>::empty());
        assert(s.push(c)[0] == c);
        assert(escape_str(s.push(c)) == escape_char(c) + Seq::<char>::empty());
        assert(escape_str(s.push(c)) =~= escape_str(s) + escape_char(c));
    } else {
        assert(s.push(c).drop_first() =~= s.drop_first().push(c));
        lemma_escape_str_push(s.drop_first(), c);
        assert(s.push(c)[0] == s[0]);
        assert(escape_str(s.push(c)) == escape_char(s[0]) + escape_str(s.drop_first().push(c)));
        assert(escape_str(s.push(c)) =~= escape_str(s) + escape_char(c));
    }
}

proof fn lemma_joined_push(items: Seq<Seq<char>>, x: Seq<char>)
    ensures
        items.len() == 0 ==> joined(items.push(x)) == x,
        items.len() > 0 ==> joined(items.push(x)) == joined(items) + ","@ + x,
    decreases items.len(),
{
    if items.len() == 0 {
        assert(items.push(x)[0] == x);
        assert(joined(items.push(x)) == x);
    } else if items.len() == 1 {
        assert(items.push(x).drop_first() =~= items.drop_first().push(x));
        assert(items.push(x)[0] == items[0]);
        assert(items.drop_first().push(x).len() == 1);
        assert(items.drop_first().push(x)[0] == x);
        assert(joined(items.drop_first().push(x)) == x);
        assert(joined(items.push(x)) == items[0] + ","@ + x);
        assert(joined(items) == items[0]);
    } else {
        assert(items.push(x).drop_first() =~= items.drop_first().push(x));
        lemma_joined_push(items.drop_first(), x);
        assert(items.push(x)[0] == items[0]);
        assert(joined(items.push(x)) == items[0] + ","@ + joined(items.drop_first().push(x)));
        assert(joined(items.push(x)) =~= joined(items) + ","@ + x);
    }
}

/// Appends the JSON escape of a text.
fn escape_into(s: &str, out: &mut String)
    ensures
        final(out)@ == old(out)@ + escape_str(s@),
{
    let n = s.unicode_len();
    let mut i: usize = 0;
    proof {
        assert(escape_str(s@.take(0)) == Seq::<char>::empty());
        assert(out@ =~= old(out)@ + escape_str(s@.take(0)));
    }
    while i < n
        invariant
            0 <= i <= n,
            n == s@.len(),
            out@ == old(out)@ + escape_str(s@.take(i as int)),
        decreases n - i,
    {
        let c = s.get_char(i);
        if c == '"' {
            out.append("\\\"");
        } else if c == '\\' {
            out.append("\\\\");
        } else if c == '\n' {
            out.append("\\n");
        } else if c == '\r' {
            out.append("\\r");
        } else if c == '\t' {
            out.append("\\t");
        } else if (c as u32) < 0x20 {
            out.append("\\u00");
            let hex = "0123456789abcdef";
            proof {
                reveal_strlit("0123456789abcdef");
            }
            let hi = ((c as u32) / 16) as usize;
            let lo = ((c as u32) % 16) as usize;
            out.append(hex.substring_char(hi, hi + 1));
            out.append(hex.substring_char(lo, lo + 1));
            proof {
                assert(hex@.subrange(hi as int, hi + 1 as int) =~= seq![
                    hex_digit(((c as u32) / 16) as nat),
                ]);
                assert(hex@.subrange(lo as int, lo + 1 as int) =~= seq![
                    hex_digit(((c as u32) % 16) as nat),
                ]);
            }
        } else {
            out.append(s.substring_char(i, i + 1));
            proof {
                assert(s@.subrange(i as int, i + 1 as int) =~= seq![s@[i as int]]);
            }
        }
        proof {
            assert(s@.take(i + 1 as int) =~= s@.take(i as int).push(s@[i as int]));
            lemma_escape_str_push(s@.take(i as int), s@[i as int]);
            assert(out@ =~= old(out)@ + escape_str(s@.take(i + 1 as int)));
        }
        i += 1;
    }
    proof {
        assert(s@.take(n as int) =~= s@);
    }
}

/// Appends a JSON string literal.
fn quoted_into(s: &str, out: &mut String)
    ensures
        final(out)@ == old(out)@ + quoted(s@),
{
    out.append("\"");
    escape_into(s, out);
    out.append("\"");
    proof {
        assert(out@ =~= old(out)@ + quoted(s@));
    }
}

/// Appends the JSON text of an array of strings.
fn str_list_into(ss: &Vec<String>, out: &mut String)
    ensures
        final(out)@ == old(out)@ + str_list_text(ss.deep_view()),
{
    let ghost items = Seq::new(ss.deep_view().len(), |i: int| quoted(ss.deep_view()[i]));
    out.append("[");
    let mut i: usize = 0;
    proof {
        assert(items.take(0) =~= Seq::<Seq<char>>::empty());
        assert(out@ =~= old(out)@ + "["@ + joined(items.take(0)));
    }
    while i < ss.len()
        invariant
            0 <= i <= ss@.len(),
            ss.deep_view().len() == ss@.len(),
            items == Seq::new(ss.deep_view().len(), |i: int| quoted(ss.deep_view()[i])),
            out@ == old(out)@ + "["@ + joined(items.take(i as int)),
        decreases ss@.len() - i,
    {
        if i > 0 {
            out.append(",");
        }
        quoted_into(ss[i].as_str(), out);
        proof {
            assert(ss[i as int]@ == ss.deep_view()[i as int]);
            assert(items.take(i + 1 as int) =~= items.take(i as int).push(items[i as int]));
            lemma_joined_push(items.take(i as int), items[i as int]);
            assert(out@ =~= old(out)@ + "["@ + joined(items.take(i + 1 as int)));
        }
        i += 1;
    }
    out.append("]");
    proof {
        assert(items.take(ss@.len() as int) =~= items);
        assert(out@ =~= old(out)@ + str_list_text(ss.deep_view()));
    }
}

/// Appends the JSON text of one definition record.
fn definition_into(d: &Definition, out: &mut String)
    ensures
        final(out)@ == old(out)@ + definition_text(d@),
{
    out.append("{\"definition\":");
    quoted_into(d.definition.as_str(), out);
    match &d.example {
        Some(ex) => {
            out.append(",\"example\":");
            quoted_into(ex.as_str(), out);
        },
        None => {},
    }
    out.append(",\"synonyms\":");
    str_list_into(&d.synonyms, out);
    out.append(",\"antonyms\":");
    str_list_into(&d.antonyms, out);
    out.append("}");
    proof {
        assert(out@ =~= old(out)@ + definition_text(d@));
    }
}

/// Appends the JSON text of one phonetic record.
fn phonetic_into(p: &PhoneticEntry, out: &mut String)
    ensures
        final(out)@ == old(out)@ + phonetic_text(p@),
{
    match (&p.text, &p.audio) {
        (Some(t), Some(a)) => {
            out.append("{\"text\":");
            quoted_into(t.as_str(), out);
            out.append(",\"audio\":");
            quoted_into(a.as_str(), out);
            out.append("}");
        },
        (Some(t), None) => {
            out.append("{\"text\":");
            quoted_into(t.as_str(), out);
            out.append("}");
        },
        (None, Some(a)) => {
            out.append("{\"audio\":");
            quoted_into(a.as_str(), out);
            out.append("}");
        },
        (None, None) => {
            out.append("{}");
        },
    }
    proof {
        assert(out@ =~= old(out)@ + phonetic_text(p@));
    }
}

/// Appends the JSON text of one meaning record.
fn meaning_into(m: &Meaning, out: &mut String)
    ensures
        final(out)@ == old(out)@ + meaning_text(m@),
{
    let ghost items = Seq::new(
        m.definitions.deep_view().len(),
        |i: int| definition_text(m.definitions.deep_view()[i]),
    );
    out.append("{\"partOfSpeech\":");
    quoted_into(m.part_of_speech.as_str(), out);
    out.append(",\"definitions\":[");
    let ghost mid = out@;
    let mut i: usize = 0;
    proof {
        assert(items.take(0) =~= Seq::<Seq<char>>::empty());
        assert(out@ =~= mid + joined(items.take(0)));
    }
    while i < m.definitions.len()
        invariant
            0 <= i <= m.definitions@.len(),
            m.definitions.deep_view().len() == m.definitions@.len(),
            items == Seq::new(
                m.definitions.deep_view().len(),
                |i: int| definition_text(m.definitions.deep_view()[i]),
            ),
            out@ == mid + joined(items.take(i as int)),
        decreases m.definitions@.len() - i,
    {
        if i > 0 {
            out.append(",");
        }
        definition_into(&m.definitions[i], out);
        proof {
            assert(m.definitions[i as int]@ == m.definitions.deep_view()[i as int]);
            assert(items.take(i + 1 as int) =~= items.take(i as int).push(items[i as int]));
            lemma_joined_push(items.take(i as int), items[i as int]);
            assert(out@ =~= mid + joined(items.take(i + 1 as int)));
        }
        i += 1;
    }
    out.append("]}");
    proof {
        assert(items.take(m.definitions@.len() as int) =~= items);
        assert(out@ =~= old(out)@ + meaning_text(m@));
    }
}

/// Appends the JSON text of one entry record.
fn entry_into(e: &DictionaryEntry, out: &mut String)
    ensures
        final(out)@ == old(out)@ + entry_text(e@),
{
    let ghost ph_items = Seq::new(
        e.phonetics.deep_view().len(),
        |i: int| phonetic_text(e.phonetics.deep_view()[i]),
    );
    let ghost m_items = Seq::new(
        e.meanings.deep_view().len(),
        |i: int| meaning_text(e.meanings.deep_view()[i]),
    );
    out.append("{\"word\":");
    quoted_into(e.word.as_str(), out);
    match &e.phonetic {
        Some(p) => {
            out.append(",\"phonetic\":");
            quoted_into(p.as_str(), out);
        },
        None => {},
    }
    out.append(",\"phonetics\":[");
    let ghost mid1 = out@;
    let mut i: usize = 0;
    proof {
        assert(ph_items.take(0) =~= Seq::<Seq<char>>::empty());
        assert(out@ =~= mid1 + joined(ph_items.take(0)));
    }
    while i < e.phonetics.len()
        invariant
            0 <= i <= e.phonetics@.len(),
            e.phonetics.deep_view().len() == e.phonetics@.len(),
            ph_items == Seq::new(
                e.phonetics.deep_view().len(),
                |i: int| phonetic_text(e.phonetics.deep_view()[i]),
            ),
            out@ == mid1 + joined(ph_items.take(i as int)),
        decreases e.phonetics@.len() - i,
    {
        if i > 0 {
            out.append(",");
        }
        phonetic_into(&e.phonetics[i], out);
        proof {
            assert(e.phonetics[i as int]@ == e.phonetics.deep_view()[i as int]);
            assert(ph_items.take(i + 1 as int) =~= ph_items.take(i as int).push(
                ph_items[i as int],
            ));
            lemma_joined_push(ph_items.take(i as int), ph_items[i as int]);
            assert(out@ =~= mid1 + joined(ph_items.take(i + 1 as int)));
        }
        i += 1;
    }
    proof {
        assert(ph_items.take(e.phonetics@.len() as int) =~= ph_items);
    }
    out.append("],\"meanings\":[");
    let ghost mid2 = out@;
    let mut k: usize = 0;
    proof {
        assert(m_items.take(0) =~= Seq::<Seq<char>>::empty());
        assert(out@ =~= mid2 + joined(m_items.take(0)));
    }
    while k < e.meanings.len()
        invariant
            0 <= k <= e.meanings@.len(),
            e.meanings.deep_view().len() == e.meanings@.len(),
            m_items == Seq::new(
                e.meanings.deep_view().len(),
                |i: int| meaning_text(e.meanings.deep_view()[i]),
            ),
            out@ == mid2 + joined(m_items.take(k as int)),
        decreases e.meanings@.len() - k,
    {
        if k > 0 {
            out.append(",");
        }
        meaning_into(&e.meanings[k], out);
        proof {
            assert(e.meanings[k as int]@ == e.meanings.deep_view()[k as int]);
            assert(m_items.take(k + 1 as int) =~= m_items.take(k as int).push(
                m_items[k as int],
            ));
            lemma_joined_push(m_items.take(k as int), m_items[k as int]);
            assert(out@ =~= mid2 + joined(m_items.take(k + 1 as int)));
        }
        k += 1;
    }
    out.append("]}");
    proof {
        assert(m_items.take(e.meanings@.len() as int) =~= m_items);
        assert(out@ =~= old(out)@ + entry_text(e@));
    }
}

/// The JSON text of a whole response: an array holding each entry's
/// record, in order, with every field the decoder reads.
pub fn entries_to_json(es: &Vec<DictionaryEntry>) -> (r: String)
    ensures
        r@ == entries_text(es.deep_view()),
{
    let ghost items = Seq::new(es.deep_view().len(), |i: int| entry_text(es.deep_view()[i]));
    let mut out = "[".to_owned();
    let mut i: usize = 0;
    proof {
        assert(items.take(0) =~= Seq::<Seq<char>>::empty());
        assert(out@ =~= "["@ + joined(items.take(0)));
    }
    while i < es.len()
        invariant
            0 <= i <= es@.len(),
            es.deep_view().len() == es@.len(),
            items == Seq::new(es.deep_view().len(), |i: int| entry_text(es.deep_view()[i])),
            out@ == "["@ + joined(items.take(i as int)),
        decreases es@.len() - i,
    {
        if i > 0 {
            out.append(",");
        }
        entry_into(&es[i], &mut out);
        proof {
            assert(es[i as int]@ == es.deep_view()[i as int]);
            assert(items.take(i + 1 as int) =~= items.take(i as int).push(items[i as int]));
            lemma_joined_push(items.take(i as int), items[i as int]);
            assert(out@ =~= "["@ + joined(items.take(i + 1 as int)));
        }
        i += 1;
    }
    out.append("]");
    proof {
        assert(items.take(es@.len() as int) =~= items);
        assert(out@ =~= entries_text(es.deep_view()));
    }
    out
}

} // verus!
