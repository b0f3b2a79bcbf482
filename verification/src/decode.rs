//! The response decoder: turns the body of an API response into an ordered
//! sequence of `DictionaryEntry` records. Decoding is strict about shape:
//! a missing or type-mismatched required field anywhere fails the whole
//! decode; unknown extra fields are ignored; order is preserved exactly.

use vstd::prelude::*;

use crate::json::{
    as_array, as_str, get_field, is_null, is_object, json_of, json_seq_of, json_text_of,
    parse_json, JsonData,
};
use crate::model::{
    Definition, DefinitionView, DictionaryEntry, DictionaryEntryView, Meaning, MeaningView,
    PhoneticEntry, PhoneticEntryView,
};

verus! {

/// Why a response body was rejected: it was not valid JSON at all, or it was
/// JSON of the wrong shape (not an array of well-formed entry records).
#[derive(Debug, Clone, Copy, PartialEq, Eq, Structural)]
pub enum DecodeError {
    Syntax,
    Schema,
}

/// A required text field: present and a JSON string, else the record fails.
pub open spec fn req_str_field(o: Map<Seq<char>, JsonData>, k: Seq<char>) -> Option<Seq<char>> {
    if o.dom().contains(k) && o[k] is Str {
        Some(o[k]->Str_0)
    } else {
        None
    }
}

/// An optional text field: absent or JSON null decodes to `None`, a JSON
/// string to `Some`; any other present value fails the record.
pub open spec fn opt_str_field(o: Map<Seq<char>, JsonData>, k: Seq<char>) -> Option<
    Option<Seq<char>>,
> {
    if !o.dom().contains(k) || o[k] is Null {
        Some(None)
    } else if o[k] is Str {
        Some(Some(o[k]->Str_0))
    } else {
        None
    }
}

/// The element decoder for plain text elements.
pub open spec fn str_elem(j: JsonData) -> Option<Seq<char>> {
    if j is Str {
        Some(j->Str_0)
    } else {
        None
    }
}

/// Decodes every element of an array of strings, in order; one bad element
/// fails the whole array.
pub open spec fn decode_str_seq(s: Seq<JsonData>) -> Option<Seq<Seq<char>>> {
    if forall|i: int| 0 <= i < s.len() ==> (#[trigger] str_elem(s[i])) is Some {
        Some(Seq::new(s.len(), |i: int| str_elem(s[i])->Some_0))
    } else {
        None
    }
}

/// A required field holding an array of strings.
pub open spec fn req_str_arr_field(o: Map<Seq<char>, JsonData>, k: Seq<char>) -> Option<
    Seq<Seq<char>>,
> {
    if o.dom().contains(k) && o[k] is Arr {
        decode_str_seq(o[k]->Arr_0)
    } else {
        None
    }
}

/// One definition record: required `definition`, optional `example`,
/// required `synonyms` and `antonyms` arrays of strings.
pub open spec fn decode_definition_json(j: JsonData) -> Option<DefinitionView> {
    if j is Obj {
        let o = j->Obj_0;
        match (
            req_str_field(o, "definition"@),
            opt_str_field(o, "example"@),
            req_str_arr_field(o, "synonyms"@),
            req_str_arr_field(o, "antonyms"@),
        ) {
            (Some(d), Some(ex), Some(syn), Some(ant)) => Some(
                DefinitionView { definition: d, example: ex, synonyms: syn, antonyms: ant },
            ),
            _ => None,
        }
    } else {
        None
    }
}

/// Decodes every element of an array of definition records, in order.
pub open spec fn decode_definitions_seq(s: Seq<JsonData>) -> Option<Seq<DefinitionView>> {
    if forall|i: int| 0 <= i < s.len() ==> (#[trigger] decode_definition_json(s[i])) is Some {
        Some(Seq::new(s.len(), |i: int| decode_definition_json(s[i])->Some_0))
    } else {
        None
    }
}

/// One meaning record: required `partOfSpeech` text and required
/// `definitions` array of definition records.
pub open spec fn decode_meaning_json(j: JsonData) -> Option<MeaningView> {
    if j is Obj {
        let o = j->Obj_0;
        if o.dom().contains("definitions"@) && o["definitions"@] is Arr {
            match (
                req_str_field(o, "partOfSpeech"@),
                decode_definitions_seq(o["definitions"@]->Arr_0),
            ) {
                (Some(pos), Some(ds)) => Some(
                    MeaningView { part_of_speech: pos, definitions: ds },
                ),
                _ => None,
            }
        } else {
            None
        }
    } else {
        None
    }
}

/// One phonetic record: optional `text` and `audio` fields.
pub open spec fn decode_phonetic_json(j: JsonData) -> Option<PhoneticEntryView> {
    if j is Obj {
        let o = j->Obj_0;
        match (opt_str_field(o, "text"@), opt_str_field(o, "audio"@)) {
            (Some(t), Some(a)) => Some(PhoneticEntryView { text: t, audio: a }),
            _ => None,
        }
    } else {
        None
    }
}

/// Decodes every element of an array of phonetic records, in order.
pub open spec fn decode_phonetics_seq(s: Seq<JsonData>) -> Option<Seq<PhoneticEntryView>> {
    if forall|i: int| 0 <= i < s.len() ==> (#[trigger] decode_phonetic_json(s[i])) is Some {
        Some(Seq::new(s.len(), |i: int| decode_phonetic_json(s[i])->Some_0))
    } else {
        None
    }
}

/// Decodes every element of an array of meaning records, in order.
pub open spec fn decode_meanings_seq(s: Seq<JsonData>) -> Option<Seq<MeaningView>> {
    if forall|i: int| 0 <= i < s.len() ==> (#[trigger] decode_meaning_json(s[i])) is Some {
        Some(Seq::new(s.len(), |i: int| decode_meaning_json(s[i])->Some_0))
    } else {
        None
    }
}

/// One entry record: required `word`, optional `phonetic`, required
/// `phonetics` and `meanings` arrays.
pub open spec fn decode_entry_json(j: JsonData) -> Option<DictionaryEntryView> {
    if j is Obj {
        let o = j->Obj_0;
        if o.dom().contains("phonetics"@) && o["phonetics"@] is Arr && o.dom().contains(
            "meanings"@,
        ) && o["meanings"@] is Arr {
            match (
                req_str_field(o, "word"@),
                opt_str_field(o, "phonetic"@),
                decode_phonetics_seq(o["phonetics"@]->Arr_0),
                decode_meanings_seq(o["meanings"@]->Arr_0),
            ) {
                (Some(w), Some(ph), Some(phs), Some(ms)) => Some(
                    DictionaryEntryView { word: w, phonetic: ph, phonetics: phs, meanings: ms },
                ),
                _ => None,
            }
        } else {
            None
        }
    } else {
        None
    }
}

/// Decodes every element of an array of entry records, in order.
pub open spec fn decode_entries_seq(s: Seq<JsonData>) -> Option<Seq<DictionaryEntryView>> {
    if forall|i: int| 0 <= i < s.len() ==> (#[trigger] decode_entry_json(s[i])) is Some {
        Some(Seq::new(s.len(), |i: int| decode_entry_json(s[i])->Some_0))
    } else {
        None
    }
}

/// The whole response document: a JSON array of entry records.
pub open spec fn decode_entries_json(j: JsonData) -> Option<Seq<DictionaryEntryView>> {
    if j is Arr {
        decode_entries_seq(j->Arr_0)
    } else {
        None
    }
}

/// What decoding a whole response body yields: `Syntax` where the body is
/// not valid JSON, `Schema` where the JSON has the wrong shape, and the
/// decoded entries in response order otherwise.
pub open spec fn decode_response(s: Seq<char>) -> Result<Seq<DictionaryEntryView>, DecodeError> {
    match json_text_of(s) {
        None => Err(DecodeError::Syntax),
        Some(j) => match decode_entries_json(j) {
            None => Err(DecodeError::Schema),
            Some(es) => Ok(es),
        },
    }
}

/// Decodes a required string array field of an already-checked object.
fn decode_str_vec(vals: &Vec<serde_json::Value>) -> (r: Option<Vec<String>>)
    ensures
        r is Some <==> decode_str_seq(json_seq_of(vals@)) is Some,
        r is Some ==> r->Some_0.deep_view() == decode_str_seq(json_seq_of(vals@))->Some_0,
{
    let mut out: Vec<String> = Vec::new();
    let mut i: usize = 0;
    while i < vals.len()
        invariant
            0 <= i <= vals@.len(),
            out@.len() == i,
            forall|k: int|
                0 <= k < i ==> (#[trigger] str_elem(json_seq_of(vals@)[k])) is Some,
            forall|k: int|
                0 <= k < i ==> #[trigger] out@[k]@ == str_elem(json_seq_of(vals@)[k])->Some_0,
        decreases vals@.len() - i,
    {
        let v = &vals[i];
        match as_str(v) {
            Some(s) => {
                out.push(s.to_owned());
            },
            None => {
                proof {
                    assert(json_seq_of(vals@)[i as int] == json_of(vals@[i as int]));
                    assert(str_elem(json_seq_of(vals@)[i as int]) is None);
                }
                return None;
            },
        }
        i += 1;
    }
    proof {
        let s = json_seq_of(vals@);
        assert(decode_str_seq(s) is Some);
        assert(out.deep_view() =~= decode_str_seq(s)->Some_0);
    }
    Some(out)
}

/// Decodes an optional text field of an object value.
fn decode_opt_str(v: &serde_json::Value, key: &str) -> (r: Option<Option<String>>)
    requires
        json_of(*v) is Obj,
    ensures
        r is Some <==> opt_str_field(json_of(*v)->Obj_0, key@) is Some,
        r is Some ==> r->Some_0.deep_view() == opt_str_field(json_of(*v)->Obj_0, key@)->Some_0,
{
    match get_field(v, key) {
        None => Some(None),
        Some(x) => {
            if is_null(x) {
                Some(None)
            } else {
                match as_str(x) {
                    Some(s) => Some(Some(s.to_owned())),
                    None => None,
                }
            }
        },
    }
}

/// Decodes a required text field of an object value.
fn decode_req_str(v: &serde_json::Value, key: &str) -> (r: Option<String>)
    requires
        json_of(*v) is Obj,
    ensures
        r is Some <==> req_str_field(json_of(*v)->Obj_0, key@) is Some,
        r is Some ==> r->Some_0@ == req_str_field(json_of(*v)->Obj_0, key@)->Some_0,
{
    match get_field(v, key) {
        None => None,
        Some(x) => match as_str(x) {
            Some(s) => Some(s.to_owned()),
            None => None,
        },
    }
}

/// Decodes a required array-of-strings field of an object value.
fn decode_req_str_arr(v: &serde_json::Value, key: &str) -> (r: Option<Vec<String>>)
    requires
        json_of(*v) is Obj,
    ensures
        r is Some <==> req_str_arr_field(json_of(*v)->Obj_0, key@) is Some,
        r is Some ==> r->Some_0.deep_view() == req_str_arr_field(
            json_of(*v)->Obj_0,
            key@,
        )->Some_0,
{
    match get_field(v, key) {
        None => None,
        Some(x) => match as_array(x) {
            None => None,
            Some(elems) => decode_str_vec(elems),
        },
    }
}

/// Decodes one definition record.
pub fn decode_definition(v: &serde_json::Value) -> (r: Option<Definition>)
    ensures
        r is Some <==> decode_definition_json(json_of(*v)) is Some,
        r is Some ==> r->Some_0@ == decode_definition_json(json_of(*v))->Some_0,
{
    let d = match decode_req_str_checked(v, "definition") {
        Some(d) => d,
        None => {
            return None;
        },
    };
    let ex = match decode_opt_str(v, "example") {
        Some(ex) => ex,
        None => {
            return None;
        },
    };
    let syn = match decode_req_str_arr(v, "synonyms") {
        Some(s) => s,
        None => {
            return None;
        },
    };
    let ant = match decode_req_str_arr(v, "antonyms") {
        Some(a) => a,
        None => {
            return None;
        },
    };
    Some(Definition { definition: d, example: ex, synonyms: syn, antonyms: ant })
}

/// Decodes one phonetic record.
pub fn decode_phonetic(v: &serde_json::Value) -> (r: Option<PhoneticEntry>)
    ensures
        r is Some <==> decode_phonetic_json(json_of(*v)) is Some,
        r is Some ==> r->Some_0@ == decode_phonetic_json(json_of(*v))->Some_0,
{
    if !is_object(v) {
        return None;
    }
    let t = match decode_opt_str(v, "text") {
        Some(t) => t,
        None => {
            return None;
        },
    };
    let a = match decode_opt_str(v, "audio") {
        Some(a) => a,
        None => {
            return None;
        },
    };
    Some(PhoneticEntry { text: t, audio: a })
}

/// Decodes one meaning record.
pub fn decode_meaning(v: &serde_json::Value) -> (r: Option<Meaning>)
    ensures
        r is Some <==> decode_meaning_json(json_of(*v)) is Some,
        r is Some ==> r->Some_0@ == decode_meaning_json(json_of(*v))->Some_0,
{
    let defs_val = match get_field(v, "definitions") {
        Some(d) => d,
        None => {
            return None;
        },
    };
    let defs_arr = match as_array(defs_val) {
        Some(a) => a,
        None => {
            return None;
        },
    };
    let pos = match decode_req_str(v, "partOfSpeech") {
        Some(p) => p,
        None => {
            return None;
        },
    };
    let defs = match decode_definitions_vec(defs_arr) {
        Some(ds) => ds,
        None => {
            return None;
        },
    };
    Some(Meaning { part_of_speech: pos, definitions: defs })
}

/// Decodes the elements of a `definitions` array.
fn decode_definitions_vec(vals: &Vec<serde_json::Value>) -> (r: Option<Vec<Definition>>)
    ensures
        r is Some <==> decode_definitions_seq(json_seq_of(vals@)) is Some,
        r is Some ==> r->Some_0.deep_view() == decode_definitions_seq(
            json_seq_of(vals@),
        )->Some_0,
{
    let mut out: Vec<Definition> = Vec::new();
    let mut i: usize = 0;
    while i < vals.len()
        invariant
            0 <= i <= vals@.len(),
            out@.len() == i,
            forall|k: int|
                0 <= k < i ==> (#[trigger] decode_definition_json(
                    json_seq_of(vals@)[k],
                )) is Some,
            forall|k: int|
                0 <= k < i ==> #[trigger] out@[k]@ == decode_definition_json(
                    json_seq_of(vals@)[k],
                )->Some_0,
        decreases vals@.len() - i,
    {
        let v = &vals[i];
        proof {
            assert(json_seq_of(vals@)[i as int] == json_of(vals@[i as int]));
        }
        match decode_definition(v) {
            Some(d) => {
                out.push(d);
            },
            None => {
                return None;
            },
        }
        i += 1;
    }
    proof {
        let s = json_seq_of(vals@);
        assert(decode_definitions_seq(s) is Some);
        assert(out.deep_view() =~= decode_definitions_seq(s)->Some_0);
    }
    Some(out)
}

/// Decodes the elements of a `phonetics` array.
fn decode_phonetics_vec(vals: &Vec<serde_json::Value>) -> (r: Option<Vec<PhoneticEntry>>)
    ensures
        r is Some <==> decode_phonetics_seq(json_seq_of(vals@)) is Some,
        r is Some ==> r->Some_0.deep_view() == decode_phonetics_seq(json_seq_of(vals@))->Some_0,
{
    let mut out: Vec<PhoneticEntry> = Vec::new();
    let mut i: usize = 0;
    while i < vals.len()
        invariant
            0 <= i <= vals@.len(),
            out@.len() == i,
            forall|k: int|
                0 <= k < i ==> (#[trigger] decode_phonetic_json(json_seq_of(vals@)[k])) is Some,
            forall|k: int|
                0 <= k < i ==> #[trigger] out@[k]@ == decode_phonetic_json(
                    json_seq_of(vals@)[k],
                )->Some_0,
        decreases vals@.len() - i,
    {
        let v = &vals[i];
        proof {
            assert(json_seq_of(vals@)[i as int] == json_of(vals@[i as int]));
        }
        match decode_phonetic(v) {
            Some(p) => {
                out.push(p);
            },
            None => {
                return None;
            },
        }
        i += 1;
    }
    proof {
        let s = json_seq_of(vals@);
        assert(decode_phonetics_seq(s) is Some);
        assert(out.deep_view() =~= decode_phonetics_seq(s)->Some_0);
    }
    Some(out)
}

/// Decodes the elements of a `meanings` array.
fn decode_meanings_vec(vals: &Vec<serde_json::Value>) -> (r: Option<Vec<Meaning>>)
    ensures
        r is Some <==> decode_meanings_seq(json_seq_of(vals@)) is Some,
        r is Some ==> r->Some_0.deep_view() == decode_meanings_seq(json_seq_of(vals@))->Some_0,
{
    let mut out: Vec<Meaning> = Vec::new();
    let mut i: usize = 0;
    while i < vals.len()
        invariant
            0 <= i <= vals@.len(),
            out@.len() == i,
            forall|k: int|
                0 <= k < i ==> (#[trigger] decode_meaning_json(json_seq_of(vals@)[k])) is Some,
            forall|k: int|
                0 <= k < i ==> #[trigger] out@[k]@ == decode_meaning_json(
                    json_seq_of(vals@)[k],
                )->Some_0,
        decreases vals@.len() - i,
    {
        let v = &vals[i];
        proof {
            assert(json_seq_of(vals@)[i as int] == json_of(vals@[i as int]));
        }
        match decode_meaning(v) {
            Some(m) => {
                out.push(m);
            },
            None => {
                return None;
            },
        }
        i += 1;
    }
    proof {
        let s = json_seq_of(vals@);
        assert(decode_meanings_seq(s) is Some);
        assert(out.deep_view() =~= decode_meanings_seq(s)->Some_0);
    }
    Some(out)
}

/// Decodes one entry record.
pub fn decode_entry(v: &serde_json::Value) -> (r: Option<DictionaryEntry>)
    ensures
        r is Some <==> decode_entry_json(json_of(*v)) is Some,
        r is Some ==> r->Some_0@ == decode_entry_json(json_of(*v))->Some_0,
{
    let phonetics_val = match get_field(v, "phonetics") {
        Some(p) => p,
        None => {
            return None;
        },
    };
    let phonetics_arr = match as_array(phonetics_val) {
        Some(a) => a,
        None => {
            return None;
        },
    };
    let meanings_val = match get_field(v, "meanings") {
        Some(m) => m,
        None => {
            return None;
        },
    };
    let meanings_arr = match as_array(meanings_val) {
        Some(a) => a,
        None => {
            return None;
        },
    };
    let w = match decode_req_str(v, "word") {
        Some(w) => w,
        None => {
            return None;
        },
    };
    let ph = match decode_opt_str(v, "phonetic") {
        Some(p) => p,
        None => {
            return None;
        },
    };
    let phs = match decode_phonetics_vec(phonetics_arr) {
        Some(p) => p,
        None => {
            return None;
        },
    };
    let ms = match decode_meanings_vec(meanings_arr) {
        Some(m) => m,
        None => {
            return None;
        },
    };
    Some(DictionaryEntry { word: w, phonetic: ph, phonetics: phs, meanings: ms })
}

/// Decodes the elements of the top-level response array.
fn decode_entries_vec(vals: &Vec<serde_json::Value>) -> (r: Option<Vec<DictionaryEntry>>)
    ensures
        r is Some <==> decode_entries_seq(json_seq_of(vals@)) is Some,
        r is Some ==> r->Some_0.deep_view() == decode_entries_seq(json_seq_of(vals@))->Some_0,
{
    let mut out: Vec<DictionaryEntry> = Vec::new();
    let mut i: usize = 0;
    while i < vals.len()
        invariant
            0 <= i <= vals@.len(),
            out@.len() == i,
            forall|k: int|
                0 <= k < i ==> (#[trigger] decode_entry_json(json_seq_of(vals@)[k])) is Some,
            forall|k: int|
                0 <= k < i ==> #[trigger] out@[k]@ == decode_entry_json(
                    json_seq_of(vals@)[k],
                )->Some_0,
        decreases vals@.len() - i,
    {
        let v = &vals[i];
        proof {
            assert(json_seq_of(vals@)[i as int] == json_of(vals@[i as int]));
        }
        match decode_entry(v) {
            Some(e) => {
                out.push(e);
            },
            None => {
                return None;
            },
        }
        i += 1;
    }
    proof {
        let s = json_seq_of(vals@);
        assert(decode_entries_seq(s) is Some);
        assert(out.deep_view() =~= decode_entries_seq(s)->Some_0);
    }
    Some(out)
}

/// Decodes an already-parsed response document.
pub fn decode_entries_value(v: &serde_json::Value) -> (r: Option<Vec<DictionaryEntry>>)
    ensures
        r is Some <==> decode_entries_json(json_of(*v)) is Some,
        r is Some ==> r->Some_0.deep_view() == decode_entries_json(json_of(*v))->Some_0,
{
    match as_array(v) {
        None => None,
        Some(elems) => decode_entries_vec(elems),
    }
}

/// Decodes a whole response body: parses the text as JSON and decodes the
/// document as an array of entry records, preserving response order.
/// Fails with `Syntax` exactly where the body is not valid JSON, and with
/// `Schema` exactly where the JSON is not an array of well-formed records.
pub fn decode_entries(body: &str) -> (r: Result<Vec<DictionaryEntry>, DecodeError>)
    ensures
        r is Ok <==> decode_response(body@) is Ok,
        r is Ok ==> r->Ok_0.deep_view() == decode_response(body@)->Ok_0,
        r is Err ==> r->Err_0 == decode_response(body@)->Err_0,
{
    let parsed = match parse_json(body) {
        Ok(v) => v,
        Err(_) => {
            return Err(DecodeError::Syntax);
        },
    };
    match decode_entries_value(&parsed) {
        Some(entries) => Ok(entries),
        None => Err(DecodeError::Schema),
    }
}

/// Decodes a required text field, also establishing that the value is an
/// object at all (a lookup can only succeed on an object).
fn decode_req_str_checked(v: &serde_json::Value, key: &str) -> (r: Option<String>)
    ensures
        r is Some <==> (json_of(*v) is Obj && req_str_field(json_of(*v)->Obj_0, key@) is Some),
        r is Some ==> r->Some_0@ == req_str_field(json_of(*v)->Obj_0, key@)->Some_0,
{
    match get_field(v, key) {
        None => None,
        Some(x) => match as_str(x) {
            Some(s) => Some(s.to_owned()),
            None => None,
        },
    }
}

} // verus!
