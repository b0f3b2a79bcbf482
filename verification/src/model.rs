//! The data model: one dictionary entry per headword, with its meanings,
//! definitions and phonetic transcriptions, exactly as the API orders them.

use vstd::prelude::*;

verus! {

/// One sense of a word: the definition text, an optional usage example, and
/// related-word lists (kept in the order received, possibly empty).
#[derive(Debug, PartialEq)]
pub struct Definition {
    pub definition: String,
    pub example: Option<String>,
    pub synonyms: Vec<String>,
    pub antonyms: Vec<String>,
}

/// One part-of-speech grouping of definitions.
#[derive(Debug, PartialEq)]
pub struct Meaning {
    pub part_of_speech: String,
    pub definitions: Vec<Definition>,
}

/// One phonetic transcription, optionally paired with an audio reference.
/// Both fields may be absent at the same time.
#[derive(Debug, PartialEq)]
pub struct PhoneticEntry {
    pub text: Option<String>,
    pub audio: Option<String>,
}

/// One headword's full record as returned by the API.
#[derive(Debug, PartialEq)]
pub struct DictionaryEntry {
    pub word: String,
    pub phonetic: Option<String>,
    pub phonetics: Vec<PhoneticEntry>,
    pub meanings: Vec<Meaning>,
}

/// Mathematical view of a `Definition`.
#[verifier::ext_equal]
pub struct DefinitionView {
    pub definition: Seq<char>,
    pub example: Option<Seq<char>>,
    pub synonyms: Seq<Seq<char>>,
    pub antonyms: Seq<Seq<char>>,
}

/// Mathematical view of a `Meaning`.
#[verifier::ext_equal]
pub struct MeaningView {
    pub part_of_speech: Seq<char>,
    pub definitions: Seq<DefinitionView>,
}

/// Mathematical view of a `PhoneticEntry`.
#[verifier::ext_equal]
pub struct PhoneticEntryView {
    pub text: Option<Seq<char>>,
    pub audio: Option<Seq<char>>,
}

/// Mathematical view of a `DictionaryEntry`.
#[verifier::ext_equal]
pub struct DictionaryEntryView {
    pub word: Seq<char>,
    pub phonetic: Option<Seq<char>>,
    pub phonetics: Seq<PhoneticEntryView>,
    pub meanings: Seq<MeaningView>,
}

impl View for Definition {
    type V = DefinitionView;

    open spec fn view(&self) -> DefinitionView {
        DefinitionView {
            definition: self.definition@,
            example: self.example.deep_view(),
            synonyms: self.synonyms.deep_view(),
            antonyms: self.antonyms.deep_view(),
        }
    }
}

impl DeepView for Definition {
    type V = DefinitionView;

    open spec fn deep_view(&self) -> DefinitionView {
        self.view()
    }
}

impl View for Meaning {
    type V = MeaningView;

    open spec fn view(&self) -> MeaningView {
        MeaningView {
            part_of_speech: self.part_of_speech@,
            definitions: self.definitions.deep_view(),
        }
    }
}

impl DeepView for Meaning {
    type V = MeaningView;

    open spec fn deep_view(&self) -> MeaningView {
        self.view()
    }
}

impl View for PhoneticEntry {
    type V = PhoneticEntryView;

    open spec fn view(&self) -> PhoneticEntryView {
        PhoneticEntryView { text: self.text.deep_view(), audio: self.audio.deep_view() }
    }
}

impl DeepView for PhoneticEntry {
    type V = PhoneticEntryView;

    open spec fn deep_view(&self) -> PhoneticEntryView {
        self.view()
    }
}

impl View for DictionaryEntry {
    type V = DictionaryEntryView;

    open spec fn view(&self) -> DictionaryEntryView {
        DictionaryEntryView {
            word: self.word@,
            phonetic: self.phonetic.deep_view(),
            phonetics: self.phonetics.deep_view(),
            meanings: self.meanings.deep_view(),
        }
    }
}

impl DeepView for DictionaryEntry {
    type V = DictionaryEntryView;

    open spec fn deep_view(&self) -> DictionaryEntryView {
        self.view()
    }
}

} // verus!
