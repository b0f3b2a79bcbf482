//! The entry renderer: turns decoded entries into styled lines of text.
//! Styling is modelled as data — a line is a sequence of spans, each a piece
//! of text with one style — and only the final step turns spans into the
//! terminal's escape sequences.

use vstd::prelude::*;

use crate::model::{DefinitionView, DictionaryEntry, DictionaryEntryView, Meaning, MeaningView};
use crate::text::{dec_rep, dec_str, graphemes_of, strip_styling};

verus! {

/// How one piece of text is to be displayed.
#[derive(Debug, Clone, Copy, PartialEq, Eq, Structural)]
pub enum Style {
    Plain,
    Bold,
    Italic,
    Dim,
}

/// One styled piece of text; a rendered line is a sequence of spans.
#[derive(Debug)]
pub struct Span {
    pub style: Style,
    pub text: String,
}

/// Mathematical view of a `Span`.
#[verifier::ext_equal]
pub struct SpanView {
    pub style: Style,
    pub text: Seq<char>,
}

impl View for Span {
    type V = SpanView;

    open spec fn view(&self) -> SpanView {
        SpanView { style: self.style, text: self.text@ }
    }
}

impl DeepView for Span {
    type V = SpanView;

    open spec fn deep_view(&self) -> SpanView {
        self.view()
    }
}

/// The text of a line with the styling ignored: its spans' texts, joined.
pub open spec fn line_text(l: Seq<SpanView>) -> Seq<char>
    decreases l.len(),
{
    if l.len() == 0 {
        Seq::empty()
    } else {
        l[0].text + line_text(l.drop_first())
    }
}

/// The headword line: the word in bold, and, where a phonetic transcription
/// is present, the bracketed, quoted transcription right after it, plain.
pub open spec fn headword_line(e: DictionaryEntryView) -> Seq<SpanView> {
    let head = seq![SpanView { style: Style::Bold, text: e.word }];
    match e.phonetic {
        Some(p) => head.push(SpanView { style: Style::Plain, text: "[\""@ + p + "\"]"@ }),
        None => head,
    }
}

/// The separator width of an entry: the count of user-perceived characters
/// in its headword line, styling ignored.
pub open spec fn headword_width(e: DictionaryEntryView) -> nat {
    graphemes_of(strip_styling(line_text(headword_line(e))))
}

/// A run of dashes.
pub open spec fn dashes(n: nat) -> Seq<char> {
    Seq::new(n, |i: int| '-')
}

/// The separator: one dim line of `n` dashes.
pub open spec fn separator_line(n: nat) -> Seq<SpanView> {
    seq![SpanView { style: Style::Dim, text: dashes(n) }]
}

/// A definition's numbered line: index, period, space, definition text.
pub open spec fn numbered_line(idx: nat, d: DefinitionView) -> Seq<SpanView> {
    seq![SpanView { style: Style::Plain, text: dec_rep(idx) + ". "@ + d.definition }]
}

/// An example's line: indented, italicised and quoted.
pub open spec fn example_line(ex: Seq<char>) -> Seq<SpanView> {
    seq![
        SpanView { style: Style::Plain, text: "   "@ },
        SpanView { style: Style::Italic, text: "\""@ + ex + "\""@ },
    ]
}

/// The lines of one definition: its numbered line, then its example line
/// where an example is present.
pub open spec fn definition_block(idx: nat, d: DefinitionView) -> Seq<Seq<SpanView>> {
    match d.example {
        Some(ex) => seq![numbered_line(idx, d), example_line(ex)],
        None => seq![numbered_line(idx, d)],
    }
}

/// The lines of a row of definitions, numbered contiguously from `start`,
/// in input order.
pub open spec fn definitions_lines(ds: Seq<DefinitionView>, start: nat) -> Seq<Seq<SpanView>>
    decreases ds.len(),
{
    if ds.len() == 0 {
        Seq::empty()
    } else {
        definition_block(start, ds[0]) + definitions_lines(ds.drop_first(), start + 1)
    }
}

/// The lines of one meaning: the part of speech in parentheses, bold, then
/// its definitions numbered from 1.
pub open spec fn meaning_lines(m: MeaningView) -> Seq<Seq<SpanView>> {
    seq![seq![SpanView { style: Style::Bold, text: "("@ + m.part_of_speech + ")"@ }]]
        + definitions_lines(m.definitions, 1)
}

/// The lines of a row of meanings, each followed by the entry's separator.
pub open spec fn meanings_lines(ms: Seq<MeaningView>, sep: Seq<SpanView>) -> Seq<Seq<SpanView>>
    decreases ms.len(),
{
    if ms.len() == 0 {
        Seq::empty()
    } else {
        meaning_lines(ms[0]) + seq![sep] + meanings_lines(ms.drop_first(), sep)
    }
}

/// The lines of one entry: headword line, separator, then each meaning
/// followed by the same separator.
pub open spec fn entry_lines(e: DictionaryEntryView) -> Seq<Seq<SpanView>> {
    let sep = separator_line(headword_width(e));
    seq![headword_line(e), sep] + meanings_lines(e.meanings, sep)
}

/// The lines of a whole response: each entry's block, in response order.
pub open spec fn entries_lines(es: Seq<DictionaryEntryView>) -> Seq<Seq<SpanView>>
    decreases es.len(),
{
    if es.len() == 0 {
        Seq::empty()
    } else {
        entry_lines(es[0]) + entries_lines(es.drop_first())
    }
}

/// The escape sequence that opens a bold span.
pub open spec fn bold_code() -> Seq<char> {
    "\x1b[;1m"@
}

/// The escape sequence that opens an italic span.
pub open spec fn italic_code() -> Seq<char> {
    "\x1b[;3m"@
}

/// The escape sequence that opens a dim span.
pub open spec fn dim_code() -> Seq<char> {
    "\x1b[90m"@
}

/// The escape sequence that resets styling to the default.
pub open spec fn reset_code() -> Seq<char> {
    "\x1b[0m"@
}

/// The opening sequence of a styled span; plain spans open with nothing.
pub open spec fn style_code(s: Style) -> Seq<char> {
    match s {
        Style::Plain => Seq::empty(),
        Style::Bold => bold_code(),
        Style::Italic => italic_code(),
        Style::Dim => dim_code(),
    }
}

/// One span as terminal text: styled spans are wrapped in their opening
/// sequence and the reset sequence; plain spans are their bare text.
pub open spec fn ansi_span(s: SpanView) -> Seq<char> {
    if s.style is Plain {
        s.text
    } else {
        style_code(s.style) + s.text + reset_code()
    }
}

/// A line's spans as terminal text, without the closing newline.
pub open spec fn ansi_spans(l: Seq<SpanView>) -> Seq<char>
    decreases l.len(),
{
    if l.len() == 0 {
        Seq::empty()
    } else {
        ansi_span(l[0]) + ansi_spans(l.drop_first())
    }
}

/// A line as terminal text: its spans, then a newline.
pub open spec fn ansi_line(l: Seq<SpanView>) -> Seq<char> {
    ansi_spans(l) + "\n"@
}

/// Lines as terminal text, in order.
pub open spec fn ansi_lines(ls: Seq<Seq<SpanView>>) -> Seq<char>
    decreases ls.len(),
{
    if ls.len() == 0 {
        Seq::empty()
    } else {
        ansi_line(ls[0]) + ansi_lines(ls.drop_first())
    }
}

/// The whole rendered output of a response: its entries' lines as terminal
/// text, in response order.
pub open spec fn rendered_text(es: Seq<DictionaryEntryView>) -> Seq<char> {
    ansi_lines(entries_lines(es))
}

proof fn lemma_line_text_push(l: Seq<SpanView>, s: SpanView)
    ensures
        line_text(l.push(s)) == line_text(l) + s.text,
    decreases l.len(),
{
    if l.len() == 0 {
        assert(l.push(s).drop_first() =~= Seq::<SpanView>::empty());
        assert(line_text(Seq::<SpanView>::empty()) == Seq::<char>::empty());
        assert(l.push(s)[0] == s);
        assert(line_text(l.push(s)) == s.text + Seq::<char>::empty());
        assert(line_text(l.push(s)) =~= line_text(l) + s.text);
    } else {
        assert(l.push(s).drop_first() =~= l.drop_first().push(s));
        lemma_line_text_push(l.drop_first(), s);
        assert(l.push(s)[0] == l[0]);
        assert(line_text(l.push(s)) == l[0].text + line_text(l.drop_first().push(s)));
        assert(line_text(l.push(s)) =~= line_text(l) + s.text);
    }
}

proof fn lemma_ansi_spans_push(l: Seq<SpanView>, s: SpanView)
    ensures
        ansi_spans(l.push(s)) == ansi_spans(l) + ansi_span(s),
    decreases l.len(),
{
    if l.len() == 0 {
        assert(l.push(s).drop_first() =~= Seq::<SpanView>::empty());
        assert(ansi_spans(Seq::<SpanView>::empty()) == Seq::<char>::empty());
        assert(l.push(s)[0] == s);
        assert(ansi_spans(l.push(s)) == ansi_span(s) + Seq::<char>::empty());
        assert(ansi_spans(l.push(s)) =~= ansi_spans(l) + ansi_span(s));
    } else {
        assert(l.push(s).drop_first() =~= l.drop_first().push(s));
        lemma_ansi_spans_push(l.drop_first(), s);
        assert(l.push(s)[0] == l[0]);
        assert(ansi_spans(l.push(s)) == ansi_span(l[0]) + ansi_spans(l.drop_first().push(s)));
        assert(ansi_spans(l.push(s)) =~= ansi_spans(l) + ansi_span(s));
    }
}

proof fn lemma_ansi_lines_push(ls: Seq<Seq<SpanView>>, l: Seq<SpanView>)
    ensures
        ansi_lines(ls.push(l)) == ansi_lines(ls) + ansi_line(l),
    decreases ls.len(),
{
    if ls.len() == 0 {
        assert(ls.push(l).drop_first() =~= Seq::<Seq<SpanView>>::empty());
        assert(ansi_lines(Seq::<Seq<SpanView>>::empty()) == Seq::<char>::empty());
        assert(ls.push(l)[0] == l);
        assert(ansi_lines(ls.push(l)) == ansi_line(l) + Seq::<char>::empty());
        assert(ansi_lines(ls.push(l)) =~= ansi_lines(ls) + ansi_line(l));
    } else {
        assert(ls.push(l).drop_first() =~= ls.drop_first().push(l));
        lemma_ansi_lines_push(ls.drop_first(), l);
        assert(ls.push(l)[0] == ls[0]);
        assert(ansi_lines(ls.push(l)) == ansi_line(ls[0]) + ansi_lines(ls.drop_first().push(l)));
        assert(ansi_lines(ls.push(l)) =~= ansi_lines(ls) + ansi_line(l));
    }
}

proof fn lemma_definitions_lines_push(ds: Seq<DefinitionView>, d: DefinitionView, start: nat)
    ensures
        definitions_lines(ds.push(d), start) == definitions_lines(ds, start) + definition_block(
            start + ds.len(),
            d,
        ),
    decreases ds.len(),
{
    if ds.len() == 0 {
        assert(ds.push(d).drop_first() =~= Seq::<DefinitionView>::empty());
        assert(definitions_lines(Seq::<DefinitionView>::empty(), start + 1)
            == Seq::<Seq<SpanView>>::empty());
        assert(ds.push(d)[0] == d);
        assert(definitions_lines(ds.push(d), start) == definition_block(start, d) + Seq::<
            Seq<SpanView>,
        >::empty());
        assert(definitions_lines(ds.push(d), start) =~= definitions_lines(ds, start)
            + definition_block(start + ds.len(), d));
    } else {
        assert(ds.push(d).drop_first() =~= ds.drop_first().push(d));
        lemma_definitions_lines_push(ds.drop_first(), d, start + 1);
        assert(ds.push(d)[0] == ds[0]);
        assert(definitions_lines(ds.push(d), start) == definition_block(start, ds[0])
            + definitions_lines(ds.drop_first().push(d), start + 1));
        assert(start + 1 + ds.drop_first().len() == start + ds.len());
        assert(definitions_lines(ds.push(d), start) =~= definitions_lines(ds, start)
            + definition_block(start + ds.len(), d));
    }
}

proof fn lemma_meanings_lines_push(ms: Seq<MeaningView>, m: MeaningView, sep: Seq<SpanView>)
    ensures
        meanings_lines(ms.push(m), sep) == meanings_lines(ms, sep) + meaning_lines(m) + seq![sep],
    decreases ms.len(),
{
    if ms.len() == 0 {
        assert(ms.push(m).drop_first() =~= Seq::<MeaningView>::empty());
        assert(meanings_lines(Seq::<MeaningView>::empty(), sep) == Seq::<Seq<SpanView>>::empty());
        assert(ms.push(m)[0] == m);
        assert(meanings_lines(ms.push(m), sep) == meaning_lines(m) + seq![sep] + Seq::<
            Seq<SpanView>,
        >::empty());
        assert(meanings_lines(ms.push(m), sep) =~= meanings_lines(ms, sep) + meaning_lines(m)
            + seq![sep]);
    } else {
        assert(ms.push(m).drop_first() =~= ms.drop_first().push(m));
        lemma_meanings_lines_push(ms.drop_first(), m, sep);
        assert(ms.push(m)[0] == ms[0]);
        assert(meanings_lines(ms.push(m), sep) == meaning_lines(ms[0]) + seq![sep]
            + meanings_lines(ms.drop_first().push(m), sep));
        assert(meanings_lines(ms.push(m), sep) =~= meanings_lines(ms, sep) + meaning_lines(m)
            + seq![sep]);
    }
}

proof fn lemma_entries_lines_push(es: Seq<DictionaryEntryView>, e: DictionaryEntryView)
    ensures
        entries_lines(es.push(e)) == entries_lines(es) + entry_lines(e),
    decreases es.len(),
{
    if es.len() == 0 {
        assert(es.push(e).drop_first() =~= Seq::<DictionaryEntryView>::empty());
        assert(entries_lines(Seq::<DictionaryEntryView>::empty()) == Seq::<
            Seq<SpanView>,
        >::empty());
        assert(es.push(e)[0] == e);
        assert(entries_lines(es.push(e)) == entry_lines(e) + Seq::<Seq<SpanView>>::empty());
        assert(entries_lines(es.push(e)) =~= entries_lines(es) + entry_lines(e));
    } else {
        assert(es.push(e).drop_first() =~= es.drop_first().push(e));
        lemma_entries_lines_push(es.drop_first(), e);
        assert(es.push(e)[0] == es[0]);
        assert(entries_lines(es.push(e)) == entry_lines(es[0]) + entries_lines(
            es.drop_first().push(e),
        ));
        assert(entries_lines(es.push(e)) =~= entries_lines(es) + entry_lines(e));
    }
}

/// The text of a built line, styling ignored.
fn line_visible_text(line: &Vec<Span>) -> (r: String)
    ensures
        r@ == line_text(line.deep_view()),
{
    let mut r = String::new();
    let mut i: usize = 0;
    while i < line.len()
        invariant
            0 <= i <= line@.len(),
            r@ == line_text(line.deep_view().take(i as int)),
        decreases line@.len() - i,
    {
        r.append(line[i].text.as_str());
        proof {
            assert(line.deep_view().take(i + 1 as int) =~= line.deep_view().take(i as int).push(
                line.deep_view()[i as int],
            ));
            lemma_line_text_push(line.deep_view().take(i as int), line.deep_view()[i as int]);
        }
        i += 1;
    }
    proof {
        assert(line.deep_view().take(line@.len() as int) =~= line.deep_view());
    }
    r
}

/// Builds the separator: one dim span of `n` dashes.
fn make_separator(n: usize) -> (r: Vec<Span>)
    ensures
        r.deep_view() == separator_line(n as nat),
{
    let mut s = String::new();
    let mut i: usize = 0;
    proof {
        reveal_strlit("-");
        assert(s@ =~= dashes(0));
    }
    while i < n
        invariant
            0 <= i <= n,
            s@ == dashes(i as nat),
            "-"@ =~= seq!['-'],
        decreases n - i,
    {
        s.append("-");
        proof {
            assert(s@ =~= dashes((i + 1) as nat));
        }
        i += 1;
    }
    let mut r: Vec<Span> = Vec::new();
    r.push(Span { style: Style::Dim, text: s });
    proof {
        assert(r.deep_view() =~~= separator_line(n as nat));
    }
    r
}

impl DictionaryEntry {
    /// Builds the headword line of this entry.
    pub fn headword_spans(&self) -> (r: Vec<Span>)
        ensures
            r.deep_view() == headword_line(self@),
    {
        let mut r: Vec<Span> = Vec::new();
        r.push(Span { style: Style::Bold, text: self.word.clone() });
        match &self.phonetic {
            Some(p) => {
                let mut t = "[\"".to_owned();
                t.append(p.as_str());
                t.append("\"]");
                r.push(Span { style: Style::Plain, text: t });
            },
            None => {},
        }
        proof {
            assert(r.deep_view() =~~= headword_line(self@));
        }
        r
    }

    /// Appends this entry's rendered block: headword line, separator, then
    /// each meaning followed by the same separator.
    pub fn push_lines(&self, out: &mut Vec<Vec<Span>>)
        ensures
            final(out).deep_view() == old(out).deep_view() + entry_lines(self@),
    {
        let head = self.headword_spans();
        let visible = line_visible_text(&head);
        let width = crate::text::visible_width(visible.as_str());
        let ghost sep_v = separator_line(width as nat);
        proof {
            assert(width as nat == headword_width(self@));
        }
        out.push(head);
        out.push(make_separator(width));
        proof {
            assert(out.deep_view() =~~= old(out).deep_view() + seq![
                headword_line(self@),
                sep_v,
            ] + meanings_lines(self@.meanings.take(0), sep_v));
        }
        let mut i: usize = 0;
        while i < self.meanings.len()
            invariant
                0 <= i <= self.meanings@.len(),
                self@.meanings.len() == self.meanings@.len(),
                width as nat == headword_width(self@),
                sep_v == separator_line(width as nat),
                out.deep_view() == old(out).deep_view() + seq![headword_line(self@), sep_v]
                    + meanings_lines(self@.meanings.take(i as int), sep_v),
            decreases self.meanings@.len() - i,
        {
            let m = &self.meanings[i];
            proof {
                assert(m@ == self@.meanings[i as int]);
            }
            let ghost before = out.deep_view();
            m.push_lines(out);
            proof {
                assert(out.deep_view() == before + meaning_lines(self@.meanings[i as int]));
            }
            let ghost mid = out.deep_view();
            out.push(make_separator(width));
            proof {
                assert(out.deep_view() =~~= mid + seq![sep_v]);
                assert(self@.meanings.take(i + 1 as int) =~= self@.meanings.take(i as int).push(
                    self@.meanings[i as int],
                ));
                lemma_meanings_lines_push(
                    self@.meanings.take(i as int),
                    self@.meanings[i as int],
                    sep_v,
                );
                assert(meanings_lines(self@.meanings.take(i + 1 as int), sep_v)
                    =~= meanings_lines(self@.meanings.take(i as int), sep_v) + meaning_lines(
                    self@.meanings[i as int],
                ) + seq![sep_v]);
                assert(out.deep_view() =~~= old(out).deep_view() + seq![
                    headword_line(self@),
                    sep_v,
                ] + meanings_lines(self@.meanings.take(i + 1 as int), sep_v));
            }
            i += 1;
        }
        proof {
            assert(self@.meanings.take(self.meanings@.len() as int) =~= self@.meanings);
            assert(out.deep_view() =~~= old(out).deep_view() + entry_lines(self@));
        }
    }

    /// This entry's rendered block as styled lines.
    pub fn render_lines(&self) -> (r: Vec<Vec<Span>>)
        ensures
            r.deep_view() == entry_lines(self@),
    {
        let mut out: Vec<Vec<Span>> = Vec::new();
        self.push_lines(&mut out);
        proof {
            assert(out.deep_view() =~~= entry_lines(self@));
        }
        out
    }
}

impl Meaning {
    /// Appends this meaning's rendered block: the part of speech in
    /// parentheses, then the definitions numbered from 1 in input order,
    /// each with its example line where one is present.
    pub fn push_lines(&self, out: &mut Vec<Vec<Span>>)
        ensures
            final(out).deep_view() == old(out).deep_view() + meaning_lines(self@),
    {
        let mut h = "(".to_owned();
        h.append(self.part_of_speech.as_str());
        h.append(")");
        let mut header: Vec<Span> = Vec::new();
        header.push(Span { style: Style::Bold, text: h });
        out.push(header);
        proof {
            assert(out.deep_view() =~~= old(out).deep_view() + seq![
                seq![SpanView { style: Style::Bold, text: "("@ + self@.part_of_speech + ")"@ }],
            ] + definitions_lines(self@.definitions.take(0), 1));
        }
        let mut i: usize = 0;
        while i < self.definitions.len()
            invariant
                0 <= i <= self.definitions@.len(),
                self@.definitions.len() == self.definitions@.len(),
                out.deep_view() == old(out).deep_view() + seq![
                    seq![
                        SpanView { style: Style::Bold, text: "("@ + self@.part_of_speech + ")"@ },
                    ],
                ] + definitions_lines(self@.definitions.take(i as int), 1),
            decreases self.definitions@.len() - i,
        {
            let d = &self.definitions[i];
            proof {
                assert(d@ == self@.definitions[i as int]);
            }
            push_definition_lines(i + 1, d, out);
            proof {
                assert(self@.definitions.take(i + 1 as int) =~= self@.definitions.take(
                    i as int,
                ).push(self@.definitions[i as int]));
                lemma_definitions_lines_push(
                    self@.definitions.take(i as int),
                    self@.definitions[i as int],
                    1,
                );
                assert(1 + self@.definitions.take(i as int).len() == (i + 1) as nat);
                assert(out.deep_view() =~~= old(out).deep_view() + seq![
                    seq![
                        SpanView { style: Style::Bold, text: "("@ + self@.part_of_speech + ")"@ },
                    ],
                ] + definitions_lines(self@.definitions.take(i + 1 as int), 1));
            }
            i += 1;
        }
        proof {
            assert(self@.definitions.take(self.definitions@.len() as int) =~= self@.definitions);
            assert(out.deep_view() =~~= old(out).deep_view() + meaning_lines(self@));
        }
    }

    /// This meaning's rendered block as styled lines.
    pub fn render_lines(&self) -> (r: Vec<Vec<Span>>)
        ensures
            r.deep_view() == meaning_lines(self@),
    {
        let mut out: Vec<Vec<Span>> = Vec::new();
        self.push_lines(&mut out);
        proof {
            assert(out.deep_view() =~~= meaning_lines(self@));
        }
        out
    }
}

/// Appends one definition's lines: the numbered line, then the quoted
/// example line where an example is present.
fn push_definition_lines(idx: usize, d: &crate::model::Definition, out: &mut Vec<Vec<Span>>)
    ensures
        final(out).deep_view() == old(out).deep_view() + definition_block(idx as nat, d@),
{
    let mut t = dec_str(idx);
    t.append(". ");
    t.append(d.definition.as_str());
    let mut numbered: Vec<Span> = Vec::new();
    numbered.push(Span { style: Style::Plain, text: t });
    out.push(numbered);
    match &d.example {
        Some(ex) => {
            let mut q = "\"".to_owned();
            q.append(ex.as_str());
            q.append("\"");
            let mut line: Vec<Span> = Vec::new();
            line.push(Span { style: Style::Plain, text: "   ".to_owned() });
            line.push(Span { style: Style::Italic, text: q });
            out.push(line);
            proof {
                assert(out.deep_view() =~~= old(out).deep_view() + definition_block(
                    idx as nat,
                    d@,
                ));
            }
        },
        None => {
            proof {
                assert(out.deep_view() =~~= old(out).deep_view() + definition_block(
                    idx as nat,
                    d@,
                ));
            }
        },
    }
}

/// Renders a whole response as styled lines: each entry's block, in order.
/// A response of zero entries renders as zero lines.
pub fn render_entries(entries: &Vec<DictionaryEntry>) -> (r: Vec<Vec<Span>>)
    ensures
        r.deep_view() == entries_lines(entries.deep_view()),
        entries@.len() == 0 ==> r.deep_view() == Seq::<Seq<SpanView>>::empty(),
{
    let mut out: Vec<Vec<Span>> = Vec::new();
    let mut i: usize = 0;
    proof {
        assert(out.deep_view() =~~= entries_lines(entries.deep_view().take(0)));
    }
    while i < entries.len()
        invariant
            0 <= i <= entries@.len(),
            entries.deep_view().len() == entries@.len(),
            out.deep_view() == entries_lines(entries.deep_view().take(i as int)),
        decreases entries@.len() - i,
    {
        let e = &entries[i];
        proof {
            assert(e@ == entries.deep_view()[i as int]);
        }
        e.push_lines(&mut out);
        proof {
            assert(entries.deep_view().take(i + 1 as int) =~= entries.deep_view().take(
                i as int,
            ).push(entries.deep_view()[i as int]));
            lemma_entries_lines_push(
                entries.deep_view().take(i as int),
                entries.deep_view()[i as int],
            );
        }
        i += 1;
    }
    proof {
        assert(entries.deep_view().take(entries@.len() as int) =~= entries.deep_view());
    }
    out
}

/// Appends one span as terminal text.
fn push_ansi_span(s: &Span, out: &mut String)
    ensures
        final(out)@ == old(out)@ + ansi_span(s.deep_view()),
{
    match s.style {
        Style::Plain => {
            out.append(s.text.as_str());
        },
        Style::Bold => {
            out.append("\x1b[;1m");
            out.append(s.text.as_str());
            out.append("\x1b[0m");
            proof {
                assert(out@ =~= old(out)@ + ansi_span(s.deep_view()));
            }
        },
        Style::Italic => {
            out.append("\x1b[;3m");
            out.append(s.text.as_str());
            out.append("\x1b[0m");
            proof {
                assert(out@ =~= old(out)@ + ansi_span(s.deep_view()));
            }
        },
        Style::Dim => {
            out.append("\x1b[90m");
            out.append(s.text.as_str());
            out.append("\x1b[0m");
            proof {
                assert(out@ =~= old(out)@ + ansi_span(s.deep_view()));
            }
        },
    }
}

/// Appends one line as terminal text, closed by a newline.
fn push_ansi_line(line: &Vec<Span>, out: &mut String)
    ensures
        final(out)@ == old(out)@ + ansi_line(line.deep_view()),
{
    let mut i: usize = 0;
    while i < line.len()
        invariant
            0 <= i <= line@.len(),
            line.deep_view().len() == line@.len(),
            out@ == old(out)@ + ansi_spans(line.deep_view().take(i as int)),
        decreases line@.len() - i,
    {
        push_ansi_span(&line[i], out);
        proof {
            assert(line.deep_view().take(i + 1 as int) =~= line.deep_view().take(i as int).push(
                line.deep_view()[i as int],
            ));
            lemma_ansi_spans_push(line.deep_view().take(i as int), line.deep_view()[i as int]);
            assert(out@ =~= old(out)@ + ansi_spans(line.deep_view().take(i + 1 as int)));
        }
        i += 1;
    }
    out.append("\n");
    proof {
        assert(line.deep_view().take(line@.len() as int) =~= line.deep_view());
        assert(out@ =~= old(out)@ + ansi_line(line.deep_view()));
    }
}

/// Renders styled lines as one terminal text: each line's spans as escape
/// sequences and text, each line closed by a newline.
pub fn ansi_render(lines: &Vec<Vec<Span>>) -> (r: String)
    ensures
        r@ == ansi_lines(lines.deep_view()),
{
    let mut out = String::new();
    let mut i: usize = 0;
    proof {
        assert(out@ =~= ansi_lines(lines.deep_view().take(0)));
    }
    while i < lines.len()
        invariant
            0 <= i <= lines@.len(),
            lines.deep_view().len() == lines@.len(),
            out@ == ansi_lines(lines.deep_view().take(i as int)),
        decreases lines@.len() - i,
    {
        push_ansi_line(&lines[i], &mut out);
        proof {
            assert(lines.deep_view().take(i + 1 as int) =~= lines.deep_view().take(i as int).push(
                lines.deep_view()[i as int],
            ));
            lemma_ansi_lines_push(lines.deep_view().take(i as int), lines.deep_view()[i as int]);
        }
        i += 1;
    }
    proof {
        assert(lines.deep_view().take(lines@.len() as int) =~= lines.deep_view());
    }
    out
}

/// Renders a whole response as terminal text. A response of zero entries
/// renders as the empty text.
pub fn render_text(entries: &Vec<DictionaryEntry>) -> (r: String)
    ensures
        r@ == rendered_text(entries.deep_view()),
        entries@.len() == 0 ==> r@ == Seq::<char>::empty(),
{
    let lines = render_entries(entries);
    ansi_render(&lines)
}

} // verus!
