//! Converting strings straight from a case name: `"myVar".to_case(Case::Snake)`.
use crate::boundary::{default_list, Boundary};
use crate::case::Case;
use crate::converter::{added, converted, listed, Converter, ConverterView};
use crate::text::{concat, graphemes_of};
use vstd::prelude::*;

verus! {

/// The converter that reads at the default boundaries and writes as `case`.
pub open spec fn writer(case: Case) -> ConverterView {
    ConverterView {
        boundaries: default_list(),
        patterns: seq![case.spec_pattern()],
        delim: case.spec_delim(),
    }
}

/// The converter that reads as `from` and writes as `to`.
pub open spec fn reader_writer(from: Case, to: Case) -> ConverterView {
    ConverterView {
        boundaries: from.spec_boundaries(),
        patterns: seq![to.spec_pattern()],
        delim: to.spec_delim(),
    }
}

/// What `to_case` makes of the string `s`.
pub open spec fn to_case_of(s: Seq<char>, case: Case) -> Seq<char> {
    converted(writer(case), graphemes_of(s))
}

/// A string together with how it is to be read, waiting to be written in a
/// case.
pub struct StateConverter {
    s: String,
    conv: Converter,
}

impl View for StateConverter {
    type V = (Seq<char>, ConverterView);

    closed spec fn view(&self) -> (Seq<char>, ConverterView) {
        (self.s@, self.conv@)
    }
}

impl StateConverter {
    /// Reads the string as `case` does.
    pub fn from_case(self, case: Case) -> (r: StateConverter)
        ensures
            r@ == (self@.0, ConverterView { boundaries: case.spec_boundaries(), ..self@.1 }),
    {
        StateConverter { s: self.s, conv: self.conv.from_case(case) }
    }

    /// Reads the string at the boundaries `bs` alone.
    pub fn with_boundaries(self, bs: &[Boundary]) -> (r: StateConverter)
        ensures
            r@ == (self@.0, ConverterView { boundaries: added(Seq::empty(), bs@), ..self@.1 }),
    {
        StateConverter { s: self.s, conv: self.conv.set_boundaries(bs) }
    }

    /// Stops reading the string at the boundaries `bs`.
    pub fn without_boundaries(self, bs: &[Boundary]) -> (r: StateConverter)
        ensures
            r@ == (self@.0, ConverterView {
                boundaries: self@.1.boundaries.filter(|x: Boundary| !listed(bs@, x)),
                ..self@.1
            }),
    {
        StateConverter { s: self.s, conv: self.conv.remove_boundaries(bs) }
    }

    /// Converts the string as it is set up so far.
    pub fn convert(self) -> (r: String)
        ensures
            r@ == converted(self@.1, graphemes_of(self@.0)),
            self@.0.len() == 0 ==> r@.len() == 0,
    {
        self.conv.convert(self.s.as_str())
    }

    /// Writes the string as `case` does.
    pub fn to_case(self, case: Case) -> (r: String)
        ensures
            r@ == converted(
                ConverterView {
                    patterns: self@.1.patterns.push(case.spec_pattern()),
                    delim: case.spec_delim(),
                    ..self@.1
                },
                graphemes_of(self@.0),
            ),
            self@.0.len() == 0 ==> r@.len() == 0,
    {
        let conv = self.conv.to_case(case);
        conv.convert(self.s.as_str())
    }
}

/// Strings that convert between cases.
pub trait Casing {
    /// The characters of the string.
    spec fn text(&self) -> Seq<char>;

    /// The string in `case`, read at the default boundaries.
    fn to_case(&self, case: Case) -> (r: String)
        ensures
            r@ == to_case_of(self.text(), case),
            self.text().len() == 0 ==> r@.len() == 0,
    ;

    /// The string, to be read as `case` does.
    fn from_case(&self, case: Case) -> (r: StateConverter)
        ensures
            r@ == (self.text(), ConverterView {
                boundaries: case.spec_boundaries(),
                patterns: Seq::empty(),
                delim: Seq::empty(),
            }),
    ;

    /// The string, to be read at the boundaries `bs`.
    fn with_boundaries(&self, bs: &[Boundary]) -> (r: StateConverter)
        ensures
            r@ == (self.text(), ConverterView {
                boundaries: added(Seq::empty(), bs@),
                patterns: Seq::empty(),
                delim: Seq::empty(),
            }),
    ;

    /// Whether the string is already in `case`: `to_case` leaves it as it is.
    fn is_case(&self, case: Case) -> (r: bool)
        ensures
            r == (to_case_of(self.text(), case) == self.text()),
    ;
}

fn state_of(s: &str) -> (r: StateConverter)
    ensures
        r@ == (s@, crate::converter::default_view()),
{
    StateConverter { s: s.to_owned(), conv: Converter::new() }
}

pub(crate) fn to_case_str(s: &str, case: Case) -> (r: String)
    ensures
        r@ == to_case_of(s@, case),
        s@.len() == 0 ==> r@.len() == 0,
{
    let conv = Converter::new().to_case(case);
    assert(conv@ == writer(case)) by {
        assert(Seq::<crate::pattern::Pattern>::empty().push(case.spec_pattern()) =~= seq![
            case.spec_pattern(),
        ]);
    }
    conv.convert(s)
}

fn is_case_str(s: &str, case: Case) -> (r: bool)
    ensures
        r == (to_case_of(s@, case) == s@),
{
    let t = to_case_str(s, case);
    t == s.to_owned()
}

impl<'a> Casing for &'a str {
    open spec fn text(&self) -> Seq<char> {
        (*self)@
    }

    fn to_case(&self, case: Case) -> (r: String) {
        to_case_str(self, case)
    }

    fn from_case(&self, case: Case) -> (r: StateConverter) {
        state_of(self).from_case(case)
    }

    fn with_boundaries(&self, bs: &[Boundary]) -> (r: StateConverter) {
        state_of(self).with_boundaries(bs)
    }

    fn is_case(&self, case: Case) -> (r: bool) {
        is_case_str(self, case)
    }
}

impl Casing for String {
    open spec fn text(&self) -> Seq<char> {
        self@
    }

    fn to_case(&self, case: Case) -> (r: String) {
        to_case_str(self.as_str(), case)
    }

    fn from_case(&self, case: Case) -> (r: StateConverter) {
        state_of(self.as_str()).from_case(case)
    }

    fn with_boundaries(&self, bs: &[Boundary]) -> (r: StateConverter) {
        state_of(self.as_str()).with_boundaries(bs)
    }

    fn is_case(&self, case: Case) -> (r: bool) {
        is_case_str(self.as_str(), case)
    }
}

/// Reading the empty string as any case and writing it as any case gives
/// the empty string: the empty string has no graphemes, and a converter
/// makes nothing of no graphemes.
pub proof fn empty_input_converts_to_empty(a: Case, b: Case, gs: Seq<Seq<char>>)
    requires
        concat(gs).len() == 0,
        forall|i: int| 0 <= i < gs.len() ==> (#[trigger] gs[i]).len() > 0,
    ensures
        converted(reader_writer(a, b), gs).len() == 0,
{
    crate::converter::lemma_no_parts(gs);
    crate::converter::lemma_converts_nothing(reader_writer(a, b));
}

} // verus!
