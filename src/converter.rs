//! The converter: a boundary list to read by, patterns and a delimiter to
//! write with.
use crate::boundary::{default_list, split_graphemes, split_words, Boundary};
use crate::case::Case;
use crate::pattern::Pattern;
use crate::text::{concat, graphemes, graphemes_of, join_with, join_words, views};
use vstd::prelude::*;

verus! {

/// Applies the patterns `ps` to the words `ws`, the first pattern first.
pub open spec fn apply_patterns(ps: Seq<Pattern>, ws: Seq<Seq<char>>) -> Seq<Seq<char>>
    decreases ps.len(),
{
    if ps.len() == 0 {
        ws
    } else {
        apply_patterns(ps.drop_first(), ps[0].spec_mutate(ws))
    }
}

/// What a converter is: the boundaries it splits at, the patterns it applies
/// in order, and the delimiter it joins with.
pub struct ConverterView {
    pub boundaries: Seq<Boundary>,
    pub patterns: Seq<Pattern>,
    pub delim: Seq<char>,
}

/// What the converter `c` makes of the graphemes `gs`: it splits them into
/// words, applies its patterns, and joins the words with its delimiter.
pub open spec fn converted(c: ConverterView, gs: Seq<Seq<char>>) -> Seq<char> {
    join_words(apply_patterns(c.patterns, split_words(gs, c.boundaries)), c.delim)
}

/// A fresh converter: default boundaries, no pattern, no delimiter.
pub open spec fn default_view() -> ConverterView {
    ConverterView { boundaries: default_list(), patterns: Seq::empty(), delim: Seq::empty() }
}

/// Converts identifiers: splits them at its boundaries, re-cases the words
/// with its patterns in order, and joins them with its delimiter.
///
/// The boundaries govern reading alone and the patterns and delimiter
/// writing alone, so that an identifier can be read as one case and written
/// as another.
pub struct Converter {
    boundaries: Vec<Boundary>,
    patterns: Vec<Pattern>,
    delim: String,
}

impl View for Converter {
    type V = ConverterView;

    closed spec fn view(&self) -> ConverterView {
        ConverterView {
            boundaries: self.boundaries@,
            patterns: self.patterns@,
            delim: self.delim@,
        }
    }
}

impl Default for Converter {
    fn default() -> (r: Converter)
        ensures
            r@ == default_view(),
    {
        Converter::new()
    }
}

/// Whether some boundary of `bs` is the same as `b`.
pub open spec fn listed(bs: Seq<Boundary>, b: Boundary) -> bool {
    exists|j: int| 0 <= j < bs.len() && b.same_as(#[trigger] bs[j])
}

fn is_listed(bs: &[Boundary], b: &Boundary) -> (r: bool)
    ensures
        r == listed(bs@, *b),
{
    let mut j: usize = 0;
    while j < bs.len()
        invariant
            j <= bs@.len(),
            forall|t: int| 0 <= t < j ==> !b.same_as(#[trigger] bs@[t]),
        decreases bs.len() - j,
    {
        if b.is_same(&bs[j]) {
            return true;
        }
        j = j + 1;
    }
    false
}

/// `bs` followed by the boundaries of `more`, in their order, each left out
/// when the same boundary is there already.
pub open spec fn added(bs: Seq<Boundary>, more: Seq<Boundary>) -> Seq<Boundary>
    decreases more.len(),
{
    if more.len() == 0 {
        bs
    } else {
        let before = added(bs, more.drop_last());
        if listed(before, more.last()) {
            before
        } else {
            before.push(more.last())
        }
    }
}

/// Adds the boundaries of `more` to `bs` as `added` says.
fn add_all(bs: Vec<Boundary>, more: &[Boundary]) -> (r: Vec<Boundary>)
    ensures
        r@ == added(bs@, more@),
{
    let ghost start = bs@;
    let mut r = bs;
    let mut k: usize = 0;
    assert(more@.subrange(0, 0) =~= Seq::<Boundary>::empty());
    while k < more.len()
        invariant
            k <= more@.len(),
            r@ == added(start, more@.subrange(0, k as int)),
        decreases more.len() - k,
    {
        assert(more@.subrange(0, k + 1).drop_last() =~= more@.subrange(0, k as int));
        assert(more@.subrange(0, k + 1).last() == more@[k as int]);
        if !is_listed(r.as_slice(), &more[k]) {
            r.push(more[k]);
        }
        k = k + 1;
    }
    assert(more@.subrange(0, k as int) =~= more@);
    r
}

/// The boundaries of `bs` that are not listed in `gone`, in their order.
fn without(bs: &[Boundary], gone: &[Boundary]) -> (r: Vec<Boundary>)
    ensures
        r@ == bs@.filter(|x: Boundary| !listed(gone@, x)),
{
    let mut r: Vec<Boundary> = Vec::new();
    let mut k: usize = 0;
    proof {
        reveal(Seq::filter);
        assert(bs@.subrange(0, 0) =~= Seq::<Boundary>::empty());
    }
    while k < bs.len()
        invariant
            k <= bs@.len(),
            r@ == bs@.subrange(0, k as int).filter(|x: Boundary| !listed(gone@, x)),
        decreases bs.len() - k,
    {
        proof {
            reveal(Seq::filter);
            assert(bs@.subrange(0, k + 1).drop_last() =~= bs@.subrange(0, k as int));
        }
        if !is_listed(gone, &bs[k]) {
            r.push(bs[k]);
        }
        k = k + 1;
    }
    assert(bs@.subrange(0, k as int) =~= bs@);
    r
}

impl Converter {
    /// A converter with the default boundaries, no pattern and no delimiter.
    pub fn new() -> (r: Converter)
        ensures
            r@ == default_view(),
    {
        let r = Converter {
            boundaries: Boundary::defaults(),
            patterns: Vec::new(),
            delim: String::new(),
        };
        assert(r@.patterns =~= Seq::<Pattern>::empty());
        r
    }

    /// The boundaries the converter splits at, in the order they are tried.
    pub fn boundaries(&self) -> (r: &[Boundary])
        ensures
            r@ == self@.boundaries,
    {
        self.boundaries.as_slice()
    }

    /// The patterns the converter applies, in order.
    pub fn patterns(&self) -> (r: &[Pattern])
        ensures
            r@ == self@.patterns,
    {
        self.patterns.as_slice()
    }

    /// The delimiter the converter joins words with.
    pub fn delim(&self) -> (r: &str)
        ensures
            r@ == self@.delim,
    {
        self.delim.as_str()
    }

    /// Converts the graphemes `gs` of an identifier.
    pub fn convert_graphemes(&self, gs: &[String]) -> (r: String)
        ensures
            r@ == converted(self@, views(gs@)),
    {
        let mut words = split_graphemes(gs, self.boundaries.as_slice());
        let mut k: usize = 0;
        assert(self@.patterns.subrange(0, self@.patterns.len() as int) =~= self@.patterns);
        while k < self.patterns.len()
            invariant
                k <= self@.patterns.len(),
                apply_patterns(self@.patterns.subrange(k as int, self@.patterns.len() as int), views(words@))
                    == apply_patterns(self@.patterns, split_words(views(gs@), self@.boundaries)),
            decreases self.patterns.len() - k,
        {
            proof {
                let rest = self@.patterns.subrange(k as int, self@.patterns.len() as int);
                assert(rest.drop_first() =~= self@.patterns.subrange(k + 1, self@.patterns.len() as int));
            }
            words = self.patterns[k].mutate(words.as_slice());
            k = k + 1;
        }
        join_with(words.as_slice(), self.delim.as_str())
    }

    /// Converts the identifier `s`. The empty string converts to the empty
    /// string.
    pub fn convert(&self, s: &str) -> (r: String)
        ensures
            r@ == converted(self@, graphemes_of(s@)),
            s@.len() == 0 ==> r@.len() == 0,
    {
        let gs = graphemes(s);
        proof {
            if s@.len() == 0 {
                lemma_no_parts(views(gs@));
                lemma_converts_nothing(self@);
            }
        }
        self.convert_graphemes(gs.as_slice())
    }

    /// Writes as `case` does: appends its pattern and takes its delimiter.
    pub fn to_case(self, case: Case) -> (r: Converter)
        ensures
            r@ == (ConverterView {
                boundaries: self@.boundaries,
                patterns: self@.patterns.push(case.spec_pattern()),
                delim: case.spec_delim(),
            }),
    {
        let mut c = self;
        c.patterns.push(case.pattern());
        c.delim = case.delim().to_owned();
        c
    }

    /// Reads as `case` does: takes its boundaries.
    pub fn from_case(self, case: Case) -> (r: Converter)
        ensures
            r@ == (ConverterView { boundaries: case.spec_boundaries(), ..self@ }),
    {
        let mut c = self;
        c.boundaries = case.boundaries();
        c
    }

    /// Adds the boundary `b` after the others, unless it is there already.
    pub fn add_boundary(self, b: Boundary) -> (r: Converter)
        ensures
            r@ == (ConverterView {
                boundaries: if listed(self@.boundaries, b) {
                    self@.boundaries
                } else {
                    self@.boundaries.push(b)
                },
                ..self@
            }),
    {
        let mut c = self;
        if !is_listed(c.boundaries.as_slice(), &b) {
            c.boundaries.push(b);
        }
        c
    }

    /// Adds the boundaries `bs` after the others, each unless it is there
    /// already.
    pub fn add_boundaries(self, bs: &[Boundary]) -> (r: Converter)
        ensures
            r@ == (ConverterView { boundaries: added(self@.boundaries, bs@), ..self@ }),
    {
        let mut c = self;
        c.boundaries = add_all(c.boundaries, bs);
        c
    }

    /// Splits at the boundaries `bs` alone, each taken once.
    pub fn set_boundaries(self, bs: &[Boundary]) -> (r: Converter)
        ensures
            r@ == (ConverterView { boundaries: added(Seq::empty(), bs@), ..self@ }),
    {
        let mut c = self;
        c.boundaries = add_all(Vec::new(), bs);
        c
    }

    /// Stops splitting at the boundary `b`.
    pub fn remove_boundary(self, b: Boundary) -> (r: Converter)
        ensures
            r@ == (ConverterView {
                boundaries: self@.boundaries.filter(|x: Boundary| !listed(seq![b], x)),
                ..self@
            }),
    {
        let gone = vec![b];
        let mut c = self;
        c.boundaries = without(c.boundaries.as_slice(), gone.as_slice());
        assert(gone@ =~= seq![b]);
        c
    }

    /// Stops splitting at the boundaries `bs`.
    pub fn remove_boundaries(self, bs: &[Boundary]) -> (r: Converter)
        ensures
            r@ == (ConverterView {
                boundaries: self@.boundaries.filter(|x: Boundary| !listed(bs@, x)),
                ..self@
            }),
    {
        let mut c = self;
        c.boundaries = without(c.boundaries.as_slice(), bs);
        c
    }

    /// Joins words with `d`.
    pub fn set_delim(self, d: &str) -> (r: Converter)
        ensures
            r@ == (ConverterView { delim: d@, ..self@ }),
    {
        let mut c = self;
        c.delim = d.to_owned();
        c
    }

    /// Joins words with nothing between them.
    pub fn remove_delim(self) -> (r: Converter)
        ensures
            r@ == (ConverterView { delim: Seq::empty(), ..self@ }),
    {
        let mut c = self;
        c.delim = String::new();
        c
    }

    /// Applies the pattern `p` alone.
    pub fn set_pattern(self, p: Pattern) -> (r: Converter)
        ensures
            r@ == (ConverterView { patterns: seq![p], ..self@ }),
    {
        let mut c = self;
        c.patterns = vec![p];
        assert(c.patterns@ =~= seq![p]);
        c
    }

    /// Applies the pattern `p` after the others.
    pub fn add_pattern(self, p: Pattern) -> (r: Converter)
        ensures
            r@ == (ConverterView { patterns: self@.patterns.push(p), ..self@ }),
    {
        let mut c = self;
        c.patterns.push(p);
        c
    }

    /// Applies no pattern: words keep their case.
    pub fn remove_pattern(self) -> (r: Converter)
        ensures
            r@ == (ConverterView { patterns: Seq::empty(), ..self@ }),
    {
        let mut c = self;
        c.patterns = Vec::new();
        assert(c.patterns@ =~= Seq::<Pattern>::empty());
        c
    }

    /// Drops the empty words at this point of the pattern pipeline, so that
    /// leading, trailing and repeated delimiters leave no trace.
    pub fn remove_empty(self) -> (r: Converter)
        ensures
            r@ == (ConverterView {
                patterns: self@.patterns.push(Pattern::RemoveEmpty),
                ..self@
            }),
    {
        self.add_pattern(Pattern::RemoveEmpty)
    }
}

/// Non-empty parts spell the empty string only when there are none.
pub proof fn lemma_no_parts(parts: Seq<Seq<char>>)
    requires
        concat(parts).len() == 0,
        forall|i: int| 0 <= i < parts.len() ==> (#[trigger] parts[i]).len() > 0,
    ensures
        parts.len() == 0,
{
    if parts.len() > 0 {
        assert(concat(parts) == concat(parts.drop_last()) + parts.last());
        assert(parts[parts.len() - 1].len() > 0);
    }
}

/// Every pattern makes no words of no words.
pub proof fn lemma_patterns_keep_nothing(ps: Seq<Pattern>)
    ensures
        apply_patterns(ps, Seq::empty()) == Seq::<Seq<char>>::empty(),
    decreases ps.len(),
{
    if ps.len() > 0 {
        let none = Seq::<Seq<char>>::empty();
        reveal(Seq::filter);
        assert(ps[0].spec_mutate(none) =~= none);
        lemma_patterns_keep_nothing(ps.drop_first());
    }
}

/// A converter makes nothing of no graphemes.
pub proof fn lemma_converts_nothing(c: ConverterView)
    ensures
        converted(c, Seq::empty()) == Seq::<char>::empty(),
{
    lemma_patterns_keep_nothing(c.patterns);
}

} // verus!
