//! Word boundaries: where an identifier splits into words.
use crate::text::{
    chars_of, concat, concat_range, grapheme_is_digit, grapheme_is_lowercase,
    grapheme_is_uppercase, graphemes, graphemes_of, is_digit, is_lower, is_upper, views,
};
use vstd::prelude::*;

verus! {

/// A condition under which an identifier splits into two words.
///
/// `Hyphen`, `Underscore` and `Space` split on that character and consume it;
/// the transitions between letter cases and digits split between two
/// graphemes and consume nothing. `Acronym` splits before the last capital of
/// a run of capitals that is followed by a lowercase letter. A `Delimiter`
/// splits on a literal string and consumes its graphemes; an empty
/// delimiter never splits.
#[derive(Debug, PartialEq, Eq, Clone, Copy)]
pub enum Boundary {
    Hyphen,
    Underscore,
    Space,
    UpperLower,
    LowerUpper,
    DigitUpper,
    UpperDigit,
    DigitLower,
    LowerDigit,
    Acronym,
    Delimiter(&'static str),
}

impl Boundary {
    /// How many graphemes the boundary consumes where it splits.
    pub open spec fn spec_len(self) -> nat {
        match self {
            Boundary::Hyphen | Boundary::Underscore | Boundary::Space => 1,
            Boundary::Delimiter(d) => graphemes_of(d@).len(),
            _ => 0,
        }
    }

    /// Where the split falls, counted in graphemes from the matching position.
    pub open spec fn spec_start(self) -> nat {
        match self {
            Boundary::Hyphen | Boundary::Underscore | Boundary::Space | Boundary::Delimiter(_) => 0,
            _ => 1,
        }
    }

    /// Whether the boundary is present at position `i` of the graphemes `gs`.
    /// `UpperLower` does not fire inside an acronym, where the grapheme before
    /// `i` is uppercase too.
    pub open spec fn spec_matches(self, gs: Seq<Seq<char>>, i: int) -> bool {
        &&& 0 <= i < gs.len()
        &&& match self {
            Boundary::Hyphen => gs[i] == seq!['-'],
            Boundary::Underscore => gs[i] == seq!['_'],
            Boundary::Space => gs[i] == seq![' '],
            Boundary::UpperLower => i + 1 < gs.len() && is_upper(gs[i]) && is_lower(gs[i + 1])
                && !(i > 0 && is_upper(gs[i - 1])),
            Boundary::LowerUpper => i + 1 < gs.len() && is_lower(gs[i]) && is_upper(gs[i + 1]),
            Boundary::DigitUpper => i + 1 < gs.len() && is_digit(gs[i]) && is_upper(gs[i + 1]),
            Boundary::UpperDigit => i + 1 < gs.len() && is_upper(gs[i]) && is_digit(gs[i + 1]),
            Boundary::DigitLower => i + 1 < gs.len() && is_digit(gs[i]) && is_lower(gs[i + 1]),
            Boundary::LowerDigit => i + 1 < gs.len() && is_lower(gs[i]) && is_digit(gs[i + 1]),
            Boundary::Acronym => i + 2 < gs.len() && is_upper(gs[i]) && is_upper(gs[i + 1])
                && is_lower(gs[i + 2]),
            Boundary::Delimiter(d) => {
                let dg = graphemes_of(d@);
                dg.len() > 0 && i + dg.len() <= gs.len() && gs.subrange(i, i + dg.len()) == dg
            },
        }
    }

    /// Two boundaries are the same when they are the same variant and, for
    /// delimiters, hold the same text.
    pub open spec fn same_as(self, other: Boundary) -> bool {
        match (self, other) {
            (Boundary::Delimiter(a), Boundary::Delimiter(b)) => a@ == b@,
            _ => self == other,
        }
    }

    /// A boundary that splits on the literal string `delim` and consumes it.
    pub fn from_delim(delim: &'static str) -> (r: Boundary)
        ensures
            r == Boundary::Delimiter(delim),
    {
        Boundary::Delimiter(delim)
    }

    /// Whether the boundary is present at position `i` of `gs`.
    pub fn matches(&self, gs: &[String], i: usize) -> (r: bool)
        ensures
            r == self.spec_matches(views(gs@), i as int),
    {
        let ghost v = views(gs@);
        let n = gs.len();
        if i >= n {
            return false;
        }
        match self {
            Boundary::Hyphen => is_single(&gs[i], '-'),
            Boundary::Underscore => is_single(&gs[i], '_'),
            Boundary::Space => is_single(&gs[i], ' '),
            Boundary::UpperLower => {
                i + 1 < n && grapheme_is_uppercase(gs[i].as_str()) && grapheme_is_lowercase(
                    gs[i + 1].as_str(),
                ) && !(i > 0 && grapheme_is_uppercase(gs[i - 1].as_str()))
            },
            Boundary::LowerUpper => {
                i + 1 < n && grapheme_is_lowercase(gs[i].as_str()) && grapheme_is_uppercase(
                    gs[i + 1].as_str(),
                )
            },
            Boundary::DigitUpper => {
                i + 1 < n && grapheme_is_digit(gs[i].as_str()) && grapheme_is_uppercase(
                    gs[i + 1].as_str(),
                )
            },
            Boundary::UpperDigit => {
                i + 1 < n && grapheme_is_uppercase(gs[i].as_str()) && grapheme_is_digit(
                    gs[i + 1].as_str(),
                )
            },
            Boundary::DigitLower => {
                i + 1 < n && grapheme_is_digit(gs[i].as_str()) && grapheme_is_lowercase(
                    gs[i + 1].as_str(),
                )
            },
            Boundary::LowerDigit => {
                i + 1 < n && grapheme_is_lowercase(gs[i].as_str()) && grapheme_is_digit(
                    gs[i + 1].as_str(),
                )
            },
            Boundary::Acronym => {
                n - i > 2 && grapheme_is_uppercase(gs[i].as_str()) && grapheme_is_uppercase(
                    gs[i + 1].as_str(),
                ) && grapheme_is_lowercase(gs[i + 2].as_str())
            },
            Boundary::Delimiter(d) => {
                let dg = graphemes(d);
                let k = dg.len();
                if k == 0 || k > n - i {
                    return false;
                }
                let mut j: usize = 0;
                while j < k
                    invariant
                        *self == Boundary::Delimiter(*d),
                        0 < k <= n - i,
                        k == dg@.len(),
                        n == gs@.len(),
                        v == views(gs@),
                        views(dg@) == graphemes_of(d@),
                        j <= k,
                        forall|t: int| 0 <= t < j ==> v[i + t] == #[trigger] views(dg@)[t],
                    decreases k - j,
                {
                    if !(gs[i + j] == dg[j]) {
                        assert(v[i + j] == gs@[i + j]@);
                        assert(views(dg@)[j as int] == dg@[j as int]@);
                        assert(v.subrange(i as int, i + k)[j as int] != views(dg@)[j as int]);
                        assert(v.subrange(i as int, i + k) != views(dg@));
                        return false;
                    }
                    assert(v[i + j] == gs@[i + j]@);
                    assert(views(dg@)[j as int] == dg@[j as int]@);
                    j = j + 1;
                }
                assert(v.subrange(i as int, i + k) =~= views(dg@));
                true
            },
        }
    }

    /// How many graphemes the boundary consumes where it splits.
    pub fn len(&self) -> (r: usize)
        ensures
            r == self.spec_len(),
    {
        match self {
            Boundary::Hyphen | Boundary::Underscore | Boundary::Space => 1,
            Boundary::Delimiter(d) => graphemes(d).len(),
            _ => 0,
        }
    }

    /// Where the split falls, counted in graphemes from the matching position.
    pub fn start(&self) -> (r: usize)
        ensures
            r == self.spec_start(),
    {
        match self {
            Boundary::Hyphen | Boundary::Underscore | Boundary::Space | Boundary::Delimiter(_) => 0,
            _ => 1,
        }
    }

    /// Whether `self` and `other` are the same boundary.
    pub fn is_same(&self, other: &Boundary) -> (r: bool)
        ensures
            r == self.same_as(*other),
    {
        match (self, other) {
            (Boundary::Delimiter(a), Boundary::Delimiter(b)) => {
                let x = chars_of(a);
                let y = chars_of(b);
                if x.len() != y.len() {
                    assert(a@.len() != b@.len());
                    return false;
                }
                let mut j: usize = 0;
                while j < x.len()
                    invariant
                        *self == Boundary::Delimiter(*a),
                        *other == Boundary::Delimiter(*b),
                        x@ == a@,
                        y@ == b@,
                        x@.len() == y@.len(),
                        j <= x@.len(),
                        forall|t: int| 0 <= t < j ==> x@[t] == y@[t],
                    decreases x.len() - j,
                {
                    if x[j] != y[j] {
                        assert(a@[j as int] != b@[j as int]);
                        return false;
                    }
                    j = j + 1;
                }
                assert(x@ =~= y@);
                true
            },
            (Boundary::Hyphen, Boundary::Hyphen) => true,
            (Boundary::Underscore, Boundary::Underscore) => true,
            (Boundary::Space, Boundary::Space) => true,
            (Boundary::UpperLower, Boundary::UpperLower) => true,
            (Boundary::LowerUpper, Boundary::LowerUpper) => true,
            (Boundary::DigitUpper, Boundary::DigitUpper) => true,
            (Boundary::UpperDigit, Boundary::UpperDigit) => true,
            (Boundary::DigitLower, Boundary::DigitLower) => true,
            (Boundary::LowerDigit, Boundary::LowerDigit) => true,
            (Boundary::Acronym, Boundary::Acronym) => true,
            _ => false,
        }
    }
}

/// Whether the string is the single character `c`.
fn is_single(g: &String, c: char) -> (r: bool)
    ensures
        r == (g@ == seq![c]),
{
    let cs = chars_of(g.as_str());
    if cs.len() == 1 && cs[0] == c {
        assert(cs@ =~= seq![c]);
        true
    } else {
        false
    }
}

/// The first boundary of `bs`, in list order, present at position `i` of `gs`.
pub open spec fn first_match(bs: Seq<Boundary>, gs: Seq<Seq<char>>, i: int) -> Option<Boundary>
    decreases bs.len(),
{
    if bs.len() == 0 {
        None
    } else if bs[0].spec_matches(gs, i) {
        Some(bs[0])
    } else {
        first_match(bs.drop_first(), gs, i)
    }
}

/// The words of `gs` that a scan from position `i` closes, where the word
/// under way began at `last`. At a boundary the word closes where the
/// boundary starts, the boundary's graphemes are dropped (no further than the
/// end of the input), and the scan goes on after them.
pub open spec fn split_from(gs: Seq<Seq<char>>, bs: Seq<Boundary>, i: int, last: int) -> Seq<
    Seq<char>,
>
    decreases gs.len() - i,
{
    if i >= gs.len() {
        seq![concat(gs.subrange(last, gs.len() as int))]
    } else {
        match first_match(bs, gs, i) {
            Some(b) => {
                let n = gs.len() as int;
                let cut = if i + b.spec_start() > n {
                    n
                } else {
                    i + b.spec_start()
                };
                let end = if cut + b.spec_len() > n {
                    n
                } else {
                    cut + b.spec_len()
                };
                let next = if end > i + 1 {
                    end
                } else {
                    i + 1
                };
                seq![concat(gs.subrange(last, cut))] + split_from(gs, bs, next, end)
            },
            None => split_from(gs, bs, i + 1, last),
        }
    }
}

/// The words of the graphemes `gs` under the boundaries `bs`. No input gives
/// no words; otherwise empty words are kept, so that leading, trailing and
/// repeated delimiters show as empty words.
pub open spec fn split_words(gs: Seq<Seq<char>>, bs: Seq<Boundary>) -> Seq<Seq<char>> {
    if gs.len() == 0 {
        Seq::empty()
    } else {
        split_from(gs, bs, 0, 0)
    }
}

/// The first boundary of `bs` present at position `i` of `gs`.
fn first_boundary(bs: &[Boundary], gs: &[String], i: usize) -> (r: Option<Boundary>)
    ensures
        r == first_match(bs@, views(gs@), i as int),
{
    let ghost v = views(gs@);
    let mut k: usize = 0;
    assert(bs@.subrange(0, bs@.len() as int) =~= bs@);
    while k < bs.len()
        invariant
            k <= bs@.len(),
            v == views(gs@),
            first_match(bs@.subrange(k as int, bs@.len() as int), v, i as int) == first_match(
                bs@,
                v,
                i as int,
            ),
        decreases bs.len() - k,
    {
        proof {
            assert(bs@.subrange(k as int, bs@.len() as int).drop_first() =~= bs@.subrange(
                k + 1,
                bs@.len() as int,
            ));
        }
        if bs[k].matches(gs, i) {
            return Some(bs[k]);
        }
        k = k + 1;
    }
    assert(bs@.subrange(k as int, bs@.len() as int).len() == 0);
    None
}

/// Splits the graphemes `gs` into words at the boundaries `boundaries`,
/// scanning once from left to right. Where several boundaries are present at
/// one position, the first in the list wins.
pub fn split_graphemes(gs: &[String], boundaries: &[Boundary]) -> (r: Vec<String>)
    ensures
        views(r@) == split_words(views(gs@), boundaries@),
{
    let ghost v = views(gs@);
    let n = gs.len();
    let mut words: Vec<String> = Vec::new();
    if n == 0 {
        assert(views(words@) =~= Seq::empty());
        return words;
    }
    let mut i: usize = 0;
    let mut last: usize = 0;
    assert(views(words@) =~= Seq::empty());
    while i < n
        invariant
            n == gs@.len(),
            n > 0,
            v == views(gs@),
            last <= i <= n,
            views(words@) + split_from(v, boundaries@, i as int, last as int) == split_words(
                v,
                boundaries@,
            ),
        decreases n - i,
    {
        match first_boundary(boundaries, gs, i) {
            Some(b) => {
                let start = b.start();
                let len = b.len();
                let cut = if start > n - i {
                    n
                } else {
                    i + start
                };
                let end = if len > n - cut {
                    n
                } else {
                    cut + len
                };
                let next = if end > i + 1 {
                    end
                } else {
                    i + 1
                };
                let word = concat_range(gs, last, cut);
                let ghost before = views(words@);
                words.push(word);
                proof {
                    assert(views(words@) =~= before.push(word@));
                    assert(before + split_from(v, boundaries@, i as int, last as int) =~= views(
                        words@,
                    ) + split_from(v, boundaries@, next as int, end as int));
                }
                last = end;
                i = next;
            },
            None => {
                i = i + 1;
            },
        }
    }
    let word = concat_range(gs, last, n);
    let ghost before = views(words@);
    words.push(word);
    assert(views(words@) =~= before.push(word@));
    assert(views(words@) =~= before + split_from(v, boundaries@, i as int, last as int));
    words
}

/// Splits `s` into words at the boundaries `boundaries`.
pub fn split(s: &str, boundaries: &[Boundary]) -> (r: Vec<String>)
    ensures
        views(r@) == split_words(graphemes_of(s@), boundaries@),
{
    let gs = graphemes(s);
    split_graphemes(gs.as_slice(), boundaries)
}

/// Whether the boundary `b` is present anywhere in `gs`.
pub open spec fn occurs(b: Boundary, gs: Seq<Seq<char>>) -> bool {
    exists|i: int| #[trigger] b.spec_matches(gs, i)
}

/// The boundaries of `bs`, in their order, that are present in `gs`.
pub open spec fn present(bs: Seq<Boundary>, gs: Seq<Seq<char>>) -> Seq<Boundary> {
    bs.filter(|b: Boundary| occurs(b, gs))
}

/// The default boundaries, in the order in which they are tried.
pub open spec fn default_list() -> Seq<Boundary> {
    seq![
        Boundary::Underscore,
        Boundary::Hyphen,
        Boundary::Space,
        Boundary::LowerUpper,
        Boundary::LowerDigit,
        Boundary::UpperDigit,
        Boundary::DigitLower,
        Boundary::DigitUpper,
        Boundary::Acronym,
    ]
}

/// Every built-in boundary.
pub open spec fn all_list() -> Seq<Boundary> {
    seq![
        Boundary::Hyphen,
        Boundary::Underscore,
        Boundary::Space,
        Boundary::LowerUpper,
        Boundary::UpperLower,
        Boundary::LowerDigit,
        Boundary::UpperDigit,
        Boundary::DigitLower,
        Boundary::DigitUpper,
        Boundary::Acronym,
    ]
}

/// Whether `b` is present anywhere in `gs`.
fn occurs_in(b: &Boundary, gs: &[String]) -> (r: bool)
    ensures
        r == occurs(*b, views(gs@)),
{
    let mut i: usize = 0;
    while i < gs.len()
        invariant
            i <= gs@.len(),
            forall|j: int| 0 <= j < i ==> !(#[trigger] b.spec_matches(views(gs@), j)),
        decreases gs.len() - i,
    {
        if b.matches(gs, i) {
            return true;
        }
        i = i + 1;
    }
    assert forall|j: int| !(#[trigger] b.spec_matches(views(gs@), j)) by {
        if 0 <= j < i {
        }
    }
    false
}

/// The boundaries of `bs`, in their order, that are present in `s`.
fn present_in(bs: &[Boundary], s: &str) -> (r: Vec<Boundary>)
    ensures
        r@ == present(bs@, graphemes_of(s@)),
{
    let gs = graphemes(s);
    let ghost g = graphemes_of(s@);
    let mut r: Vec<Boundary> = Vec::new();
    let mut k: usize = 0;
    proof {
        reveal(Seq::filter);
        assert(bs@.subrange(0, 0) =~= Seq::<Boundary>::empty());
    }
    while k < bs.len()
        invariant
            k <= bs@.len(),
            views(gs@) == g,
            r@ == present(bs@.subrange(0, k as int), g),
        decreases bs.len() - k,
    {
        proof {
            reveal(Seq::filter);
            assert(bs@.subrange(0, k + 1).drop_last() =~= bs@.subrange(0, k as int));
        }
        if occurs_in(&bs[k], gs.as_slice()) {
            r.push(bs[k]);
        }
        k = k + 1;
    }
    assert(bs@.subrange(0, k as int) =~= bs@);
    r
}

impl Boundary {
    /// The boundaries used when no case to read from is given: the three
    /// delimiters, lowercase to uppercase, the four transitions between
    /// letters and digits, and acronyms. Uppercase to lowercase is left out:
    /// it would cut acronyms apart.
    pub fn defaults() -> (r: Vec<Boundary>)
        ensures
            r@ == default_list(),
    {
        let r = vec![
            Boundary::Underscore,
            Boundary::Hyphen,
            Boundary::Space,
            Boundary::LowerUpper,
            Boundary::LowerDigit,
            Boundary::UpperDigit,
            Boundary::DigitLower,
            Boundary::DigitUpper,
            Boundary::Acronym,
        ];
        assert(r@ =~= default_list());
        r
    }

    /// Every built-in boundary.
    pub fn all() -> (r: Vec<Boundary>)
        ensures
            r@ == all_list(),
    {
        let r = vec![
            Boundary::Hyphen,
            Boundary::Underscore,
            Boundary::Space,
            Boundary::LowerUpper,
            Boundary::UpperLower,
            Boundary::LowerDigit,
            Boundary::UpperDigit,
            Boundary::DigitLower,
            Boundary::DigitUpper,
            Boundary::Acronym,
        ];
        assert(r@ =~= all_list());
        r
    }

    /// The three delimiter boundaries.
    pub fn delims() -> (r: Vec<Boundary>)
        ensures
            r@ == seq![Boundary::Hyphen, Boundary::Underscore, Boundary::Space],
    {
        let r = vec![Boundary::Hyphen, Boundary::Underscore, Boundary::Space];
        assert(r@ =~= seq![Boundary::Hyphen, Boundary::Underscore, Boundary::Space]);
        r
    }

    /// The four boundaries between letters and digits.
    pub fn digits() -> (r: Vec<Boundary>)
        ensures
            r@ == seq![
                Boundary::LowerDigit,
                Boundary::UpperDigit,
                Boundary::DigitLower,
                Boundary::DigitUpper,
            ],
    {
        let r = vec![
            Boundary::LowerDigit,
            Boundary::UpperDigit,
            Boundary::DigitLower,
            Boundary::DigitUpper,
        ];
        assert(r@ =~= seq![
            Boundary::LowerDigit,
            Boundary::UpperDigit,
            Boundary::DigitLower,
            Boundary::DigitUpper,
        ]);
        r
    }

    /// The boundaries where a letter is followed by a digit.
    pub fn letter_digit() -> (r: Vec<Boundary>)
        ensures
            r@ == seq![Boundary::LowerDigit, Boundary::UpperDigit],
    {
        let r = vec![Boundary::LowerDigit, Boundary::UpperDigit];
        assert(r@ =~= seq![Boundary::LowerDigit, Boundary::UpperDigit]);
        r
    }

    /// The boundaries where a digit is followed by a letter.
    pub fn digit_letter() -> (r: Vec<Boundary>)
        ensures
            r@ == seq![Boundary::DigitLower, Boundary::DigitUpper],
    {
        let r = vec![Boundary::DigitLower, Boundary::DigitUpper];
        assert(r@ =~= seq![Boundary::DigitLower, Boundary::DigitUpper]);
        r
    }

    /// The default boundaries, in their order, that are present in `pattern`.
    pub fn defaults_from(pattern: &str) -> (r: Vec<Boundary>)
        ensures
            r@ == present(default_list(), graphemes_of(pattern@)),
    {
        let d = Boundary::defaults();
        present_in(d.as_slice(), pattern)
    }

    /// All the built-in boundaries, in their order, that are present in `s`.
    pub fn list_from(s: &str) -> (r: Vec<Boundary>)
        ensures
            r@ == present(all_list(), graphemes_of(s@)),
    {
        let a = Boundary::all();
        present_in(a.as_slice(), s)
    }
}

impl Boundary {
    /// A short sample of text in which the boundary is present: `aA` for
    /// lowercase to uppercase, `1a` for a digit then a lowercase letter, the
    /// delimiter itself for a delimiter.
    pub open spec fn spec_shortcode(self) -> Seq<char> {
        match self {
            Boundary::Hyphen => "-"@,
            Boundary::Underscore => "_"@,
            Boundary::Space => " "@,
            Boundary::UpperLower => "Aa"@,
            Boundary::LowerUpper => "aA"@,
            Boundary::DigitUpper => "1A"@,
            Boundary::UpperDigit => "A1"@,
            Boundary::DigitLower => "1a"@,
            Boundary::LowerDigit => "a1"@,
            Boundary::Acronym => "AAa"@,
            Boundary::Delimiter(d) => d@,
        }
    }

    /// A short sample of text in which the boundary is present.
    pub fn shortcode(&self) -> (r: &'static str)
        ensures
            r@ == self.spec_shortcode(),
    {
        match self {
            Boundary::Hyphen => "-",
            Boundary::Underscore => "_",
            Boundary::Space => " ",
            Boundary::UpperLower => "Aa",
            Boundary::LowerUpper => "aA",
            Boundary::DigitUpper => "1A",
            Boundary::UpperDigit => "A1",
            Boundary::DigitLower => "1a",
            Boundary::LowerDigit => "a1",
            Boundary::Acronym => "AAa",
            Boundary::Delimiter(d) => d,
        }
    }
}

} // verus!
