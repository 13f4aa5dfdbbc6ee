//! Named cases: a boundary list to read by, a pattern and a delimiter to
//! write with.
use crate::boundary::{split, split_words, Boundary};
use crate::casing::{to_case_of, to_case_str};
use crate::pattern::Pattern;
use crate::text::{graphemes_of, join_with, join_words, views};
use vstd::prelude::*;

verus! {

/// A naming convention for identifiers.
///
/// | pattern | `_` | `-` | no delimiter | space |
/// | --- | --- | --- | --- | --- |
/// | lowercase | `Snake` | `Kebab` | `Flat` | `Lower` |
/// | uppercase | `Constant` | `Cobol` | `UpperFlat` | `Upper` |
/// | capital | `Ada` | `Train` | `Pascal` | `Title` |
/// | camel | | | `Camel` | |
///
/// `Sentence`, `Alternating` and `Toggle` are joined with spaces. Some names
/// stand for the same case: `UpperSnake` and `ScreamingSnake` for
/// `Constant`, `UpperKebab` for `Cobol`, `UpperCamel` for `Pascal`.
#[derive(Debug, Clone, Copy, PartialEq, Eq, Hash, Structural)]
pub enum Case {
    Snake,
    Constant,
    UpperSnake,
    ScreamingSnake,
    Ada,
    Kebab,
    Cobol,
    UpperKebab,
    Train,
    Flat,
    UpperFlat,
    Pascal,
    UpperCamel,
    Camel,
    Lower,
    Upper,
    Title,
    Sentence,
    Alternating,
    Toggle,
}

/// The boundaries of the cases that join words without a delimiter.
pub open spec fn transition_list() -> Seq<Boundary> {
    seq![
        Boundary::LowerUpper,
        Boundary::Acronym,
        Boundary::LowerDigit,
        Boundary::UpperDigit,
        Boundary::DigitLower,
        Boundary::DigitUpper,
    ]
}

impl Case {
    /// The boundaries that split an identifier of this case into words.
    pub open spec fn spec_boundaries(self) -> Seq<Boundary> {
        match self {
            Case::Snake | Case::Constant | Case::UpperSnake | Case::ScreamingSnake | Case::Ada => seq![
                Boundary::Underscore,
            ],
            Case::Kebab | Case::Cobol | Case::UpperKebab | Case::Train => seq![Boundary::Hyphen],
            Case::Lower | Case::Upper | Case::Title | Case::Sentence | Case::Alternating
            | Case::Toggle => seq![Boundary::Space],
            Case::Pascal | Case::UpperCamel | Case::Camel => transition_list(),
            Case::Flat | Case::UpperFlat => Seq::empty(),
        }
    }

    /// The string that joins the words of this case.
    pub open spec fn spec_delim(self) -> Seq<char> {
        match self {
            Case::Snake | Case::Constant | Case::UpperSnake | Case::ScreamingSnake | Case::Ada => seq![
                '_',
            ],
            Case::Kebab | Case::Cobol | Case::UpperKebab | Case::Train => seq!['-'],
            Case::Lower | Case::Upper | Case::Title | Case::Sentence | Case::Alternating
            | Case::Toggle => seq![' '],
            Case::Pascal | Case::UpperCamel | Case::Camel | Case::Flat | Case::UpperFlat => Seq::empty(),
        }
    }

    /// The pattern that re-cases the words of this case.
    pub open spec fn spec_pattern(self) -> Pattern {
        match self {
            Case::Snake | Case::Kebab | Case::Flat | Case::Lower => Pattern::Lowercase,
            Case::Constant | Case::UpperSnake | Case::ScreamingSnake | Case::Cobol
            | Case::UpperKebab | Case::UpperFlat | Case::Upper => Pattern::Uppercase,
            Case::Ada | Case::Train | Case::Pascal | Case::UpperCamel | Case::Title => Pattern::Capital,
            Case::Camel => Pattern::Camel,
            Case::Sentence => Pattern::Sentence,
            Case::Alternating => Pattern::Alternating,
            Case::Toggle => Pattern::Toggle,
        }
    }

    /// The boundaries that split an identifier of this case into words.
    pub fn boundaries(&self) -> (r: Vec<Boundary>)
        ensures
            r@ == self.spec_boundaries(),
    {
        let r = match self {
            Case::Snake | Case::Constant | Case::UpperSnake | Case::ScreamingSnake | Case::Ada => vec![
                Boundary::Underscore,
            ],
            Case::Kebab | Case::Cobol | Case::UpperKebab | Case::Train => vec![Boundary::Hyphen],
            Case::Lower | Case::Upper | Case::Title | Case::Sentence | Case::Alternating
            | Case::Toggle => vec![Boundary::Space],
            Case::Pascal | Case::UpperCamel | Case::Camel => vec![
                Boundary::LowerUpper,
                Boundary::Acronym,
                Boundary::LowerDigit,
                Boundary::UpperDigit,
                Boundary::DigitLower,
                Boundary::DigitUpper,
            ],
            Case::Flat | Case::UpperFlat => Vec::new(),
        };
        assert(r@ =~= self.spec_boundaries());
        r
    }

    /// The string that joins the words of this case.
    pub fn delim(&self) -> (r: &'static str)
        ensures
            r@ == self.spec_delim(),
    {
        proof {
            reveal_strlit("_");
            reveal_strlit("-");
            reveal_strlit(" ");
            reveal_strlit("");
        }
        match self {
            Case::Snake | Case::Constant | Case::UpperSnake | Case::ScreamingSnake | Case::Ada => "_",
            Case::Kebab | Case::Cobol | Case::UpperKebab | Case::Train => "-",
            Case::Lower | Case::Upper | Case::Title | Case::Sentence | Case::Alternating
            | Case::Toggle => " ",
            Case::Pascal | Case::UpperCamel | Case::Camel | Case::Flat | Case::UpperFlat => "",
        }
    }

    /// The pattern that re-cases the words of this case.
    pub fn pattern(&self) -> (r: Pattern)
        ensures
            r == self.spec_pattern(),
    {
        match self {
            Case::Snake | Case::Kebab | Case::Flat | Case::Lower => Pattern::Lowercase,
            Case::Constant | Case::UpperSnake | Case::ScreamingSnake | Case::Cobol
            | Case::UpperKebab | Case::UpperFlat | Case::Upper => Pattern::Uppercase,
            Case::Ada | Case::Train | Case::Pascal | Case::UpperCamel | Case::Title => Pattern::Capital,
            Case::Camel => Pattern::Camel,
            Case::Sentence => Pattern::Sentence,
            Case::Alternating => Pattern::Alternating,
            Case::Toggle => Pattern::Toggle,
        }
    }

    /// Splits `s` into words at the boundaries of this case.
    pub fn split(self, s: &str) -> (r: Vec<String>)
        ensures
            views(r@) == split_words(graphemes_of(s@), self.spec_boundaries()),
    {
        let bs = self.boundaries();
        split(s, bs.as_slice())
    }

    /// Re-cases `words` by the pattern of this case.
    pub fn mutate(self, words: &[String]) -> (r: Vec<String>)
        ensures
            views(r@) == self.spec_pattern().spec_mutate(views(words@)),
    {
        self.pattern().mutate(words)
    }

    /// Joins `words` with the delimiter of this case.
    pub fn join(self, words: &[String]) -> (r: String)
        ensures
            r@ == join_words(views(words@), self.spec_delim()),
    {
        join_with(words, self.delim())
    }

    /// The cases under their main names, one for each convention.
    pub fn all_cases() -> (r: Vec<Case>)
        ensures
            r@ == main_cases(),
    {
        let r = vec![
            Case::Snake,
            Case::Constant,
            Case::Ada,
            Case::Kebab,
            Case::Cobol,
            Case::Train,
            Case::Flat,
            Case::UpperFlat,
            Case::Pascal,
            Case::Camel,
            Case::Upper,
            Case::Lower,
            Case::Title,
            Case::Sentence,
            Case::Alternating,
            Case::Toggle,
        ];
        assert(r@ =~= main_cases());
        r
    }

    /// The cases whose conversion depends on the input alone: all of them.
    pub fn deterministic_cases() -> (r: Vec<Case>)
        ensures
            r@ == main_cases(),
    {
        Case::all_cases()
    }
}

/// The cases under their main names.
pub open spec fn main_cases() -> Seq<Case> {
    seq![
        Case::Snake,
        Case::Constant,
        Case::Ada,
        Case::Kebab,
        Case::Cobol,
        Case::Train,
        Case::Flat,
        Case::UpperFlat,
        Case::Pascal,
        Case::Camel,
        Case::Upper,
        Case::Lower,
        Case::Title,
        Case::Sentence,
        Case::Alternating,
        Case::Toggle,
    ]
}

/// Every case, aliases included.
pub open spec fn every_case() -> Seq<Case> {
    seq![
        Case::Snake,
        Case::Constant,
        Case::UpperSnake,
        Case::ScreamingSnake,
        Case::Ada,
        Case::Kebab,
        Case::Cobol,
        Case::UpperKebab,
        Case::Train,
        Case::Flat,
        Case::UpperFlat,
        Case::Pascal,
        Case::UpperCamel,
        Case::Camel,
        Case::Lower,
        Case::Upper,
        Case::Title,
        Case::Sentence,
        Case::Alternating,
        Case::Toggle,
    ]
}

/// The first case of `cases` whose name is `key`.
pub open spec fn first_named(cases: Seq<Case>, key: Seq<char>) -> Option<Case>
    decreases cases.len(),
{
    if cases.len() == 0 {
        None
    } else if cases[0].spec_name() == key {
        Some(cases[0])
    } else {
        first_named(cases.drop_first(), key)
    }
}

/// The case that the flat name `key` stands for: a case's name, or one of
/// the short names `screaming` and `alternate`.
pub open spec fn case_named(key: Seq<char>) -> Option<Case> {
    match first_named(every_case(), key) {
        Some(c) => Some(c),
        None => if key == "screaming"@ {
            Some(Case::ScreamingSnake)
        } else if key == "alternate"@ {
            Some(Case::Alternating)
        } else {
            None
        },
    }
}

impl Case {
    /// The name of the case, in flat case.
    pub open spec fn spec_name(self) -> Seq<char> {
        match self {
            Case::Snake => "snake"@,
            Case::Constant => "constant"@,
            Case::UpperSnake => "uppersnake"@,
            Case::ScreamingSnake => "screamingsnake"@,
            Case::Ada => "ada"@,
            Case::Kebab => "kebab"@,
            Case::Cobol => "cobol"@,
            Case::UpperKebab => "upperkebab"@,
            Case::Train => "train"@,
            Case::Flat => "flat"@,
            Case::UpperFlat => "upperflat"@,
            Case::Pascal => "pascal"@,
            Case::UpperCamel => "uppercamel"@,
            Case::Camel => "camel"@,
            Case::Lower => "lower"@,
            Case::Upper => "upper"@,
            Case::Title => "title"@,
            Case::Sentence => "sentence"@,
            Case::Alternating => "alternating"@,
            Case::Toggle => "toggle"@,
        }
    }

    /// The name of the case, in flat case.
    pub fn name(&self) -> (r: &'static str)
        ensures
            r@ == self.spec_name(),
    {
        match self {
            Case::Snake => "snake",
            Case::Constant => "constant",
            Case::UpperSnake => "uppersnake",
            Case::ScreamingSnake => "screamingsnake",
            Case::Ada => "ada",
            Case::Kebab => "kebab",
            Case::Cobol => "cobol",
            Case::UpperKebab => "upperkebab",
            Case::Train => "train",
            Case::Flat => "flat",
            Case::UpperFlat => "upperflat",
            Case::Pascal => "pascal",
            Case::UpperCamel => "uppercamel",
            Case::Camel => "camel",
            Case::Lower => "lower",
            Case::Upper => "upper",
            Case::Title => "title",
            Case::Sentence => "sentence",
            Case::Alternating => "alternating",
            Case::Toggle => "toggle",
        }
    }

    /// The case that `name` stands for, in whatever case `name` is written:
    /// `name` in flat case is the name of a case or one of the short names
    /// `screaming` and `alternate`. `None` when it is neither.
    pub fn from_name(name: &str) -> (r: Option<Case>)
        ensures
            r == case_named(to_case_of(name@, Case::Flat)),
    {
        let key = to_case_str(name, Case::Flat);
        let cases = vec![
            Case::Snake,
            Case::Constant,
            Case::UpperSnake,
            Case::ScreamingSnake,
            Case::Ada,
            Case::Kebab,
            Case::Cobol,
            Case::UpperKebab,
            Case::Train,
            Case::Flat,
            Case::UpperFlat,
            Case::Pascal,
            Case::UpperCamel,
            Case::Camel,
            Case::Lower,
            Case::Upper,
            Case::Title,
            Case::Sentence,
            Case::Alternating,
            Case::Toggle,
        ];
        assert(cases@ =~= every_case());
        let mut k: usize = 0;
        assert(cases@.subrange(0, cases@.len() as int) =~= cases@);
        while k < cases.len()
            invariant
                k <= cases@.len(),
                cases@ == every_case(),
                key@ == to_case_of(name@, Case::Flat),
                first_named(cases@.subrange(k as int, cases@.len() as int), key@) == first_named(
                    every_case(),
                    key@,
                ),
            decreases cases.len() - k,
        {
            assert(cases@.subrange(k as int, cases@.len() as int).drop_first() =~= cases@.subrange(
                k + 1,
                cases@.len() as int,
            ));
            if key == cases[k].name().to_owned() {
                assert(cases@.subrange(k as int, cases@.len() as int)[0] == cases@[k as int]);
                return Some(cases[k]);
            }
            k = k + 1;
        }
        assert(cases@.subrange(k as int, cases@.len() as int).len() == 0);
        if key == "screaming".to_owned() {
            Some(Case::ScreamingSnake)
        } else if key == "alternate".to_owned() {
            Some(Case::Alternating)
        } else {
            None
        }
    }
}

impl Case {
    /// The short name that also stands for the case, if it has one.
    pub open spec fn spec_short_name(self) -> Option<Seq<char>> {
        match self {
            Case::ScreamingSnake => Some("screaming"@),
            Case::Alternating => Some("alternate"@),
            _ => None,
        }
    }

    /// The short name that also stands for the case, if it has one.
    pub fn short_name(&self) -> (r: Option<&'static str>)
        ensures
            r matches Some(n) ==> self.spec_short_name() == Some(n@),
            r is None ==> self.spec_short_name() is None,
    {
        match self {
            Case::ScreamingSnake => Some("screaming"),
            Case::Alternating => Some("alternate"),
            _ => None,
        }
    }

    /// The main case that this name is another name for.
    pub open spec fn spec_alias_of(self) -> Option<Case> {
        match self {
            Case::UpperSnake | Case::ScreamingSnake => Some(Case::Constant),
            Case::UpperKebab => Some(Case::Cobol),
            Case::UpperCamel => Some(Case::Pascal),
            _ => None,
        }
    }

    /// The main case that this name is another name for, if it is an alias.
    /// An alias splits, re-cases and joins exactly as its main case does.
    pub fn is_alias(&self) -> (r: Option<Case>)
        ensures
            r == self.spec_alias_of(),
            r matches Some(c) ==> c.spec_boundaries() == self.spec_boundaries()
                && c.spec_pattern() == self.spec_pattern() && c.spec_delim() == self.spec_delim(),
    {
        match self {
            Case::UpperSnake | Case::ScreamingSnake => Some(Case::Constant),
            Case::UpperKebab => Some(Case::Cobol),
            Case::UpperCamel => Some(Case::Pascal),
            _ => None,
        }
    }
}

} // verus!
