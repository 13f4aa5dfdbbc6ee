//! Families of cases, by how they mark the words of an identifier.
use crate::case::Case;
use vstd::prelude::*;

verus! {

/// How a family of cases marks where one word ends and the next begins.
#[derive(Debug, Clone, Copy, PartialEq, Eq, Hash, Structural)]
pub enum CaseKind {
    SpaceDelim,
    UnderscoreDelim,
    NoDelim,
    HyphenDelim,
    CapitalDelim,
    Random,
}

impl CaseKind {
    /// The family that `c` belongs to.
    pub open spec fn spec_from_case(c: Case) -> CaseKind {
        match c {
            Case::Upper | Case::Lower | Case::Title | Case::Sentence | Case::Toggle
            | Case::Alternating => CaseKind::SpaceDelim,
            Case::Snake | Case::Constant | Case::UpperSnake | Case::ScreamingSnake | Case::Ada => CaseKind::UnderscoreDelim,
            Case::Kebab | Case::Cobol | Case::UpperKebab | Case::Train => CaseKind::HyphenDelim,
            Case::Flat | Case::UpperFlat => CaseKind::NoDelim,
            Case::Camel | Case::UpperCamel | Case::Pascal => CaseKind::CapitalDelim,
        }
    }

    /// The family that `c` belongs to.
    pub fn from_case(c: Case) -> (r: CaseKind)
        ensures
            r == CaseKind::spec_from_case(c),
    {
        match c {
            Case::Upper | Case::Lower | Case::Title | Case::Sentence | Case::Toggle
            | Case::Alternating => CaseKind::SpaceDelim,
            Case::Snake | Case::Constant | Case::UpperSnake | Case::ScreamingSnake | Case::Ada => CaseKind::UnderscoreDelim,
            Case::Kebab | Case::Cobol | Case::UpperKebab | Case::Train => CaseKind::HyphenDelim,
            Case::Flat | Case::UpperFlat => CaseKind::NoDelim,
            Case::Camel | Case::UpperCamel | Case::Pascal => CaseKind::CapitalDelim,
        }
    }

    /// Every family, in the order in which they are listed.
    pub fn all_kinds() -> (r: Vec<CaseKind>)
        ensures
            r@ == seq![
                CaseKind::SpaceDelim,
                CaseKind::CapitalDelim,
                CaseKind::UnderscoreDelim,
                CaseKind::HyphenDelim,
                CaseKind::NoDelim,
                CaseKind::Random,
            ],
    {
        let r = vec![
            CaseKind::SpaceDelim,
            CaseKind::CapitalDelim,
            CaseKind::UnderscoreDelim,
            CaseKind::HyphenDelim,
            CaseKind::NoDelim,
            CaseKind::Random,
        ];
        assert(r@ =~= seq![
            CaseKind::SpaceDelim,
            CaseKind::CapitalDelim,
            CaseKind::UnderscoreDelim,
            CaseKind::HyphenDelim,
            CaseKind::NoDelim,
            CaseKind::Random,
        ]);
        r
    }

    /// The title of the family.
    pub open spec fn spec_name(self) -> Seq<char> {
        match self {
            CaseKind::SpaceDelim => "Space Delimited"@,
            CaseKind::UnderscoreDelim => "Underscore Delimited"@,
            CaseKind::NoDelim => "No Delimiter"@,
            CaseKind::HyphenDelim => "Hyphen Delimited"@,
            CaseKind::CapitalDelim => "Capitalization Boundaries"@,
            CaseKind::Random => "Random Capitalization"@,
        }
    }

    /// The title of the family.
    pub fn name(&self) -> (r: &'static str)
        ensures
            r@ == self.spec_name(),
    {
        match self {
            CaseKind::SpaceDelim => "Space Delimited",
            CaseKind::UnderscoreDelim => "Underscore Delimited",
            CaseKind::NoDelim => "No Delimiter",
            CaseKind::HyphenDelim => "Hyphen Delimited",
            CaseKind::CapitalDelim => "Capitalization Boundaries",
            CaseKind::Random => "Random Capitalization",
        }
    }
}

} // verus!
