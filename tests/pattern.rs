use convert_case::{capital_word, toggle_word, CaseKind, Pattern};

fn words(ws: &[&str]) -> Vec<String> {
    ws.iter().map(|w| w.to_string()).collect()
}

#[test]
fn mutate_empty_strings() {
    assert_eq!(String::new(), capital_word(""));
    assert_eq!(String::new(), toggle_word(""));
    for p in [Pattern::Lowercase, Pattern::Uppercase] {
        assert_eq!(vec![String::new()], p.mutate(&words(&[""])));
    }
}

#[test]
fn word_patterns() {
    assert_eq!("Hello", capital_word("hELLO"));
    assert_eq!("hELLO", toggle_word("Hello"));
    assert_eq!("SSa", capital_word("ßA"));
}

#[test]
fn each_pattern_on_words() {
    let ws = words(&["one", "TWO", "", "thRee"]);
    assert_eq!(words(&["one", "TWO", "", "thRee"]), Pattern::Noop.mutate(&ws));
    assert_eq!(words(&["one", "two", "", "three"]), Pattern::Lowercase.mutate(&ws));
    assert_eq!(words(&["ONE", "TWO", "", "THREE"]), Pattern::Uppercase.mutate(&ws));
    assert_eq!(words(&["One", "Two", "", "Three"]), Pattern::Capital.mutate(&ws));
    assert_eq!(words(&["one", "Two", "", "Three"]), Pattern::Camel.mutate(&ws));
    assert_eq!(words(&["One", "two", "", "three"]), Pattern::Sentence.mutate(&ws));
    assert_eq!(words(&["oNE", "tWO", "", "tHREE"]), Pattern::Toggle.mutate(&ws));
    assert_eq!(words(&["oNe", "TwO", "", "tHrEe"]), Pattern::Alternating.mutate(&ws));
    assert_eq!(words(&["one", "TWO", "thRee"]), Pattern::RemoveEmpty.mutate(&ws));
}

#[test]
fn all_kinds_in_iter() {
    let every = [
        CaseKind::SpaceDelim,
        CaseKind::UnderscoreDelim,
        CaseKind::NoDelim,
        CaseKind::HyphenDelim,
        CaseKind::CapitalDelim,
        CaseKind::Random,
    ];
    for kind in every {
        assert!(CaseKind::all_kinds().contains(&kind));
    }
}

#[test]
fn kind_names() {
    assert_eq!("Space Delimited", CaseKind::SpaceDelim.name());
    assert_eq!("Capitalization Boundaries", CaseKind::CapitalDelim.name());
    assert_eq!(
        CaseKind::UnderscoreDelim,
        CaseKind::from_case(convert_case::Case::Ada)
    );
}
