use convert_case::{
    grapheme_is_digit, grapheme_is_lowercase, grapheme_is_uppercase, split, split_graphemes,
    Boundary,
};

#[test]
fn hyphen() {
    let s = "a-b-c";
    let v = split(&s, &[Boundary::Hyphen]);
    assert_eq!(v, vec!["a", "b", "c"]);
}

#[test]
fn underscore() {
    let s = "a_b_c";
    let v = split(&s, &[Boundary::Underscore]);
    assert_eq!(v, vec!["a", "b", "c"]);
}

#[test]
fn space() {
    let s = "a b c";
    let v = split(&s, &[Boundary::Space]);
    assert_eq!(v, vec!["a", "b", "c"]);
}

#[test]
fn delimiters() {
    let s = "aaa-bbb_ccc ddd ddd-eee";
    let v = split(
        &s,
        &[Boundary::Space, Boundary::Underscore, Boundary::Hyphen],
    );
    assert_eq!(v, vec!["aaa", "bbb", "ccc", "ddd", "ddd", "eee"]);
}

#[test]
fn lower_upper() {
    let s = "lowerUpperUpper";
    let v = split(&s, &[Boundary::LowerUpper]);
    assert_eq!(v, vec!["lower", "Upper", "Upper"]);
}

#[test]
fn acronym() {
    let s = "XMLRequest";
    let v = split(&s, &[Boundary::Acronym]);
    assert_eq!(v, vec!["XML", "Request"]);
}

#[test]
fn boundary_boundaries_found_in_string() {
    assert_eq!(Vec::<Boundary>::new(), Boundary::defaults_from(".Aaaa"));
    assert_eq!(
        vec![Boundary::LowerUpper, Boundary::LowerDigit],
        Boundary::defaults_from("a8.Aa.aA")
    );
    assert_eq!(
        Boundary::digits().to_vec(),
        Boundary::defaults_from("b1B1b")
    );
    assert_eq!(
        vec![
            Boundary::Underscore,
            Boundary::Hyphen,
            Boundary::Space,
            Boundary::Acronym,
        ],
        Boundary::defaults_from("AAa -_")
    );
}

#[test]
fn boundary_consts_same() {
    assert_eq!(Boundary::Space, Boundary::Space);
}

#[test]
fn from_delim_dot() {
    let boundary = Boundary::from_delim(".");
    let s = "lower.Upper.Upper";
    let v = split(&s, &[boundary]);
    assert_eq!(vec!["lower", "Upper", "Upper"], v)
}

#[test]
fn from_delim_double_colon() {
    let boundary = Boundary::from_delim("::");
    let s = "lower::lowerUpper::Upper";
    let v = split(&s, &[boundary]);
    assert_eq!(vec!["lower", "lowerUpper", "Upper"], v)
}

#[test]
fn all_boundaries_in_iter() {
    let all = Boundary::all();
    let every = [
        Boundary::Hyphen,
        Boundary::Underscore,
        Boundary::Space,
        Boundary::UpperLower,
        Boundary::LowerUpper,
        Boundary::DigitUpper,
        Boundary::UpperDigit,
        Boundary::DigitLower,
        Boundary::LowerDigit,
        Boundary::Acronym,
    ];
    for boundary in every {
        assert!(all.contains(&boundary));
    }
}

#[test]
fn split_on_delims() {
    assert_eq!(
        vec!["my", "word", "list", "separated", "by", "delims"],
        split("my_word-list separated-by_delims", &Boundary::delims())
    )
}

#[test]
fn segmentation_boundaries_found_in_string() {
    assert_eq!(
        vec![Boundary::LowerUpper, Boundary::UpperLower, Boundary::LowerDigit],
        Boundary::list_from("a8.Aa.aA")
    );
    assert_eq!(Boundary::digits(), Boundary::list_from("b1B1b"));
    assert_eq!(
        vec![Boundary::Hyphen, Boundary::Underscore, Boundary::Space, Boundary::Acronym],
        Boundary::list_from("AAa -_")
    );
}

#[test]
fn separator_custom_delimiters() {
    let dot = Boundary::from_delim(".");
    assert_eq!(
        split(&"lower.Upper.Upper", &[dot]),
        vec!["lower", "Upper", "Upper"]
    );

    let double_colon = Boundary::from_delim("::");
    assert_eq!(
        split(&"lower::lowerUpper::Upper", &[double_colon]),
        vec!["lower", "lowerUpper", "Upper"]
    );
}

#[test]
fn grapheme_classes() {
    assert!(grapheme_is_uppercase("A"));
    assert!(!grapheme_is_uppercase("a"));
    assert!(!grapheme_is_uppercase("1"));
    assert!(grapheme_is_lowercase("e\u{301}"));
    assert!(!grapheme_is_lowercase("-"));
    assert!(grapheme_is_digit("7"));
    assert!(!grapheme_is_digit("x"));
    assert!(!grapheme_is_digit("٣"));
}

#[test]
fn boundary_shape() {
    assert_eq!(1, Boundary::Hyphen.len());
    assert_eq!(0, Boundary::Hyphen.start());
    assert_eq!(0, Boundary::Acronym.len());
    assert_eq!(1, Boundary::Acronym.start());
    assert_eq!(2, Boundary::from_delim("::").len());
    assert_eq!(0, Boundary::from_delim("::").start());
    assert!(Boundary::from_delim("::").is_same(&Boundary::from_delim("::")));
    assert!(!Boundary::from_delim("::").is_same(&Boundary::from_delim(".")));
    assert!(!Boundary::Space.is_same(&Boundary::Hyphen));
}

#[test]
fn boundary_matches_at_position() {
    let gs: Vec<String> = ["H", "T", "T", "P", "R", "e", "q"]
        .iter()
        .map(|g| g.to_string())
        .collect();
    assert!(Boundary::Acronym.matches(&gs, 3));
    assert!(!Boundary::Acronym.matches(&gs, 2));
    // Inside an acronym, uppercase to lowercase does not fire.
    assert!(!Boundary::UpperLower.matches(&gs, 4));
    let gs: Vec<String> = ["x", "R", "e"].iter().map(|g| g.to_string()).collect();
    assert!(Boundary::UpperLower.matches(&gs, 1));
    assert!(!Boundary::UpperLower.matches(&gs, 7));
}

#[test]
fn split_keeps_empty_words() {
    assert_eq!(vec!["", "a", "", "b", ""], split("_a__b_", &[Boundary::Underscore]));
    assert_eq!(vec!["", ""], split("-", &[Boundary::Hyphen]));
    assert_eq!(Vec::<String>::new(), split("", &Boundary::defaults()));
    assert_eq!(vec!["x"], split("x", &Boundary::all()));
}

#[test]
fn split_given_graphemes() {
    let gs: Vec<String> = ["a", "-", "b", "C"].iter().map(|g| g.to_string()).collect();
    assert_eq!(vec!["a", "b", "C"], split_graphemes(&gs, &[Boundary::Hyphen, Boundary::LowerUpper]));
    assert_eq!(vec!["a-b", "C"], split_graphemes(&gs, &[Boundary::LowerUpper]));
}

#[test]
fn upper_lower_outside_acronyms() {
    assert_eq!(vec!["HTTP", "Request"], split("HTTPRequest", &[Boundary::Acronym, Boundary::UpperLower]));
    assert_eq!(vec!["aB", "c"], split("aBc", &[Boundary::UpperLower]));
}

#[test]
fn defaults_found_in_patterns() {
    assert_eq!(
        vec![
            Boundary::Hyphen,
            Boundary::Space,
            Boundary::LowerUpper,
            Boundary::UpperDigit,
            Boundary::DigitLower,
        ],
        Boundary::defaults_from("aA8a -")
    );
    assert_eq!(
        vec![
            Boundary::Underscore,
            Boundary::LowerUpper,
            Boundary::DigitUpper,
            Boundary::Acronym,
        ],
        Boundary::defaults_from("bD:0B:_:AAa")
    );
    assert_eq!(vec![Boundary::Hyphen], Boundary::defaults_from("-"));
    assert_eq!(Vec::<Boundary>::new(), Boundary::defaults_from("Aa"));
}

#[test]
fn boundary_groups() {
    assert_eq!(vec![Boundary::LowerDigit, Boundary::UpperDigit], Boundary::letter_digit());
    assert_eq!(vec![Boundary::DigitLower, Boundary::DigitUpper], Boundary::digit_letter());
    assert_eq!(9, Boundary::defaults().len());
    assert_eq!(10, Boundary::all().len());
}

#[test]
fn shortcodes_show_their_boundary() {
    assert_eq!("aA", Boundary::LowerUpper.shortcode());
    assert_eq!("AAa", Boundary::Acronym.shortcode());
    assert_eq!("::", Boundary::from_delim("::").shortcode());
    for b in Boundary::all() {
        assert_eq!(vec![b], Boundary::list_from(b.shortcode()));
    }
}
