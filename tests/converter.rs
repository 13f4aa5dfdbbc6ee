use convert_case::{Boundary, Case, Casing, Converter, Pattern};

#[test]
fn snake_converter_from_case() {
    let conv = Converter::new().to_case(Case::Snake);
    let s = String::from("my var name");
    assert_eq!(s.to_case(Case::Snake), conv.convert(&s));
}

#[test]
fn snake_converter_from_scratch() {
    let conv = Converter::new()
        .set_delim("_")
        .set_pattern(Pattern::Lowercase);
    let s = String::from("my var name");
    assert_eq!(s.to_case(Case::Snake), conv.convert(&s));
}

#[test]
fn custom_pattern() {
    let conv = Converter::new()
        .to_case(Case::Snake)
        .set_pattern(Pattern::Sentence);
    assert_eq!("Bjarne_case", conv.convert("bjarne case"));
}

#[test]
fn custom_delim() {
    let conv = Converter::new().set_delim("..");
    assert_eq!("oh..My", conv.convert("ohMy"));
}

#[test]
fn no_pattern() {
    let conv = Converter::new()
        .from_case(Case::Title)
        .to_case(Case::Kebab)
        .remove_pattern();
    assert_eq!("wIErd-CASing", conv.convert("wIErd CASing"));
}

#[test]
fn no_delim() {
    let conv = Converter::new()
        .from_case(Case::Title)
        .to_case(Case::Kebab)
        .remove_delim();
    assert_eq!("justflat", conv.convert("Just Flat"));
}

#[test]
fn no_digit_boundaries() {
    let conv = Converter::new()
        .remove_boundaries(&Boundary::digits())
        .to_case(Case::Snake);
    assert_eq!("test_08bound", conv.convert("Test 08Bound"));
    assert_eq!("a8a_a8a", conv.convert("a8aA8A"));
}

#[test]
fn add_boundary() {
    let conv = Converter::new()
        .from_case(Case::Snake)
        .to_case(Case::Kebab)
        .add_boundary(Boundary::LowerUpper);
    assert_eq!("word-word-word", conv.convert("word_wordWord"));
}

#[test]
fn reuse_after_change() {
    let conv = Converter::new()
        .from_case(Case::Snake)
        .to_case(Case::Kebab);
    assert_eq!("word-wordword", conv.convert("word_wordWord"));

    let conv = conv.add_boundary(Boundary::LowerUpper);
    assert_eq!("word-word-word", conv.convert("word_wordWord"));
}

#[test]
fn explicit_boundaries() {
    let conv = Converter::new()
        .set_boundaries(&[Boundary::DigitLower, Boundary::DigitUpper, Boundary::Acronym])
        .to_case(Case::Snake);
    assert_eq!(
        "section8_lesson2_http_requests",
        conv.convert("section8lesson2HTTPRequests")
    );
}

#[test]
fn filtering_with_custom() {
    let conv = Converter::new()
        .from_case(Case::Kebab)
        .set_pattern(Pattern::RemoveEmpty)
        .add_pattern(Pattern::Camel);
    assert_eq!(conv.convert("--leading-delims"), "leadingDelims");
}

#[test]
fn remove_empty_before_case() {
    let conv = Converter::new()
        .from_case(Case::Kebab)
        .remove_empty()
        .to_case(Case::Camel);
    assert_eq!("leadingDelims", conv.convert("--leading-delims"));
}

#[test]
fn empty_words_are_kept() {
    assert_eq!(
        "__weird__var__name_",
        "__weird--var _name-".to_case(Case::Snake)
    );
    let conv = Converter::new().remove_empty().to_case(Case::Snake);
    assert_eq!("weird_var_name", conv.convert("__weird--var _name-"));
}

#[test]
fn remove_one_boundary() {
    let conv = Converter::new()
        .remove_boundary(Boundary::Hyphen)
        .to_case(Case::Snake);
    assert_eq!("my-var_name", conv.convert("my-var name"));
}

#[test]
fn add_several_boundaries() {
    let conv = Converter::new()
        .set_boundaries(&[])
        .add_boundaries(&[Boundary::Hyphen, Boundary::from_delim(".")])
        .to_case(Case::Title);
    assert_eq!("My Var Name_x", conv.convert("my-var.name_x"));
}

#[test]
fn custom_delimiter_at_the_end_keeps_an_empty_word() {
    let conv = Converter::new()
        .set_boundaries(&[Boundary::from_delim("::")])
        .set_delim("+");
    assert_eq!("a+b+", conv.convert("a::b::"));
}

#[test]
fn default_converter_is_new() {
    let conv = Converter::default();
    assert_eq!("ab", conv.convert("a-b"));
}

#[test]
fn boundaries_are_kept_once() {
    let conv = Converter::new()
        .from_case(Case::Snake)
        .add_boundary(Boundary::Underscore)
        .add_boundary(Boundary::Hyphen)
        .add_boundaries(&[Boundary::Hyphen, Boundary::Space, Boundary::Space]);
    assert_eq!(
        &[Boundary::Underscore, Boundary::Hyphen, Boundary::Space],
        conv.boundaries()
    );
    let conv = conv.set_boundaries(&[
        Boundary::from_delim("::"),
        Boundary::Acronym,
        Boundary::from_delim("::"),
    ]);
    assert_eq!(
        &[Boundary::from_delim("::"), Boundary::Acronym],
        conv.boundaries()
    );
    let conv = conv.remove_boundary(Boundary::from_delim("::"));
    assert_eq!(&[Boundary::Acronym], conv.boundaries());
}

#[test]
fn builder_fields() {
    let conv = Converter::new();
    assert_eq!(Boundary::defaults(), conv.boundaries());
    assert!(conv.patterns().is_empty());
    assert_eq!("", conv.delim());
    let conv = conv
        .to_case(Case::Kebab)
        .remove_empty()
        .add_pattern(Pattern::Toggle);
    assert_eq!(
        &[Pattern::Lowercase, Pattern::RemoveEmpty, Pattern::Toggle],
        conv.patterns()
    );
    assert_eq!("-", conv.delim());
    let conv = conv.set_pattern(Pattern::Noop).set_delim("::");
    assert_eq!(&[Pattern::Noop], conv.patterns());
    assert_eq!("::", conv.delim());
}
