use icegen::annotation::{annotation, annotations0, get_parameters_string, Annotation};
use icegen::lexer::Identifier;

fn a(name: &str) -> Annotation {
    Annotation { name: Identifier { name: name.to_string() }, parameters: "".to_string() }
}

fn a_params(name: &str, params: &str) -> Annotation {
    Annotation { name: Identifier { name: name.to_string() }, parameters: params.to_string() }
}

fn rest<T>(r: &str, v: T) -> Result<(String, T), icegen::lexer::ParseError> {
    Ok((r.to_string(), v))
}

#[test]
fn annotation_starts_with_wrong_letter() {
    assert!(annotation("$test").is_err());
}

#[test]
fn annotation_without_parameters() {
    assert_eq!(annotation("@a "), rest("", a("a")));
}

#[test]
fn annotation_empty_parameters() {
    assert_eq!(annotation("@a() "), rest(" ", a("a")));
}

#[test]
fn annotation_some_parameters() {
    assert_eq!(annotation("@a( test, 123 ) "), rest(" ", a_params("a", " test, 123 ")));
}

#[test]
fn annotation_parameters_incomplete() {
    assert!(annotation("@a(").is_err());
}

#[test]
fn annotations0_no_annotations_does_not_remove_whitespace() {
    assert_eq!(annotations0(" \n"), rest(" \n", vec![]));
}

#[test]
fn annotations0_no_annotations_retuns_empty_vec() {
    assert_eq!(annotations0(" class"), rest(" class", vec![]));
}

#[test]
fn annotations0_one_annotation() {
    assert_eq!(annotations0("@a "), rest("", vec![a("a")]));
}

#[test]
fn annotations0_multiple_annotations() {
    assert_eq!(annotations0("@a@b@c "), rest("", vec![a("a"), a("b"), a("c")]));
}

#[test]
fn annotations0_start_with_whitespace() {
    assert_eq!(annotations0(" @a "), rest("", vec![a("a")]));
}

#[test]
fn parameters_string_whitespace_fails() {
    assert!(get_parameters_string("  ").is_err());
}

#[test]
fn parameters_string_end_parenthesis_works() {
    assert_eq!(get_parameters_string(")"), rest(")", "".to_string()));
}

#[test]
fn parameters_string_whitespace_and_end_parenthesis_works() {
    assert_eq!(get_parameters_string(" ) "), rest(") ", " ".to_string()));
}

#[test]
fn parameters_string_multiple_parenthesis() {
    assert_eq!(get_parameters_string(" ( ( ) ) ) "), rest(") ", " ( ( ) ) ".to_string()));
}

#[test]
fn parameters_string_parenthesis_in_string_literals_skipped() {
    assert_eq!(get_parameters_string("')' \")\" )"), rest(")", "')' \")\" ".to_string()));
}

#[test]
fn parameters_string_parenthesis_in_comments_skipped() {
    assert_eq!(get_parameters_string("( // )\n/*)*/))"), rest(")", "( // )\n/*)*/)".to_string()));
}

#[test]
fn annotation_parameters_skip_parentheses_in_literals() {
    assert_eq!(annotation("@a(')' \")\" )"), rest("", a_params("a", "')' \")\" ")));
}

#[test]
fn annotation_parameters_match_nested_parentheses() {
    assert_eq!(annotation("@a(( () )) )"), rest(" )", a_params("a", "( () )")));
    assert_eq!(annotation("@Default(f(1, (2))) x"), rest(" x", a_params("Default", "f(1, (2))")));
}

#[test]
fn annotation_unclosed_quote_is_an_ordinary_character() {
    assert_eq!(annotation("@a(it's) "), rest(" ", a_params("a", "it's")));
}

#[test]
fn trigger_and_default_annotations_are_recognised() {
    assert!(a("freezed").is_freezed_annotation());
    assert!(a("Freezed").is_freezed_annotation());
    assert!(!a("FREEZED").is_freezed_annotation());
    assert!(a("Default").is_default_annotation());
    assert!(!a("default").is_default_annotation());
}
