use icegen::lexer::{class_keyword, const_keyword, import_keyword, keyword, required_keyword, with_keyword, Identifier, Keyword};
use icegen::tokens::{
    double_quote_string, identifier, is_not_newline_or_double_quote, is_not_newline_or_single_quote, line_comment,
    multi_line_comment, single_quote_string, some_whitespace, string_literal, ws, wsc,
};

fn ok2(rest: &str, v: &str) -> Result<(String, String), icegen::lexer::ParseError> {
    Ok((rest.to_string(), v.to_string()))
}

fn id(name: &str) -> Identifier {
    Identifier { name: name.to_string() }
}

#[test]
fn ws_no_ws() {
    assert!(ws("").is_err());
}

#[test]
fn ws_only_ws() {
    let input = " \n   \n ";
    assert_eq!(ws(input), ok2("", input));
}

#[test]
fn ws_removes_whitespace() {
    assert_eq!(ws(" \n   \na"), ok2("a", " \n   \n"));
}

#[test]
fn line_comment_removed() {
    assert_eq!(line_comment("// comment\na"), ok2("a", " comment"));
}

#[test]
fn multi_line_comment_removed() {
    assert_eq!(multi_line_comment("/* \n \n */ a"), ok2(" a", " \n \n "));
}

#[test]
fn wsc_whitespace_and_multiple_comments() {
    assert_eq!(wsc("\n //a\n /*b*/\nc"), ok2("c", ""));
}

#[test]
fn wsc_no_whitespace_or_comments() {
    assert_eq!(wsc("a// comment\n"), ok2("a// comment\n", ""));
}

#[test]
fn line_comment_without_newline_is_not_a_comment() {
    assert!(line_comment("// no newline").is_err());
    assert_eq!(wsc(" // no newline"), ok2("// no newline", ""));
}

#[test]
fn some_whitespace_takes_one_unit() {
    assert_eq!(some_whitespace("/*a*/ b"), ok2(" b", "/*a*/"));
    assert_eq!(some_whitespace("  /*a*/"), ok2("/*a*/", "  "));
    assert!(some_whitespace("x").is_err());
}

#[test]
fn identifier_empty_fails() {
    assert!(identifier("").is_err());
}

#[test]
fn identifier_begins_with_number_fails() {
    assert!(identifier("1test").is_err());
}

#[test]
fn identifier_ends_with_parenthesis() {
    assert_eq!(identifier("test$_()"), Ok(("()".to_string(), id("test$_"))));
}

#[test]
fn identifier_ends_with_comma() {
    assert_eq!(identifier("test$_,"), Ok((",".to_string(), id("test$_"))));
}

#[test]
fn identifier_input_continues() {
    assert_eq!(identifier("test$_ a"), Ok((" a".to_string(), id("test$_"))));
}

#[test]
fn identifier_input_ends() {
    assert_eq!(identifier("test$_"), Ok(("".to_string(), id("test$_"))));
}

#[test]
fn identifier_first_character_underscore() {
    assert_eq!(identifier("_a"), Ok(("".to_string(), id("_a"))));
}

#[test]
fn identifier_first_character_dollar() {
    assert_eq!(identifier("$a"), Ok(("".to_string(), id("$a"))));
}

#[test]
fn identifier_continues_with_unicode_letters_and_digits() {
    assert_eq!(identifier("aé1 b"), Ok((" b".to_string(), id("aé1"))));
    assert!(identifier("é").is_err());
}

#[test]
fn import_keyword_empty() {
    assert!(import_keyword("").is_err());
}

#[test]
fn import_keyword_parses_correctly() {
    assert_eq!(import_keyword("import a"), Ok(("a".to_string(), Keyword::Import)));
}

#[test]
fn class_keyword_empty() {
    assert!(class_keyword("").is_err());
}

#[test]
fn class_keyword_parses_correctly() {
    assert_eq!(class_keyword("class a"), Ok(("a".to_string(), Keyword::Class)));
}

#[test]
fn keyword_needs_trailing_space() {
    assert!(class_keyword("classA").is_err());
}

#[test]
fn double_quote_string_works() {
    assert_eq!(double_quote_string("\"a\""), ok2("", "a"));
}

#[test]
fn single_quote_string_empty_string() {
    assert!(single_quote_string("").is_err());
}

#[test]
fn single_quote_string_empty_quote_string() {
    assert_eq!(single_quote_string("''"), ok2("", ""));
}

#[test]
fn single_quote_string_newline_errors() {
    assert!(single_quote_string("\n").is_err());
}

#[test]
fn single_quote_string_works() {
    assert_eq!(single_quote_string("'a'"), ok2("", "a"));
}

#[test]
fn string_with_newline_inside_fails() {
    assert!(string_literal("'a\nb'").is_err());
    assert!(double_quote_string("'a'").is_err());
    assert_eq!(string_literal("\"it's\" x"), ok2(" x", "it's"));
}

#[test]
fn is_not_newline_or_single_quote_failure_with_newline() {
    assert!(is_not_newline_or_single_quote("\n").is_err());
}

#[test]
fn is_not_newline_or_single_quote_failure_with_single_quote() {
    assert!(is_not_newline_or_single_quote("'").is_err());
}

#[test]
fn is_not_newline_or_single_quote_success_with_allowed_character() {
    assert_eq!(is_not_newline_or_single_quote("a"), ok2("", "a"));
}

#[test]
fn is_not_newline_or_double_quote_failure_with_newline() {
    assert!(is_not_newline_or_double_quote("\n").is_err());
}

#[test]
fn is_not_newline_or_double_quote_failure_with_double_quote() {
    assert!(is_not_newline_or_double_quote("\"").is_err());
}

#[test]
fn is_not_newline_or_double_quote_success_with_allowed_character() {
    assert_eq!(is_not_newline_or_double_quote("a"), ok2("", "a"));
}

#[test]
fn other_keywords_parse() {
    assert_eq!(required_keyword("required int"), Ok(("int".to_string(), Keyword::Required)));
    assert_eq!(with_keyword("with M"), Ok(("M".to_string(), Keyword::With)));
    assert_eq!(const_keyword("const A"), Ok(("A".to_string(), Keyword::Const)));
    assert_eq!(keyword("factory A"), Ok(("A".to_string(), Keyword::Factory)));
    assert_eq!(keyword("class A"), Ok(("A".to_string(), Keyword::Class)));
    assert!(keyword("with A").is_err());
}
