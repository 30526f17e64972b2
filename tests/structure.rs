use icegen::annotation::Annotation;
use icegen::class::{
    class, factory_constructor, private_constructor, ClassDefinition, ClassItem, ClassItemInfo, FactoryConstructor,
    PrivateConstructor,
};
use icegen::data_type::{data_type, DataType};
use icegen::import::{import_statement, ImportStatement};
use icegen::lexer::Identifier;
use icegen::parameters::{named_parameter, named_parameters0, NamedParameter};
use icegen::parser::{parse_file_contents, ParsedFile, TopLevelItems};

fn ident(name: &str) -> Identifier {
    Identifier { name: name.to_string() }
}

fn rest<T>(r: &str, v: T) -> Result<(String, T), icegen::lexer::ParseError> {
    Ok((r.to_string(), v))
}

fn dtype(name: &str, nullable: bool, type_args: Vec<DataType>) -> DataType {
    DataType { name: ident(name), nullable, type_args }
}

fn parameter(class_name: &str, name: &str) -> NamedParameter {
    NamedParameter {
        annotations: vec![],
        required: false,
        parameter_type: dtype(class_name, false, vec![]),
        name: ident(name),
    }
}

fn a(name: &str) -> Annotation {
    Annotation { name: ident(name), parameters: "".to_string() }
}

fn c(name: &str) -> ClassDefinition {
    c_full(&[], name, &[], vec![])
}

fn c_full(annotations: &[&str], name: &str, mixins: &[&str], items: Vec<ClassItem>) -> ClassDefinition {
    ClassDefinition {
        annotations: annotations.iter().map(|x| a(x)).collect(),
        name: ident(name),
        mixin_types: mixins.iter().map(|x| ident(x)).collect(),
        implemented_types: vec![],
        item_info: ClassItemInfo { items },
    }
}

fn f(params: Vec<NamedParameter>, is_const: bool) -> FactoryConstructor {
    FactoryConstructor { params, is_const }
}

fn i(path: &str) -> TopLevelItems {
    TopLevelItems::Import(ImportStatement { path: path.to_string() })
}

fn tc(name: &str) -> TopLevelItems {
    TopLevelItems::Class(c(name))
}

#[test]
fn data_type_non_nullable() {
    assert_eq!(data_type("Test "), rest("", dtype("Test", false, vec![])));
}

#[test]
fn data_type_nullable() {
    assert_eq!(data_type("Test? "), rest("", dtype("Test", true, vec![])));
}

#[test]
fn data_type_single_arg() {
    let arg1 = dtype("A", false, vec![]);
    assert_eq!(data_type("Test < A > "), rest("", dtype("Test", false, vec![arg1])));
}

#[test]
fn data_type_multiple_type_args() {
    let arg1 = dtype("A", false, vec![]);
    let arg2 = dtype("B", false, vec![]);
    assert_eq!(data_type("Test < A , B > "), rest("", dtype("Test", false, vec![arg1, arg2])));
}

#[test]
fn data_type_multiple_type_args_where_args_also_have_type_args() {
    let arg1 = dtype("A", false, vec![dtype("A1", false, vec![]), dtype("A2", false, vec![])]);
    let arg2 = dtype("B", false, vec![dtype("B1", false, vec![]), dtype("B2", false, vec![])]);
    assert_eq!(
        data_type("Test < A < A1, A2 > , B < B1, B2 > > "),
        rest("", dtype("Test", false, vec![arg1, arg2]))
    );
}

#[test]
fn data_type_renders_in_normal_form() {
    let (_, d) = data_type("Map < String , List<int?> > ?").unwrap();
    assert_eq!(d.to_text(), "Map<String, List<int?>>?");
    assert_eq!(d.to_nullable().to_text(), "Map<String, List<int?>>?");
    let (_, e) = data_type("int").unwrap();
    assert_eq!(e.to_nullable().to_text(), "int?");
    assert_eq!(e.to_text(), "int");
}

#[test]
fn data_type_with_leading_comma_in_arguments_stops_before_them() {
    assert_eq!(data_type("List<, int>"), rest("<, int>", dtype("List", false, vec![])));
    assert!(data_type("<int>").is_err());
}

#[test]
fn named_parameter_parsed_correctly() {
    assert_eq!(
        named_parameter("@a @b @c  required A a"),
        rest(
            "",
            NamedParameter {
                annotations: vec![a("a"), a("b"), a("c")],
                required: true,
                parameter_type: dtype("A", false, vec![]),
                name: ident("a"),
            }
        )
    );
}

#[test]
fn list_of_named_paramters_prevents_comma_in_beginning() {
    assert!(named_parameters0("  , A a").is_err())
}

#[test]
fn empty_parameter_list() {
    assert_eq!(named_parameters0(" "), rest("", vec![]));
}

#[test]
fn one_paramters_allow_comma_in_end() {
    assert_eq!(named_parameters0("A a, "), rest(" ", vec![parameter("A", "a")]));
}

#[test]
fn one_paramters_trailing_comma_consumed_even_if_whitespace_before_it() {
    assert_eq!(named_parameters0("A a   , "), rest(" ", vec![parameter("A", "a")]));
}

#[test]
fn one_named_paramters_no_comma_in_end_works() {
    assert_eq!(named_parameters0("A a"), rest("", vec![parameter("A", "a")]));
}

#[test]
fn two_named_paramters_allow_comma_in_end() {
    assert_eq!(named_parameters0("A a, B b, "), rest(" ", vec![parameter("A", "a"), parameter("B", "b")]));
}

#[test]
fn two_named_paramters_no_comma_in_end_works() {
    assert_eq!(named_parameters0("A a, B b"), rest("", vec![parameter("A", "a"), parameter("B", "b")]));
}

#[test]
fn default_annotation_gives_the_raw_expression() {
    let (_, p) = named_parameter("@Default( [1, 2] ) List<int> xs").unwrap();
    assert_eq!(p.default_annotation(), Some(" [1, 2] ".to_string()));
    let (_, q) = named_parameter("int x").unwrap();
    assert_eq!(q.default_annotation(), None);
}

#[test]
fn private_constructor_parsed_correctly() {
    assert_eq!(private_constructor(&ident("A"), "A . _ ( ) ; "), rest(" ", PrivateConstructor { is_const: false }));
}

#[test]
fn private_constructor_with_const_parsed_correctly() {
    assert_eq!(private_constructor(&ident("A"), "const A . _ ( ) ; "), rest(" ", PrivateConstructor { is_const: true }));
}

#[test]
fn private_constructor_of_another_class_fails() {
    assert!(private_constructor(&ident("A"), "B._();").is_err());
}

#[test]
fn factory_constructor_no_params() {
    assert_eq!(factory_constructor(&ident("A"), "factory A ( {  } ) = _ ;"), rest("", f(vec![], false)));
}

#[test]
fn factory_constructor_one_parameter() {
    assert_eq!(
        factory_constructor(&ident("A"), "factory A ( { B b } ) = _ ;"),
        rest("", f(vec![parameter("B", "b")], false))
    );
}

#[test]
fn factory_constructor_two_parameters() {
    assert_eq!(
        factory_constructor(&ident("A"), "factory A ({ B b, C c }) = _ ;"),
        rest("", f(vec![parameter("B", "b"), parameter("C", "c")], false))
    );
}

#[test]
fn factory_constructor_multiline() {
    assert_eq!(
        factory_constructor(
            &ident("A"),
            "factory A({
                    B b  ,
                }) = _ ;"
        ),
        rest("", f(vec![parameter("B", "b")], false))
    );
}

#[test]
fn factory_constructor_with_const() {
    assert_eq!(factory_constructor(&ident("A"), "const factory A ( {  } ) = _ ;"), rest("", f(vec![], true)));
}

#[test]
fn class_with_inner_scopes() {
    assert_eq!(class("class A { { } }"), rest(" }", c("A")));
}

#[test]
fn class_with_annotation() {
    assert_eq!(class("@a class A {}"), rest("", c_full(&["a"], "A", &[], vec![])));
}

#[test]
fn class_with_multiple_annotations() {
    assert_eq!(class("@a @b @c class A {}"), rest("", c_full(&["a", "b", "c"], "A", &[], vec![])));
}

#[test]
fn class_with_something_unsupported_after_class_name_makes_failure() {
    assert!(class("class A a {}").is_err());
}

#[test]
fn class_and_with_keyword_and_no_type_makes_failure() {
    assert!(class("class A with {}").is_err());
}

#[test]
fn class_and_with_keyword_and_one_type() {
    assert_eq!(class("class A with B {}"), rest("", c_full(&[], "A", &["B"], vec![])));
}

#[test]
fn class_and_with_keyword_and_two_types() {
    assert_eq!(class("class A with B, C {}"), rest("", c_full(&[], "A", &["B", "C"], vec![])));
}

#[test]
fn class_with_mixins_and_interfaces() {
    let mut want = c_full(&[], "A", &["B"], vec![]);
    want.implemented_types = vec![ident("I"), ident("J")];
    assert_eq!(class("class A with B implements I, J {}"), rest("", want));
    let mut only = c("A");
    only.implemented_types = vec![ident("I")];
    assert_eq!(class("class A implements I {}"), rest("", only));
}

#[test]
fn class_and_private_constructor() {
    assert_eq!(
        class("class A { A._(); }"),
        rest("", c_full(&[], "A", &[], vec![ClassItem::PrivateConstructor(PrivateConstructor { is_const: false })]))
    );
}

#[test]
fn class_and_getter_and_private_constructor() {
    assert_eq!(
        class(
            "class A {
                    int get number => 1;
                    A._();
                }"
        ),
        rest("", c_full(&[], "A", &[], vec![ClassItem::PrivateConstructor(PrivateConstructor { is_const: false })]))
    );
}

#[test]
fn class_and_factory_constructors() {
    assert_eq!(
        class(
            "class A {
                    factory A({
                        B b,
                    }) = _ ;
                }"
        ),
        rest("", c_full(&[], "A", &[], vec![ClassItem::FactoryConstructor(f(vec![parameter("B", "b")], false))]))
    );
}

#[test]
fn class_body_that_never_closes_fails() {
    assert!(class("class A { A._();").is_err());
}

#[test]
fn import_statement_other_than_import_statement() {
    assert!(import_statement("a").is_err());
}

#[test]
fn import_statement_parsed_correctly() {
    assert_eq!(
        import_statement("import // \n'hello' \n   ;a"),
        rest("a", ImportStatement { path: "hello".to_string() })
    );
}

#[test]
fn import_with_prefix_is_read_to_the_semicolon() {
    assert_eq!(
        import_statement("import 'x.dart' as x;rest"),
        rest("rest", ImportStatement { path: "x.dart".to_string() })
    );
    assert!(import_statement("import 'x.dart'").is_err());
}

#[test]
fn diagnostics_import_is_recognised() {
    assert!(ImportStatement { path: "package:flutter/foundation.dart".to_string() }.is_flutter_foundation_import());
    assert!(!ImportStatement { path: "package:flutter/material.dart".to_string() }.is_flutter_foundation_import());
}

#[test]
fn empty_file() {
    assert_eq!(parse_file_contents(""), rest("", ParsedFile { items: vec![] }));
}

#[test]
fn multiple_classes_and_imports_and_unknown_content() {
    let wanted = ParsedFile { items: vec![i("a"), i("b"), tc("B"), tc("C")] };
    assert_eq!(
        parse_file_contents(
            "

            import 'a';
            import 'b';

            test//class A {}
            class B {}
            sealed class C {}

            "
        ),
        rest("", wanted)
    );
}

#[test]
fn resynchronization_drops_unknown_text() {
    let noisy = ParsedFile::parse_dart_file("garbage garbage import 'a'; junk class B {}").unwrap();
    let clean = ParsedFile::parse_dart_file("import 'a'; class B {}").unwrap();
    assert_eq!(noisy, clean);
    assert_eq!(clean, ParsedFile { items: vec![i("a"), tc("B")] });
}

#[test]
fn class_that_fails_midway_is_skipped() {
    let parsed = ParsedFile::parse_dart_file("class A extends B { }\nclass C {}").unwrap();
    assert_eq!(parsed, ParsedFile { items: vec![tc("C")] });
}

#[test]
fn freezed_class_detection() {
    let with = ParsedFile::parse_dart_file("@freezed class A {} class B {}").unwrap();
    assert!(with.contains_freezed_annotated_class());
    let without = ParsedFile::parse_dart_file("@immutable class A {}").unwrap();
    assert!(!without.contains_freezed_annotated_class());
}

#[test]
fn lists_take_one_trailing_comma() {
    let int = dtype("int", false, vec![]);
    assert_eq!(data_type("List<int,> x"), rest("x", dtype("List", false, vec![int])));
    assert_eq!(class("class A with B, {}"), rest("", c_full(&[], "A", &["B"], vec![])));
    assert!(class("class A with B,, {}").is_err());
}

#[test]
fn malformed_factory_constructor_fails_the_file() {
    assert!(ParsedFile::parse_dart_file("@freezed class A { factory A(int x) = _A; }").is_err());
    assert!(parse_file_contents("import 'a';\nclass A { const factory A({int}) = _A; }").is_err());
    assert!(class("class A { factory A({required}) = _A; }").is_err());
}

#[test]
fn factory_that_does_not_open_is_skipped() {
    let parsed =
        ParsedFile::parse_dart_file("class A { factory A.fromJson(Map<String, dynamic> json) => _f(json); A._(); }")
            .unwrap();
    let want = c_full(&[], "A", &[], vec![ClassItem::PrivateConstructor(PrivateConstructor { is_const: false })]);
    assert_eq!(parsed, ParsedFile { items: vec![TopLevelItems::Class(want)] });
    let other = ParsedFile::parse_dart_file("class B { factory A(int x) = _A; }").unwrap();
    assert_eq!(other, ParsedFile { items: vec![tc("B")] });
}

#[test]
fn to_nullable_keeps_name_and_arguments() {
    let (_, d) = data_type("Map<String, int>").unwrap();
    let n = d.to_nullable();
    assert_eq!(n, dtype("Map", true, vec![dtype("String", false, vec![]), dtype("int", false, vec![])]));
    assert_eq!(n.to_nullable(), n);
}

#[test]
fn rendered_type_parses_back() {
    let t = dtype(
        "Map",
        true,
        vec![dtype("String", false, vec![]), dtype("List", false, vec![dtype("int", true, vec![])])],
    );
    let text = t.to_text();
    assert_eq!(text, "Map<String, List<int?>>?");
    assert_eq!(data_type(&text), rest("", t));
}
