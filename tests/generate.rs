use icegen::codegen::{
    generate_abstract_class, generate_detect_default_class_and_constant, generate_final_variable_for_exception,
    generate_impl_class_copy_with, generate_impl_class_equality_operator, generate_impl_class_hash_code,
    generate_mixin,
};
use icegen::class::{class, ClassDefinition};
use icegen::indent::indent_lines;
use icegen::output::{
    decide_update, generate_data_class_file, generate_part_of_statement, DartFile, StringEditor, WriteAction,
    GENERATED_FILE_HEADER,
};
use icegen::parser::{ParsedFile, TopLevelItems};
use icegen::validate::{GenerateError, ValidatedClass, ValidatedFile};

fn parse_class(text: &str) -> ClassDefinition {
    class(text).unwrap().1
}

fn validated(text: &str) -> ValidatedClass {
    ValidatedClass::validate(&parse_class(text)).ok().unwrap()
}

fn validate_err(text: &str) -> GenerateError {
    match ValidatedClass::validate(&parse_class(text)) {
        Ok(_) => panic!("validation passed"),
        Err(e) => e,
    }
}

fn dart_file(name: &str, source: &str) -> DartFile {
    DartFile {
        path: format!("lib/{}", name),
        file_name: name.to_string(),
        parsed_file: ParsedFile::parse_dart_file(source).unwrap(),
    }
}

const POINT: &str = "@freezed class Point { factory Point({required int x, required int y}) = _Point; Point._(); }";

fn point_expected() -> String {
    let lines = [
        "// coverage:ignore-file",
        "// GENERATED CODE - DO NOT MODIFY BY HAND",
        "",
        "part of 'point.dart';",
        "",
        "// **************************************************************************",
        "// Generated with Icegen",
        "// **************************************************************************",
        "",
        "/// @nodoc",
        "final _privateConstructorErrorPoint = UnsupportedError(",
        "    'Private constructor Point._() was called. Please call factory constructor instead.');",
        "",
        "/// @nodoc",
        "mixin _$Point {",
        "  int get x => throw _privateConstructorErrorPoint;",
        "  int get y => throw _privateConstructorErrorPoint;",
        "",
        "  Point copyWith({",
        "    int? x,",
        "    int? y,",
        "  }) => throw _privateConstructorErrorPoint;",
        "}",
        "",
        "/// @nodoc",
        "abstract class _Point extends Point {",
        "  factory _Point({",
        "    required int x,",
        "    required int y,",
        "  }) = _$PointImpl;",
        "  _Point._() : super._();",
        "}",
        "",
        "/// @nodoc",
        "class _$PointImpl extends _Point {",
        "  _$PointImpl({",
        "    required this.x,",
        "    required this.y,",
        "  }) : super._();",
        "",
        "  @override",
        "  final int x;",
        "  @override",
        "  final int y;",
        "",
        "  @override",
        "  String toString() {",
        "    return 'Point(x: $x, y: $y)';",
        "  }",
        "",
        "  @override",
        "  bool operator ==(Object other) {",
        "    return identical(this, other) ||",
        "      (other.runtimeType == runtimeType &&",
        "        other is _$PointImpl &&",
        "        (identical(other.x, x) ||",
        "          other.x == x) &&",
        "        (identical(other.y, y) ||",
        "          other.y == y)",
        "    );",
        "  }",
        "",
        "  @override",
        "  int get hashCode => Object.hash(",
        "    runtimeType,",
        "    x,",
        "    y,",
        "  );",
        "",
        "  @override",
        "  Point copyWith({",
        "    Object? x,",
        "    Object? y,",
        "  }) => _$PointImpl(",
        "    x: (x ?? this.x) as int,",
        "    y: (y ?? this.y) as int,",
        "  );",
        "}",
    ];
    let mut s = lines.join("\n");
    s.push('\n');
    s
}

#[test]
fn point_example_end_to_end() {
    let out = generate_data_class_file(&dart_file("point.dart", POINT)).ok().unwrap();
    assert_eq!(out, point_expected());
    assert!(!out.contains("_DetectDefaultValueInCopyWith"));
}

#[test]
fn generation_is_deterministic_and_regeneration_writes_nothing() {
    let file = dart_file("point.dart", POINT);
    let first = generate_data_class_file(&file).ok().unwrap();
    let second = generate_data_class_file(&file).ok().unwrap();
    assert_eq!(first, second);
    assert_eq!(decide_update("point.freezed.dart", Some(first.as_str()), &second, false), Ok(WriteAction::Skip));
    assert_eq!(decide_update("point.freezed.dart", Some(first.as_str()), &second, true), Ok(WriteAction::Skip));
}

#[test]
fn overwrite_rule() {
    let new = format!("{}x", GENERATED_FILE_HEADER);
    let old = format!("{}y", GENERATED_FILE_HEADER);
    assert_eq!(decide_update("p", None, &new, false), Ok(WriteAction::Write));
    assert_eq!(decide_update("p", Some(old.as_str()), &new, false), Ok(WriteAction::Write));
    assert_eq!(
        decide_update("p", Some("hand written"), &new, false),
        Err(GenerateError::NotGeneratedFile { path: "p".to_string() })
    );
    assert_eq!(decide_update("p", Some("hand written"), &new, true), Ok(WriteAction::Write));
}

#[test]
fn file_without_triggered_classes_has_only_the_header_parts() {
    let out = generate_data_class_file(&dart_file("a.dart", "class A {}")).ok().unwrap();
    assert_eq!(
        out,
        "// coverage:ignore-file\n// GENERATED CODE - DO NOT MODIFY BY HAND\n\npart of 'a.dart';\n\n// **************************************************************************\n// Generated with Icegen\n// **************************************************************************\n"
    );
}

#[test]
fn nullable_field_uses_the_sentinel() {
    let src = "@freezed class A { const factory A({String? name, required int n}) = _A; }";
    let out = generate_data_class_file(&dart_file("a.dart", src)).ok().unwrap();
    assert_eq!(out.matches("class _DetectDefaultValueInCopyWith {").count(), 1);
    assert!(out.contains("const _DetectDefaultValueInCopyWith _detectDefaultValueInCopyWith = _DetectDefaultValueInCopyWith();"));
    assert!(out.contains("    Object? name = _detectDefaultValueInCopyWith,\n    Object? n,\n"));
    assert!(out.contains("    name: (name == _detectDefaultValueInCopyWith ? this.name : name) as String?,\n"));
    assert!(out.contains("    n: (n ?? this.n) as int,\n"));
    assert!(out.contains("abstract class _A implements A {\n  const factory _A({\n    String? name,\n    required int n,\n  }) = _$AImpl;\n}"));
    assert!(out.contains("class _$AImpl implements _A {\n  const _$AImpl({\n    this.name,\n    required this.n,\n  });"));
}

#[test]
fn sentinel_declaration_text() {
    assert_eq!(
        generate_detect_default_class_and_constant(),
        "class _DetectDefaultValueInCopyWith {\n  const _DetectDefaultValueInCopyWith();\n}\nconst _DetectDefaultValueInCopyWith _detectDefaultValueInCopyWith = _DetectDefaultValueInCopyWith();"
    );
}

#[test]
fn copy_with_texts_for_nullable_and_plain_fields() {
    let v = validated("class A { factory A({int? a, List<int> b}) = _A; }");
    assert_eq!(
        generate_impl_class_copy_with(&v),
        "@override\nA copyWith({\n  Object? a = _detectDefaultValueInCopyWith,\n  Object? b,\n}) => _$AImpl(\n  a: (a == _detectDefaultValueInCopyWith ? this.a : a) as int?,\n  b: (b ?? this.b) as List<int>,\n);"
    );
}

#[test]
fn equality_and_hash_cover_every_field_in_order() {
    let v = validated("class A { factory A({int a, int b, int c}) = _A; }");
    let eq = generate_impl_class_equality_operator(&v);
    assert!(eq.contains("(identical(other.a, a) ||\n        other.a == a) &&\n      (identical(other.b, b) ||\n        other.b == b) &&\n      (identical(other.c, c) ||\n        other.c == c)\n  );"));
    assert_eq!(
        generate_impl_class_hash_code(&v),
        "@override\nint get hashCode => Object.hash(\n  runtimeType,\n  a,\n  b,\n  c,\n);"
    );
}

#[test]
fn defaults_become_shared_constants() {
    let src = "@freezed class A { factory A({@Default(3) int n, @Default('x') String s}) = _A; A._(); }";
    let out = generate_data_class_file(&dart_file("a.dart", src)).ok().unwrap();
    assert!(out.contains("  static const int _nDefaultValue = 3;\n  static const String _sDefaultValue = 'x';\n  \n  _$AImpl({\n    this.n = _nDefaultValue,\n    this.s = _sDefaultValue,\n  }) : super._();"));
}

#[test]
fn diagnostics_import_adds_diagnostics_support() {
    let src = "import 'package:flutter/foundation.dart';\n@freezed class A { factory A({int a}) = _A; }";
    let out = generate_data_class_file(&dart_file("a.dart", src)).ok().unwrap();
    assert!(out.contains("class _$AImpl with DiagnosticableTreeMixin implements _A {"));
    assert!(out.contains("  String toString({DiagnosticLevel minLevel = DiagnosticLevel.info}) {"));
    assert!(out.contains("  @override\n  void debugFillProperties(DiagnosticPropertiesBuilder properties) {\n    super.debugFillProperties(properties);\n    properties\n      ..add(DiagnosticsProperty('type', 'A'))\n      ..add(DiagnosticsProperty('a', a));\n  }"));
    let file = ParsedFile::parse_dart_file(src).unwrap();
    assert_eq!(ValidatedFile::validate(&file), Ok(ValidatedFile { flutter_foundation_import_exists: true }));
}

#[test]
fn private_constant_constructor_is_forwarded() {
    let v = validated("class A { factory A({int a}) = _A; const A._(); }");
    let text = generate_abstract_class(&v).ok().unwrap();
    assert!(text.ends_with("\n  const _A._() : super._();\n}"));
}

#[test]
fn validation_keeps_parameter_order() {
    let v = validated("class A { factory A({int c, int a, int b}) = _A; }");
    let names: Vec<&str> = v.factory_constructor_params().iter().map(|p| p.name.as_str()).collect();
    assert_eq!(names, vec!["c", "a", "b"]);
    assert!(!v.private_constructor_exists());
    assert!(!v.nullable_named_parameter_exists());
}

#[test]
fn two_factory_constructors_fail() {
    assert_eq!(
        validate_err("class A { factory A({int a}) = _A; factory A({int b}) = _B; }"),
        GenerateError::MultipleFactoryConstructors { class_name: "A".to_string() }
    );
}

#[test]
fn no_factory_constructor_fails() {
    assert_eq!(validate_err("class A { A._(); }"), GenerateError::NoFactoryConstructor { class_name: "A".to_string() });
}

#[test]
fn two_private_constructors_fail() {
    assert_eq!(
        validate_err("class A { A._(); factory A({int a}) = _A; const A._(); }"),
        GenerateError::MultiplePrivateConstructors { class_name: "A".to_string() }
    );
}

#[test]
fn empty_factory_fails() {
    assert_eq!(
        validate_err("class A { factory A({}) = _A; }"),
        GenerateError::NoNamedParameters { class_name: "A".to_string() }
    );
}

#[test]
fn two_default_annotations_fail() {
    assert_eq!(
        validate_err("class A { factory A({@Default(1) @Default(2) int a}) = _A; }"),
        GenerateError::MultipleDefaultAnnotations { parameter: "a".to_string(), class_name: "A".to_string() }
    );
}

#[test]
fn dollar_in_class_name_fails() {
    let v = validated("class A$ { factory A$({int a}) = _A; }");
    assert_eq!(generate_mixin(&v), Err(GenerateError::DollarInClassName { class_name: "A$".to_string() }));
    let err = generate_data_class_file(&dart_file("a.dart", "@freezed class A$ { factory A$({int a}) = _A; }"));
    assert_eq!(err, Err(GenerateError::DollarInClassName { class_name: "A$".to_string() }));
}

#[test]
fn file_name_with_quote_or_dollar_fails() {
    let f = dart_file("it's.dart", "");
    assert_eq!(generate_part_of_statement(&f), Err(GenerateError::InvalidFileName { file_name: "it's.dart".to_string() }));
    let g = dart_file("a$.dart", POINT);
    assert_eq!(generate_data_class_file(&g), Err(GenerateError::InvalidFileName { file_name: "a$.dart".to_string() }));
    assert_eq!(generate_part_of_statement(&dart_file("a.dart", "")), Ok("part of 'a.dart';".to_string()));
}

#[test]
fn class_errors_come_before_file_name_errors() {
    let f = dart_file("a$.dart", "@freezed class A { A._(); }");
    assert_eq!(generate_data_class_file(&f), Err(GenerateError::NoFactoryConstructor { class_name: "A".to_string() }));
}

#[test]
fn indent_lines_follows_line_endings() {
    assert_eq!(indent_lines("  ", "a\nb\n"), "  a\n  b");
    assert_eq!(indent_lines("  ", "a\r\n\nb"), "  a\n  \n  b");
    assert_eq!(indent_lines("  ", ""), "");
    assert_eq!(indent_lines("> ", "x\r"), "> x\r");
}

#[test]
fn editor_trims_trailing_whitespace() {
    let mut e = StringEditor::new("head".to_string());
    e.add_paragraph("p");
    assert_eq!(e.content, "head\np\n");
    let mut tail = StringEditor::new(" \u{3000}\t\n".to_string());
    tail.add_paragraph("");
    e.append(&tail);
    assert_eq!(e.trim_end_and_add_final_newline(), "head\np\n");
    let f = StringEditor::new("x\u{85}\u{a0}\u{2028}".to_string());
    assert_eq!(f.trim_end_and_add_final_newline(), "x\n");
    let g = StringEditor::new("x\u{200b}".to_string());
    assert_eq!(g.trim_end_and_add_final_newline(), "x\u{200b}\n");
}

#[test]
fn unused_exception_declaration_text() {
    assert_eq!(
        generate_final_variable_for_exception(),
        "final _privateConstructorCalledException = Exception('A class was instantiated with a private constructor. Please instantiate the class with a factory constructor instead.');"
    );
}

#[test]
fn triggered_classes_are_generated_in_order() {
    let src = "@freezed class B { factory B({int b}) = _B; }\nclass C {}\n@Freezed() class A { factory A({int a}) = _A; }";
    let file = dart_file("m.dart", src);
    let out = generate_data_class_file(&file).ok().unwrap();
    let b = out.find("mixin _$B {").unwrap();
    let a = out.find("mixin _$A {").unwrap();
    assert!(b < a);
    assert!(!out.contains("_$C"));
    assert!(matches!(file.parsed_file.items[1], TopLevelItems::Class(_)));
}
