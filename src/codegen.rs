//! Rendering of validated classes into the companion source text.
use vstd::prelude::*;
use crate::indent::{indent_lines, indent_spec};
use crate::parameters::NamedParameterModel;
use crate::pieces::{piece, concat_pieces, join_pieces, concat_text, join_text, opt_text, append_if, Piece, DEFAULT_DETECTOR_VARIABLE};
use crate::text::contains_char;
use crate::lexer::Identifier;
use crate::validate::{GenerateError, ErrorModel, ValidatedClass, ValidatedFile, ValidClassModel};

verus! {

/// The name of the exception that the placeholder base of class `n` throws.
pub open spec fn exception_name(n: Seq<char>) -> Seq<char> {
    "_privateConstructorError"@ + n
}

/// The exception value declared before the placeholder base.
pub open spec fn exception_variable_spec(n: Seq<char>) -> Seq<char> {
    "/// @nodoc\nfinal "@ + exception_name(n) + " = UnsupportedError(\n    'Private constructor "@ + n
        + "._() was called. Please call factory constructor instead.');"@
}

/// The copy-with declaration of the placeholder base.
pub open spec fn mixin_copy_with_spec(v: ValidClassModel) -> Seq<char> {
    v.name + " copyWith({\n"@ + indent_spec("  "@, concat_pieces(Piece::CopyWithType, v.factory.params, ""@))
        + "\n}) => throw "@ + exception_name(v.name) + ";"@
}

/// The placeholder base: the exception, then a mixin whose getters and
/// copy-with all throw it.
pub open spec fn mixin_spec(v: ValidClassModel) -> Seq<char> {
    exception_variable_spec(v.name) + "\n\n/// @nodoc\nmixin _$"@ + v.name + " {\n"@
        + join_pieces(Piece::MixinGetter, v.factory.params, "\n"@, exception_name(v.name)) + "\n\n"@
        + indent_spec("  "@, mixin_copy_with_spec(v)) + "\n}"@
}

/// Appends `a` then `b`.
fn append2(out: &mut String, a: &str, b: &str)
    ensures
        final(out)@ == old(out)@ + a@ + b@,
{
    out.append(a);
    out.append(b);
}

/// Refuses a class name with a dollar sign, which would be read as
/// interpolation in the generated strings.
pub fn validate_class_name(name: &Identifier) -> (r: Result<(), GenerateError>)
    ensures
        name@.contains('$') ==> (r matches Err(e) && e@ == ErrorModel::DollarInClassName(name@)),
        !name@.contains('$') ==> r is Ok,
{
    if contains_char(name.as_str(), '$') {
        return Err(GenerateError::DollarInClassName { class_name: name.name.clone() });
    }
    Ok(())
}

/// The copy-with declaration of the placeholder base, which throws `exception`.
fn generate_copy_with(class: &ValidatedClass, exception: &str) -> (r: String)
    requires
        exception@ == exception_name(class@.name),
    ensures
        r@ == mixin_copy_with_spec(class@),
{
    let mut cw = String::new();
    append2(&mut cw, class.name().as_str(), " copyWith({\n");
    let cw_params = concat_text(&Piece::CopyWithType, class.factory_constructor_params(), "");
    let ind = indent_lines("  ", cw_params.as_str());
    append2(&mut cw, ind.as_str(), "\n}) => throw ");
    append2(&mut cw, exception, ";");
    proof {
        assert(cw@ =~= mixin_copy_with_spec(class@));
    }
    cw
}

/// The placeholder base of a class; fails when the class name holds a dollar sign.
pub fn generate_mixin(class: &ValidatedClass) -> (r: Result<String, GenerateError>)
    ensures
        class@.name.contains('$') ==> (r matches Err(e) && e@ == ErrorModel::DollarInClassName(class@.name)),
        !class@.name.contains('$') ==> (r matches Ok(t) && t@ == mixin_spec(class@)),
{
    match validate_class_name(class.name()) {
        Err(e) => return Err(e),
        Ok(()) => {},
    }
    let n = class.name().as_str();
    let params = class.factory_constructor_params();
    let mut e = String::new();
    append2(&mut e, "_privateConstructorError", n);
    let mut out = String::new();
    append2(&mut out, "/// @nodoc\nfinal ", e.as_str());
    append2(&mut out, " = UnsupportedError(\n    'Private constructor ", n);
    out.append("._() was called. Please call factory constructor instead.');");
    append2(&mut out, "\n\n/// @nodoc\nmixin _$", n);
    out.append(" {\n");
    let getters = join_text(&Piece::MixinGetter, params, "\n", e.as_str());
    append2(&mut out, getters.as_str(), "\n\n");
    assert(e@ =~= exception_name(class@.name));
    let cw = generate_copy_with(class, e.as_str());
    let cw_ind = indent_lines("  ", cw.as_str());
    append2(&mut out, cw_ind.as_str(), "\n}");
    proof {
        assert(out@ =~= mixin_spec(class@));
    }
    Ok(out)
}

/// The factory of the abstract declaration.
pub open spec fn abstract_factory_spec(v: ValidClassModel) -> Seq<char> {
    opt_text(v.factory.is_const, "const "@) + "factory _"@ + v.name + "({\n"@
        + indent_spec("  "@, concat_pieces(Piece::AbstractParam, v.factory.params, ""@))
        + "\n}) = _$"@ + v.name + "Impl;"@
}

/// The factory of the abstract declaration, which assigns to the concrete class.
fn generate_abstract_class_factory(class: &ValidatedClass) -> (r: String)
    ensures
        r@ == abstract_factory_spec(class@),
{
    let n = class.name().as_str();
    let mut factory = String::new();
    append_if(&mut factory, class.factory_constructor_is_const(), "const ");
    append2(&mut factory, "factory _", n);
    factory.append("({\n");
    let fp = concat_text(&Piece::AbstractParam, class.factory_constructor_params(), "");
    let fp_ind = indent_lines("  ", fp.as_str());
    append2(&mut factory, fp_ind.as_str(), "\n}) = _$");
    append2(&mut factory, n, "Impl;");
    proof {
        assert(factory@ =~= abstract_factory_spec(class@));
    }
    factory
}

/// The abstract declaration: it `extends` the class when the class declares
/// a private constructor (and then forwards to it), else it `implements` it.
pub open spec fn abstract_class_spec(v: ValidClassModel) -> Seq<char> {
    "/// @nodoc\nabstract class _"@ + v.name + " "@
        + (if v.private_constructor is Some { "extends"@ } else { "implements"@ }) + " "@ + v.name + " {\n"@
        + indent_spec("  "@, abstract_factory_spec(v))
        + opt_text(v.private_constructor is Some,
            "\n  "@ + opt_text(v.private_constructor == Some(true), "const "@) + "_"@ + v.name + "._() : super._();"@)
        + "\n}"@
}

/// The abstract declaration of a class.
pub fn generate_abstract_class(class: &ValidatedClass) -> (r: Result<String, GenerateError>)
    ensures
        r matches Ok(t) && t@ == abstract_class_spec(class@),
{
    let n = class.name().as_str();
    let factory = generate_abstract_class_factory(class);
    let mut out = String::new();
    append2(&mut out, "/// @nodoc\nabstract class _", n);
    out.append(" ");
    let has_private = class.private_constructor_exists();
    if has_private {
        out.append("extends");
    } else {
        out.append("implements");
    }
    append2(&mut out, " ", n);
    out.append(" {\n");
    let f_ind = indent_lines("  ", factory.as_str());
    out.append(f_ind.as_str());
    let ghost before = out@;
    if has_private {
        out.append("\n  ");
        append_if(&mut out, class.private_constructor_is_const(), "const ");
        append2(&mut out, "_", n);
        out.append("._() : super._();");
    }
    proof {
        if !has_private {
            assert(out@ =~= before + opt_text(false, Seq::<char>::empty()));
        }
    }
    out.append("\n}");
    proof {
        assert(out@ =~= abstract_class_spec(class@));
    }
    Ok(out)
}

/// The constructor of the concrete class, after the shared constants that
/// hold the parameters' defaults.
pub open spec fn impl_constructor_spec(v: ValidClassModel) -> Seq<char> {
    let consts = concat_pieces(Piece::DefaultConst, v.factory.params, ""@);
    consts + opt_text(consts.len() > 0, "\n"@) + opt_text(v.factory.is_const, "const "@) + "_$"@ + v.name + "Impl({\n"@
        + indent_spec("  "@, concat_pieces(Piece::ConstructorParam, v.factory.params, ""@)) + "\n})"@
        + opt_text(v.private_constructor is Some, " : super._()"@) + ";"@
}

/// The constructor of the concrete class.
pub fn generate_impl_class_constructor(class: &ValidatedClass) -> (r: Result<String, GenerateError>)
    ensures
        r matches Ok(t) && t@ == impl_constructor_spec(class@),
{
    let n = class.name().as_str();
    let params = class.factory_constructor_params();
    let mut out = concat_text(&Piece::DefaultConst, params, "");
    let nonempty = out.as_str().unicode_len() > 0;
    append_if(&mut out, nonempty, "\n");
    append_if(&mut out, class.factory_constructor_is_const(), "const ");
    append2(&mut out, "_$", n);
    out.append("Impl({\n");
    let cp = concat_text(&Piece::ConstructorParam, params, "");
    let cp_ind = indent_lines("  ", cp.as_str());
    append2(&mut out, cp_ind.as_str(), "\n})");
    append_if(&mut out, class.private_constructor_exists(), " : super._()");
    out.append(";");
    proof {
        assert(out@ =~= impl_constructor_spec(class@));
    }
    Ok(out)
}

/// The fields of the concrete class.
pub open spec fn fields_spec(v: ValidClassModel) -> Seq<char> {
    concat_pieces(Piece::Field, v.factory.params, ""@)
}

/// One overriding field per parameter, in order.
pub fn generate_impl_class_overridden_fields(class: &ValidatedClass) -> (r: String)
    ensures
        r@ == fields_spec(class@),
{
    concat_text(&Piece::Field, class.factory_constructor_params(), "")
}

/// `toString`, listing `name: value` for every field in order.
pub open spec fn to_string_spec(diag: bool, v: ValidClassModel) -> Seq<char> {
    "@override\nString toString("@ + opt_text(diag, "{DiagnosticLevel minLevel = DiagnosticLevel.info}"@)
        + ") {\n  return '"@ + v.name + "("@ + join_pieces(Piece::ToStringField, v.factory.params, ", "@, ""@)
        + ")';\n}"@
}

/// The `toString` override of the concrete class.
pub fn generate_impl_class_to_string(file: &ValidatedFile, class: &ValidatedClass) -> (r: String)
    ensures
        r@ == to_string_spec(file.flutter_foundation_import_exists, class@),
{
    let fields = join_text(&Piece::ToStringField, class.factory_constructor_params(), ", ", "");
    let mut out = String::new();
    out.append("@override\nString toString(");
    append_if(&mut out, file.flutter_foundation_import_exists, "{DiagnosticLevel minLevel = DiagnosticLevel.info}");
    append2(&mut out, ") {\n  return '", class.name().as_str());
    append2(&mut out, "(", fields.as_str());
    out.append(")';\n}");
    proof {
        assert(out@ =~= to_string_spec(file.flutter_foundation_import_exists, class@));
    }
    out
}

/// `debugFillProperties`: a "type" property naming the class, then one
/// property per field. Empty without diagnostics support.
pub open spec fn debug_fill_spec(diag: bool, v: ValidClassModel) -> Seq<char> {
    if !diag {
        Seq::empty()
    } else {
        "@override\nvoid debugFillProperties(DiagnosticPropertiesBuilder properties) {\n  super.debugFillProperties(properties);\n  properties\n    ..add(DiagnosticsProperty('type', '"@
            + v.name + "'))\n"@ + indent_spec("    "@, join_pieces(Piece::DebugProperty, v.factory.params, "\n"@, ""@))
            + ";\n}"@
    }
}

/// The `debugFillProperties` override, or nothing without diagnostics support.
pub fn generate_debug_fill_properties(file: &ValidatedFile, class: &ValidatedClass) -> (r: String)
    ensures
        r@ == debug_fill_spec(file.flutter_foundation_import_exists, class@),
{
    if !file.flutter_foundation_import_exists {
        let e = String::new();
        assert(e@ =~= Seq::<char>::empty());
        return e;
    }
    let fields = join_text(&Piece::DebugProperty, class.factory_constructor_params(), "\n", "");
    let mut out = String::new();
    out.append("@override\nvoid debugFillProperties(DiagnosticPropertiesBuilder properties) {\n  super.debugFillProperties(properties);\n  properties\n    ..add(DiagnosticsProperty('type', '");
    append2(&mut out, class.name().as_str(), "'))\n");
    let ind = indent_lines("    ", fields.as_str());
    append2(&mut out, ind.as_str(), ";\n}");
    proof {
        assert(out@ =~= debug_fill_spec(true, class@));
    }
    out
}

/// `==`: the same runtime type, and every field identical or equal, in order.
pub open spec fn equality_spec(v: ValidClassModel) -> Seq<char> {
    "@override\nbool operator ==(Object other) {\n  return identical(this, other) ||\n    (other.runtimeType == runtimeType &&\n      other is _$"@
        + v.name + "Impl &&\n"@
        + indent_spec("      "@, join_pieces(Piece::EqualityCheck, v.factory.params, " &&\n"@, ""@) + "\n"@)
        + "\n  );\n}"@
}

/// The `==` override of the concrete class.
pub fn generate_impl_class_equality_operator(class: &ValidatedClass) -> (r: String)
    ensures
        r@ == equality_spec(class@),
{
    let mut checks = join_text(&Piece::EqualityCheck, class.factory_constructor_params(), " &&\n", "");
    checks.append("\n");
    let mut out = String::new();
    out.append("@override\nbool operator ==(Object other) {\n  return identical(this, other) ||\n    (other.runtimeType == runtimeType &&\n      other is _$");
    append2(&mut out, class.name().as_str(), "Impl &&\n");
    let ind = indent_lines("      ", checks.as_str());
    append2(&mut out, ind.as_str(), "\n  );\n}");
    proof {
        assert(out@ =~= equality_spec(class@));
    }
    out
}

/// The comparison of field `i` in `==`, followed by ` &&` unless it is the last.
pub open spec fn equality_line(ps: Seq<NamedParameterModel>, i: int) -> Seq<char> {
    piece(Piece::EqualityCheck, ps[i], ""@) + (if i < ps.len() - 1 { " &&\n"@ } else { "\n"@ })
}

/// The comparisons of fields `0..n`, one after another.
pub open spec fn equality_lines(ps: Seq<NamedParameterModel>, n: int) -> Seq<char>
    decreases n,
{
    if n <= 0 {
        Seq::empty()
    } else {
        equality_lines(ps, n - 1) + equality_line(ps, n - 1)
    }
}

/// The names of fields `0..n`, each followed by `,` and a newline.
pub open spec fn field_name_lines(ps: Seq<NamedParameterModel>, n: int) -> Seq<char>
    decreases n,
{
    if n <= 0 {
        Seq::empty()
    } else {
        field_name_lines(ps, n - 1) + ps[n - 1].name + ",\n"@
    }
}

proof fn lemma_equality_lines(ps: Seq<NamedParameterModel>, n: int)
    requires
        1 <= n <= ps.len(),
    ensures
        equality_lines(ps, n) == join_pieces(Piece::EqualityCheck, ps.take(n), " &&\n"@, ""@)
            + (if n < ps.len() { " &&\n"@ } else { "\n"@ }),
    decreases n,
{
    if n == 1 {
        assert(ps.take(1)[0] == ps[0]);
        assert(equality_lines(ps, 0) == Seq::<char>::empty());
        assert(equality_lines(ps, 1) =~= equality_line(ps, 0));
    } else {
        lemma_equality_lines(ps, n - 1);
        assert(ps.take(n).drop_last() =~= ps.take(n - 1));
        assert(ps.take(n).last() == ps[n - 1]);
        let j = join_pieces(Piece::EqualityCheck, ps.take(n - 1), " &&\n"@, ""@);
        let c = piece(Piece::EqualityCheck, ps[n - 1], ""@);
        let tail = if n < ps.len() { " &&\n"@ } else { "\n"@ };
        assert(equality_lines(ps, n) =~= (j + " &&\n"@ + c) + tail);
    }
}

proof fn lemma_field_name_lines(ps: Seq<NamedParameterModel>, n: int)
    requires
        0 <= n <= ps.len(),
    ensures
        field_name_lines(ps, n) == concat_pieces(Piece::HashField, ps.take(n), ""@),
    decreases n,
{
    if n > 0 {
        lemma_field_name_lines(ps, n - 1);
        assert(ps.take(n).drop_last() =~= ps.take(n - 1));
        assert(ps.take(n).last() == ps[n - 1]);
        assert(field_name_lines(ps, n) =~= concat_pieces(Piece::HashField, ps.take(n), ""@));
    } else {
        assert(ps.take(0) =~= Seq::<NamedParameterModel>::empty());
    }
}

/// Value equality and hashing: `==` holds when the runtime types match and
/// every field, in declaration order and no other, is identical or equal,
/// each comparison joined to the next by `&&`; `hashCode` hashes the runtime
/// type and the same fields in the same order. So instances with equal fields
/// compare and hash equal, and a change in any one field is seen by `==`.
pub proof fn lemma_equality_and_hash_fields(v: ValidClassModel)
    requires
        v.factory.params.len() > 0,
    ensures
        equality_spec(v) == "@override\nbool operator ==(Object other) {\n  return identical(this, other) ||\n    (other.runtimeType == runtimeType &&\n      other is _$"@
            + v.name + "Impl &&\n"@ + indent_spec("      "@, equality_lines(v.factory.params, v.factory.params.len() as int))
            + "\n  );\n}"@,
        hash_code_spec(v) == "@override\nint get hashCode => Object.hash(\n  runtimeType,\n"@
            + indent_spec("  "@, field_name_lines(v.factory.params, v.factory.params.len() as int)) + "\n);"@,
{
    let ps = v.factory.params;
    lemma_equality_lines(ps, ps.len() as int);
    lemma_field_name_lines(ps, ps.len() as int);
    assert(ps.take(ps.len() as int) =~= ps);
}

/// `hashCode`: the runtime type and every field, in the order of `==`.
pub open spec fn hash_code_spec(v: ValidClassModel) -> Seq<char> {
    "@override\nint get hashCode => Object.hash(\n  runtimeType,\n"@
        + indent_spec("  "@, concat_pieces(Piece::HashField, v.factory.params, ""@)) + "\n);"@
}

/// The `hashCode` override of the concrete class.
pub fn generate_impl_class_hash_code(class: &ValidatedClass) -> (r: String)
    ensures
        r@ == hash_code_spec(class@),
{
    let fields = concat_text(&Piece::HashField, class.factory_constructor_params(), "");
    let mut out = String::new();
    out.append("@override\nint get hashCode => Object.hash(\n  runtimeType,\n");
    let ind = indent_lines("  ", fields.as_str());
    append2(&mut out, ind.as_str(), "\n);");
    proof {
        assert(out@ =~= hash_code_spec(class@));
    }
    out
}

/// copy-with of the concrete class: one untyped optional parameter per field.
/// A nullable field's parameter defaults to the shared sentinel and keeps the
/// current value only when the argument is still the sentinel; any other
/// field keeps its value when the argument is null.
pub open spec fn copy_with_spec(v: ValidClassModel) -> Seq<char> {
    "@override\n"@ + v.name + " copyWith({\n"@
        + indent_spec("  "@, concat_pieces(Piece::CopyParam, v.factory.params, ""@))
        + "\n}) => _$"@ + v.name + "Impl(\n"@
        + indent_spec("  "@, concat_pieces(Piece::CopyArg, v.factory.params, ""@)) + "\n);"@
}

/// The copy-with method of the concrete class.
pub fn generate_impl_class_copy_with(class: &ValidatedClass) -> (r: String)
    ensures
        r@ == copy_with_spec(class@),
{
    let n = class.name().as_str();
    let params = class.factory_constructor_params();
    let ps = concat_text(&Piece::CopyParam, params, "");
    let args = concat_text(&Piece::CopyArg, params, "");
    let mut out = String::new();
    append2(&mut out, "@override\n", n);
    out.append(" copyWith({\n");
    let ps_ind = indent_lines("  ", ps.as_str());
    append2(&mut out, ps_ind.as_str(), "\n}) => _$");
    append2(&mut out, n, "Impl(\n");
    let args_ind = indent_lines("  ", args.as_str());
    append2(&mut out, args_ind.as_str(), "\n);");
    proof {
        assert(out@ =~= copy_with_spec(class@));
    }
    out
}

/// The sentinel type and its one shared instance.
pub open spec fn detect_default_spec() -> Seq<char> {
    "class _DetectDefaultValueInCopyWith {\n  const _DetectDefaultValueInCopyWith();\n}\nconst _DetectDefaultValueInCopyWith "@
        + DEFAULT_DETECTOR_VARIABLE@ + " = _DetectDefaultValueInCopyWith();"@
}

/// The declaration of the copy-with sentinel, emitted once per file.
pub fn generate_detect_default_class_and_constant() -> (r: String)
    ensures
        r@ == detect_default_spec(),
{
    let mut out = String::new();
    out.append("class _DetectDefaultValueInCopyWith {\n  const _DetectDefaultValueInCopyWith();\n}\nconst _DetectDefaultValueInCopyWith ");
    append2(&mut out, DEFAULT_DETECTOR_VARIABLE, " = _DetectDefaultValueInCopyWith();");
    proof {
        assert(out@ =~= detect_default_spec());
    }
    out
}

/// What the concrete class extends, mixes in and implements.
pub open spec fn impl_modifier_spec(diag: bool, v: ValidClassModel) -> Seq<char> {
    if v.private_constructor is Some {
        if diag {
            "extends _"@ + v.name + " with DiagnosticableTreeMixin"@
        } else {
            "extends _"@ + v.name
        }
    } else {
        if diag {
            "with DiagnosticableTreeMixin implements _"@ + v.name
        } else {
            "implements _"@ + v.name
        }
    }
}

fn impl_modifier(diag: bool, class: &ValidatedClass) -> (r: String)
    ensures
        r@ == impl_modifier_spec(diag, class@),
{
    let n = class.name().as_str();
    let mut out = String::new();
    if class.private_constructor_exists() {
        append2(&mut out, "extends _", n);
        if diag {
            out.append(" with DiagnosticableTreeMixin");
        }
    } else {
        if diag {
            out.append("with DiagnosticableTreeMixin implements _");
        } else {
            out.append("implements _");
        }
        out.append(n);
    }
    proof {
        assert(out@ =~= impl_modifier_spec(diag, class@));
    }
    out
}

/// The diagnostics part of the concrete class, with the blank line before it.
pub open spec fn impl_debug_part_spec(diag: bool, v: ValidClassModel) -> Seq<char> {
    opt_text(diag, "\n\n"@ + indent_spec("  "@, debug_fill_spec(diag, v)))
}

fn impl_debug_part(file: &ValidatedFile, class: &ValidatedClass) -> (r: String)
    ensures
        r@ == impl_debug_part_spec(file.flutter_foundation_import_exists, class@),
{
    let mut out = String::new();
    if file.flutter_foundation_import_exists {
        let dfp = generate_debug_fill_properties(file, class);
        let dfp_ind = indent_lines("  ", dfp.as_str());
        append2(&mut out, "\n\n", dfp_ind.as_str());
    }
    proof {
        assert(out@ =~= impl_debug_part_spec(file.flutter_foundation_import_exists, class@));
    }
    out
}

/// The concrete class: constructor, fields, `toString`, diagnostics when the
/// file opts in, `==`, `hashCode` and copy-with.
pub open spec fn impl_class_spec(diag: bool, v: ValidClassModel) -> Seq<char> {
    "/// @nodoc\nclass _$"@ + v.name + "Impl "@ + impl_modifier_spec(diag, v) + " {\n"@
        + indent_spec("  "@, impl_constructor_spec(v)) + "\n\n"@
        + indent_spec("  "@, fields_spec(v)) + "\n\n"@
        + indent_spec("  "@, to_string_spec(diag, v)) + impl_debug_part_spec(diag, v) + "\n\n"@
        + indent_spec("  "@, equality_spec(v)) + "\n\n"@
        + indent_spec("  "@, hash_code_spec(v)) + "\n\n"@
        + indent_spec("  "@, copy_with_spec(v)) + "\n}"@
}

/// Appends `s` indented by two spaces, then `tail`.
fn append_indented(out: &mut String, s: &str, tail: &str)
    ensures
        final(out)@ == old(out)@ + indent_spec("  "@, s@) + tail@,
{
    let ind = indent_lines("  ", s);
    append2(out, ind.as_str(), tail);
}

/// The concrete implementation of a validated class.
pub fn generate_impl_class(file: &ValidatedFile, class: &ValidatedClass) -> (r: Result<String, GenerateError>)
    ensures
        r matches Ok(t) && t@ == impl_class_spec(file.flutter_foundation_import_exists, class@),
{
    let n = class.name().as_str();
    let diag = file.flutter_foundation_import_exists;
    let mut out = String::new();
    append2(&mut out, "/// @nodoc\nclass _$", n);
    let modifier = impl_modifier(diag, class);
    append2(&mut out, "Impl ", modifier.as_str());
    out.append(" {\n");
    let ctor = match generate_impl_class_constructor(class) {
        Ok(c) => c,
        Err(e) => return Err(e),
    };
    append_indented(&mut out, ctor.as_str(), "\n\n");
    let fields = generate_impl_class_overridden_fields(class);
    append_indented(&mut out, fields.as_str(), "\n\n");
    let ts = generate_impl_class_to_string(file, class);
    let dbg = impl_debug_part(file, class);
    append_indented(&mut out, ts.as_str(), dbg.as_str());
    out.append("\n\n");
    let eq = generate_impl_class_equality_operator(class);
    append_indented(&mut out, eq.as_str(), "\n\n");
    let hc = generate_impl_class_hash_code(class);
    append_indented(&mut out, hc.as_str(), "\n\n");
    let cw = generate_impl_class_copy_with(class);
    append_indented(&mut out, cw.as_str(), "\n}");
    proof {
        assert(Seq::<char>::empty() + "/// @nodoc\nclass _$"@ =~= "/// @nodoc\nclass _$"@);
    }
    Ok(out)
}

/// An unused alternative exception declaration for private-constructor calls.
pub open spec fn final_variable_for_exception_spec() -> Seq<char> {
    "final _privateConstructorCalledException = Exception('A class was instantiated with a private constructor. Please instantiate the class with a factory constructor instead.');"@
}

/// An exception declaration for calls of a private constructor.
pub fn generate_final_variable_for_exception() -> (r: String)
    ensures
        r@ == final_variable_for_exception_spec(),
{
    let mut out = String::new();
    out.append("final _privateConstructorCalledException = Exception('A class was instantiated with a private constructor. Please instantiate the class with a factory constructor instead.');");
    out
}

} // verus!
