//! Per-parameter text fragments of the generated code, and their concatenations.
use vstd::prelude::*;
use crate::data_type::nullable_text;
use crate::parameters::{default_of, views_of_parameters, NamedParameter, NamedParameterModel};

verus! {

/// The name of the shared sentinel that copy-with uses to tell "not passed"
/// from "passed null".
pub const DEFAULT_DETECTOR_VARIABLE: &'static str = "_detectDefaultValueInCopyWith";

/// Which fragment to write for a parameter.
pub enum Piece {
    /// A throwing getter of the placeholder base, which throws the exception
    /// named by the extra text.
    MixinGetter,
    /// A copy-with parameter of the placeholder base, with a nullable type.
    CopyWithType,
    /// A parameter of the abstract factory.
    AbstractParam,
    /// The shared constant that holds a parameter's default, if it has one.
    DefaultConst,
    /// A parameter of the concrete constructor.
    ConstructorParam,
    /// A field of the concrete class.
    Field,
    /// `name: $name` in `toString`.
    ToStringField,
    /// A diagnostics property.
    DebugProperty,
    /// The comparison of one field in `==`.
    EqualityCheck,
    /// One field in `hashCode`.
    HashField,
    /// A parameter of copy-with in the concrete class.
    CopyParam,
    /// An argument of copy-with in the concrete class.
    CopyArg,
}

pub open spec fn opt_text(c: bool, t: Seq<char>) -> Seq<char> {
    if c {
        t
    } else {
        Seq::empty()
    }
}

/// The fragment `k` for parameter `p`.
pub open spec fn piece(k: Piece, p: NamedParameterModel, extra: Seq<char>) -> Seq<char> {
    let n = p.name;
    let t = p.type_text;
    match k {
        Piece::MixinGetter => "  "@ + t + " get "@ + n + " => throw "@ + extra + ";"@,
        Piece::CopyWithType => nullable_text(t, p.nullable) + " "@ + n + ",\n"@,
        Piece::AbstractParam => opt_text(p.required, "required "@) + t + " "@ + n + ",\n"@,
        Piece::DefaultConst => match default_of(p) {
            Some(d) => "static const "@ + t + " _"@ + n + "DefaultValue = "@ + d + ";\n"@,
            None => Seq::empty(),
        },
        Piece::ConstructorParam => opt_text(p.required, "required "@) + "this."@ + n
            + opt_text(default_of(p) is Some, " = _"@ + n + "DefaultValue"@) + ",\n"@,
        Piece::Field => "@override\nfinal "@ + t + " "@ + n + ";\n"@,
        Piece::ToStringField => n + ": $"@ + n,
        Piece::DebugProperty => "..add(DiagnosticsProperty('"@ + n + "', "@ + n + "))"@,
        Piece::EqualityCheck => "(identical(other."@ + n + ", "@ + n + ") ||\n  other."@ + n + " == "@ + n + ")"@,
        Piece::HashField => n + ",\n"@,
        Piece::CopyParam => "Object? "@ + n + opt_text(p.nullable, " = "@ + DEFAULT_DETECTOR_VARIABLE@) + ",\n"@,
        Piece::CopyArg => if p.nullable {
            n + ": ("@ + n + " == "@ + DEFAULT_DETECTOR_VARIABLE@ + " ? this."@ + n + " : "@ + n + ") as "@ + t + ",\n"@
        } else {
            n + ": ("@ + n + " ?? this."@ + n + ") as "@ + t + ",\n"@
        },
    }
}

/// The fragments of all parameters, one after another.
pub open spec fn concat_pieces(k: Piece, ps: Seq<NamedParameterModel>, extra: Seq<char>) -> Seq<char>
    decreases ps.len(),
{
    if ps.len() == 0 {
        Seq::empty()
    } else {
        concat_pieces(k, ps.drop_last(), extra) + piece(k, ps.last(), extra)
    }
}

/// The fragments of all parameters, separated by `sep`.
pub open spec fn join_pieces(k: Piece, ps: Seq<NamedParameterModel>, sep: Seq<char>, extra: Seq<char>) -> Seq<char>
    decreases ps.len(),
{
    if ps.len() == 0 {
        Seq::empty()
    } else if ps.len() == 1 {
        piece(k, ps[0], extra)
    } else {
        join_pieces(k, ps.drop_last(), sep, extra) + sep + piece(k, ps.last(), extra)
    }
}

/// Copy-with and nullability: the parameter of a nullable field defaults to
/// the shared sentinel, and the field keeps its current value only when the
/// argument is still that sentinel, so an explicit null sets it to null; the
/// parameter of any other field has no default, and the field keeps its value
/// when the argument is null.
pub proof fn lemma_copy_with_sentinel(p: NamedParameterModel, extra: Seq<char>)
    ensures
        p.nullable ==> piece(Piece::CopyParam, p, extra) == "Object? "@ + p.name + " = "@ + DEFAULT_DETECTOR_VARIABLE@ + ",\n"@,
        p.nullable ==> piece(Piece::CopyArg, p, extra) == p.name + ": ("@ + p.name + " == "@ + DEFAULT_DETECTOR_VARIABLE@
            + " ? this."@ + p.name + " : "@ + p.name + ") as "@ + p.type_text + ",\n"@,
        !p.nullable ==> piece(Piece::CopyParam, p, extra) == "Object? "@ + p.name + ",\n"@,
        !p.nullable ==> piece(Piece::CopyArg, p, extra) == p.name + ": ("@ + p.name + " ?? this."@ + p.name + ") as "@
            + p.type_text + ",\n"@,
{
    assert("Object? "@ + p.name + Seq::<char>::empty() =~= "Object? "@ + p.name);
    assert(("Object? "@ + p.name + " = "@) + DEFAULT_DETECTOR_VARIABLE@ =~= "Object? "@ + p.name + (" = "@ + DEFAULT_DETECTOR_VARIABLE@));
}

/// Appends `lit` to `out` when `c` holds.
pub fn append_if(out: &mut String, c: bool, lit: &str)
    ensures
        final(out)@ == old(out)@ + opt_text(c, lit@),
{
    if c {
        out.append(lit);
    } else {
        assert(out@ =~= out@ + Seq::<char>::empty());
    }
}

/// The fragment `k` for parameter `p`.
pub fn piece_text(k: &Piece, p: &NamedParameter, extra: &str) -> (r: String)
    ensures
        r@ == piece(*k, p@, extra@),
{
    let n = p.name.as_str();
    let t = p.parameter_type.to_text();
    let mut out = String::new();
    match k {
        Piece::MixinGetter => {
            out.append("  ");
            out.append(t.as_str());
            out.append(" get ");
            out.append(n);
            out.append(" => throw ");
            out.append(extra);
            out.append(";");
        },
        Piece::CopyWithType => {
            let nt = p.parameter_type.to_nullable().to_text();
            out.append(nt.as_str());
            out.append(" ");
            out.append(n);
            out.append(",\n");
        },
        Piece::AbstractParam => {
            append_if(&mut out, p.required, "required ");
            out.append(t.as_str());
            out.append(" ");
            out.append(n);
            out.append(",\n");
        },
        Piece::DefaultConst => {
            match p.default_annotation() {
                Some(d) => {
                    out.append("static const ");
                    out.append(t.as_str());
                    out.append(" _");
                    out.append(n);
                    out.append("DefaultValue = ");
                    out.append(d.as_str());
                    out.append(";\n");
                },
                None => {},
            }
        },
        Piece::ConstructorParam => {
            append_if(&mut out, p.required, "required ");
            out.append("this.");
            out.append(n);
            let has_default = p.default_annotation().is_some();
            if has_default {
                out.append(" = _");
                out.append(n);
                out.append("DefaultValue");
            }
            proof {
                if !has_default {
                    assert(out@ =~= out@ + opt_text(false, " = _"@ + n@ + "DefaultValue"@));
                }
            }
            out.append(",\n");
        },
        Piece::Field => {
            out.append("@override\nfinal ");
            out.append(t.as_str());
            out.append(" ");
            out.append(n);
            out.append(";\n");
        },
        Piece::ToStringField => {
            out.append(n);
            out.append(": $");
            out.append(n);
        },
        Piece::DebugProperty => {
            out.append("..add(DiagnosticsProperty('");
            out.append(n);
            out.append("', ");
            out.append(n);
            out.append("))");
        },
        Piece::EqualityCheck => {
            out.append("(identical(other.");
            out.append(n);
            out.append(", ");
            out.append(n);
            out.append(") ||\n  other.");
            out.append(n);
            out.append(" == ");
            out.append(n);
            out.append(")");
        },
        Piece::HashField => {
            out.append(n);
            out.append(",\n");
        },
        Piece::CopyParam => {
            out.append("Object? ");
            out.append(n);
            if p.parameter_type.nullable {
                out.append(" = ");
                out.append(DEFAULT_DETECTOR_VARIABLE);
            }
            proof {
                if !p.parameter_type.nullable {
                    assert(out@ =~= out@ + opt_text(false, " = "@ + DEFAULT_DETECTOR_VARIABLE@));
                }
            }
            out.append(",\n");
        },
        Piece::CopyArg => {
            if p.parameter_type.nullable {
                out.append(n);
                out.append(": (");
                out.append(n);
                out.append(" == ");
                out.append(DEFAULT_DETECTOR_VARIABLE);
                out.append(" ? this.");
                out.append(n);
                out.append(" : ");
                out.append(n);
                out.append(") as ");
                out.append(t.as_str());
                out.append(",\n");
            } else {
                out.append(n);
                out.append(": (");
                out.append(n);
                out.append(" ?? this.");
                out.append(n);
                out.append(") as ");
                out.append(t.as_str());
                out.append(",\n");
            }
        },
    }
    proof {
        assert(out@ =~= piece(*k, p@, extra@));
    }
    out
}

/// The fragments of all parameters, one after another.
pub fn concat_text(k: &Piece, ps: &Vec<NamedParameter>, extra: &str) -> (r: String)
    ensures
        r@ == concat_pieces(*k, views_of_parameters(ps@), extra@),
{
    let mut out = String::new();
    let mut i: usize = 0;
    while i < ps.len()
        invariant
            i <= ps@.len(),
            out@ == concat_pieces(*k, views_of_parameters(ps@.take(i as int)), extra@),
        decreases ps.len() - i,
    {
        let t = piece_text(k, &ps[i], extra);
        proof {
            let prev = views_of_parameters(ps@.take(i as int));
            assert(views_of_parameters(ps@.take(i + 1)) =~= prev.push(ps@[i as int]@));
            assert(prev.push(ps@[i as int]@).drop_last() =~= prev);
        }
        out.append(t.as_str());
        i = i + 1;
    }
    assert(ps@.take(i as int) =~= ps@);
    out
}

/// The fragments of all parameters, separated by `sep`.
pub fn join_text(k: &Piece, ps: &Vec<NamedParameter>, sep: &str, extra: &str) -> (r: String)
    ensures
        r@ == join_pieces(*k, views_of_parameters(ps@), sep@, extra@),
{
    let mut out = String::new();
    let mut i: usize = 0;
    while i < ps.len()
        invariant
            i <= ps@.len(),
            out@ == join_pieces(*k, views_of_parameters(ps@.take(i as int)), sep@, extra@),
        decreases ps.len() - i,
    {
        let t = piece_text(k, &ps[i], extra);
        proof {
            let prev = views_of_parameters(ps@.take(i as int));
            assert(views_of_parameters(ps@.take(i + 1)) =~= prev.push(ps@[i as int]@));
            assert(prev.push(ps@[i as int]@).drop_last() =~= prev);
        }
        if i > 0 {
            out.append(sep);
        }
        out.append(t.as_str());
        proof {
            if i == 0 {
                assert(out@ =~= piece(*k, ps@[0]@, extra@));
            }
        }
        i = i + 1;
    }
    assert(ps@.take(i as int) =~= ps@);
    out
}

} // verus!
