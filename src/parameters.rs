//! Named parameters of a factory constructor, such as `@Default(0) required int x`.
use vstd::prelude::*;
use crate::lexer::{wsc_end, ident_end, wsc_at, identifier_at, keyword_at, finish, Identifier, ParseError};
use crate::annotation::{
    annotations_spec, annotations_at, views_of_annotations, is_default_name, Annotation, AnnotationModel,
};
use crate::data_type::{data_type_spec, data_type_at, model_text, render, DataType};
use crate::text::{chars_of, starts_at};

verus! {

/// What a named parameter holds; its type is given by its text and nullability.
pub struct NamedParameterModel {
    pub annotations: Seq<AnnotationModel>,
    pub required: bool,
    pub type_text: Seq<char>,
    pub nullable: bool,
    pub name: Seq<char>,
}

/// A named parameter: annotations, the `required` flag, a type and a name.
#[derive(Debug, PartialEq, Eq)]
pub struct NamedParameter {
    pub annotations: Vec<Annotation>,
    pub required: bool,
    pub parameter_type: DataType,
    pub name: Identifier,
}

impl View for NamedParameter {
    type V = NamedParameterModel;

    open spec fn view(&self) -> NamedParameterModel {
        NamedParameterModel {
            annotations: views_of_annotations(self.annotations@),
            required: self.required,
            type_text: render(self.parameter_type),
            nullable: self.parameter_type.nullable,
            name: self.name@,
        }
    }
}

pub open spec fn views_of_parameters(v: Seq<NamedParameter>) -> Seq<NamedParameterModel> {
    v.map_values(|p: NamedParameter| p@)
}

/// Index of the first default-value annotation among `a[from..]`, if any.
pub open spec fn first_default_from(a: Seq<AnnotationModel>, from: int) -> Option<int>
    decreases a.len() - from,
{
    if from < 0 || from >= a.len() {
        None
    } else if is_default_name(a[from].name) {
        Some(from)
    } else {
        first_default_from(a, from + 1)
    }
}

/// The default expression of a parameter: the parameter text of its first
/// default-value annotation.
pub open spec fn default_of(p: NamedParameterModel) -> Option<Seq<char>> {
    match first_default_from(p.annotations, 0) {
        Some(k) => Some(p.annotations[k].parameters),
        None => None,
    }
}

/// How many default-value annotations `a[..n]` holds.
pub open spec fn count_defaults(a: Seq<AnnotationModel>, n: int) -> nat
    decreases n,
{
    if n <= 0 || n > a.len() {
        0
    } else {
        count_defaults(a, n - 1) + if is_default_name(a[n - 1].name) { 1nat } else { 0nat }
    }
}

impl NamedParameter {
    /// The default expression given by a default-value annotation, if any.
    pub fn default_annotation(&self) -> (r: Option<String>)
        ensures
            match default_of(self@) {
                Some(t) => r matches Some(x) && x@ == t,
                None => r is None,
            },
    {
        let mut k: usize = 0;
        while k < self.annotations.len()
            invariant
                k <= self.annotations@.len(),
                first_default_from(self@.annotations, 0) == first_default_from(self@.annotations, k as int),
            decreases self.annotations.len() - k,
        {
            if self.annotations[k].is_default_annotation() {
                return Some(self.annotations[k].parameters.clone());
            }
            k = k + 1;
        }
        None
    }

    /// A copy with the same contents.
    pub fn duplicate(&self) -> (r: NamedParameter)
        ensures
            r@ == self@,
    {
        let mut anns: Vec<Annotation> = Vec::new();
        let mut k: usize = 0;
        while k < self.annotations.len()
            invariant
                k <= self.annotations@.len(),
                views_of_annotations(anns@) == views_of_annotations(self.annotations@.take(k as int)),
            decreases self.annotations.len() - k,
        {
            let a = self.annotations[k].duplicate();
            proof {
                assert(views_of_annotations(self.annotations@.take(k + 1)) =~= views_of_annotations(self.annotations@.take(k as int)).push(a@));
                assert(views_of_annotations(anns@.push(a)) =~= views_of_annotations(anns@).push(a@));
            }
            anns.push(a);
            k = k + 1;
        }
        assert(self.annotations@.take(k as int) =~= self.annotations@);
        NamedParameter {
            annotations: anns,
            required: self.required,
            parameter_type: self.parameter_type.duplicate(),
            name: self.name.duplicate(),
        }
    }
}

/// Annotations, an optional `required` keyword, a data type and a name.
pub open spec fn named_parameter_spec(s: Seq<char>, i: int) -> Option<(int, NamedParameterModel)> {
    let (a, anns) = annotations_spec(s, i);
    let b = wsc_end(s, a);
    let required = starts_at(s, b, "required "@);
    let c = if required { b + "required "@.len() } else { b };
    let d = wsc_end(s, c);
    match data_type_spec(s, d) {
        None => None,
        Some((e, m)) => {
            let f = wsc_end(s, e);
            match ident_end(s, f) {
                None => None,
                Some(g) => Some((g, NamedParameterModel {
                    annotations: anns,
                    required,
                    type_text: model_text(m),
                    nullable: m.nullable,
                    name: s.subrange(f, g),
                })),
            }
        },
    }
}

/// Parses the named parameter at `i`.
pub fn named_parameter_at(s: &Vec<char>, i: usize) -> (r: Option<(usize, NamedParameter)>)
    requires
        i <= s@.len(),
    ensures
        match named_parameter_spec(s@, i as int) {
            Some((e, m)) => r matches Some((end, p)) && end == e && p@ == m,
            None => r is None,
        },
        r matches Some((end, _)) ==> i < end <= s@.len(),
{
    let (a, annotations) = annotations_at(s, i);
    let b = wsc_at(s, a);
    let required = keyword_at(s, b, "required ");
    let c = if required {
        proof { reveal_strlit("required "); }
        assert("required "@.len() == 9);
        assert(b + 9 <= s@.len());
        assert(s@.len() == s.len());
        b + 9
    } else {
        b
    };
    let d = wsc_at(s, c);
    match data_type_at(s, d) {
        None => None,
        Some((e, parameter_type)) => {
            let f = wsc_at(s, e);
            match identifier_at(s, f) {
                None => None,
                Some((g, name)) => Some((g, NamedParameter { annotations, required, parameter_type, name })),
            }
        },
    }
}

/// Further `, parameter` elements after the list `acc` that ends at `f`.
pub open spec fn more_params_spec(s: Seq<char>, f: int, acc: Seq<NamedParameterModel>) -> (int, Seq<NamedParameterModel>)
    decreases s.len() - f,
{
    let g = wsc_end(s, f);
    if 0 <= f <= g && g < s.len() && s[g] == ',' {
        let h = wsc_end(s, g + 1);
        match named_parameter_spec(s, h) {
            Some((k, m)) => if f < k <= s.len() {
                more_params_spec(s, k, acc.push(m))
            } else {
                (f, acc)
            },
            None => (f, acc),
        }
    } else {
        (f, acc)
    }
}

/// Zero or more comma-separated named parameters, with one optional trailing
/// comma; a leading comma is refused.
pub open spec fn named_parameters_spec(s: Seq<char>, i: int) -> Option<(int, Seq<NamedParameterModel>)> {
    let a = wsc_end(s, i);
    if 0 <= a < s.len() && s[a] == ',' {
        None
    } else {
        let (p, ps) = match named_parameter_spec(s, a) {
            None => (a, Seq::<NamedParameterModel>::empty()),
            Some((f, m)) => more_params_spec(s, f, seq![m]),
        };
        let q = wsc_end(s, p);
        if 0 <= q < s.len() && s[q] == ',' {
            Some((q + 1, ps))
        } else {
            Some((q, ps))
        }
    }
}

/// Parses zero or more named parameters at `i`.
pub fn named_parameters_at(s: &Vec<char>, i: usize) -> (r: Option<(usize, Vec<NamedParameter>)>)
    requires
        i <= s@.len(),
    ensures
        match named_parameters_spec(s@, i as int) {
            Some((e, ms)) => r matches Some((end, v)) && end == e && views_of_parameters(v@) == ms,
            None => r is None,
        },
        r matches Some((end, _)) ==> i <= end <= s@.len(),
{
    let a = wsc_at(s, i);
    if a < s.len() && s[a] == ',' {
        return None;
    }
    let mut v: Vec<NamedParameter> = Vec::new();
    let p: usize = match named_parameter_at(s, a) {
        None => {
            assert(views_of_parameters(v@) =~= Seq::<NamedParameterModel>::empty());
            a
        },
        Some((f, first)) => {
            proof {
                assert(views_of_parameters(v@.push(first)) =~= seq![first@]);
            }
            v.push(first);
            let mut p: usize = f;
            loop
                invariant
                    i <= p <= s@.len(),
                    more_params_spec(s@, f as int, seq![first@]) == more_params_spec(s@, p as int, views_of_parameters(v@)),
                ensures
                    i <= p <= s@.len(),
                    more_params_spec(s@, f as int, seq![first@]) == (p as int, views_of_parameters(v@)),
                decreases s@.len() - p,
            {
                let g = wsc_at(s, p);
                if !(g < s.len() && s[g] == ',') {
                    assert(more_params_spec(s@, p as int, views_of_parameters(v@)) == (p as int, views_of_parameters(v@)));
                    break;
                }
                let h = wsc_at(s, g + 1);
                match named_parameter_at(s, h) {
                    Some((k, m)) => {
                        proof {
                            assert(views_of_parameters(v@.push(m)) =~= views_of_parameters(v@).push(m@));
                        }
                        v.push(m);
                        p = k;
                    },
                    None => {
                        assert(more_params_spec(s@, p as int, views_of_parameters(v@)) == (p as int, views_of_parameters(v@)));
                        break;
                    },
                }
            }
            assert(more_params_spec(s@, f as int, seq![first@]) == (p as int, views_of_parameters(v@)));
            p
        },
    };
    assert(named_parameters_spec(s@, i as int) matches Some((_, ms)) && ms == views_of_parameters(v@)
        && wsc_end(s@, p as int) == wsc_end(s@, (match named_parameter_spec(s@, a as int) {
            None => (a as int, Seq::<NamedParameterModel>::empty()),
            Some((f, m)) => more_params_spec(s@, f, seq![m]),
        }).0));
    let q = wsc_at(s, p);
    if q < s.len() && s[q] == ',' {
        Some((q + 1, v))
    } else {
        Some((q, v))
    }
}

/// Parses a named parameter at the start of `input`.
pub fn named_parameter(input: &str) -> (r: Result<(String, NamedParameter), ParseError>)
    ensures
        match named_parameter_spec(input@, 0) {
            Some((e, m)) => r matches Ok((rest, p)) && rest@ == input@.subrange(e, input@.len() as int) && p@ == m,
            None => r is Err,
        },
{
    let s = chars_of(input);
    let p = named_parameter_at(&s, 0);
    finish(&s, p)
}

/// Parses zero or more named parameters at the start of `input`.
pub fn named_parameters0(input: &str) -> (r: Result<(String, Vec<NamedParameter>), ParseError>)
    ensures
        match named_parameters_spec(input@, 0) {
            Some((e, ms)) => r matches Ok((rest, v)) && rest@ == input@.subrange(e, input@.len() as int)
                && views_of_parameters(v@) == ms,
            None => r is Err,
        },
{
    let s = chars_of(input);
    let p = named_parameters_at(&s, 0);
    finish(&s, p)
}

} // verus!
