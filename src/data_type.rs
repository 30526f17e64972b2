//! Data types such as `List<Map<String, int>>?`.
use vstd::prelude::*;
use crate::lexer::{wsc_end, ident_end, unit_end, space_end, is_space, is_ident_start, is_ident_char, ident_run_end, wsc_at, identifier_at, trailing_comma_end, trailing_comma_at, finish, Identifier, ParseError};
use crate::text::{chars_of, push_char, starts_at};

verus! {

broadcast use vstd::std_specs::vec::group_vec_axioms;

/// A data type: a name, its type arguments, and whether it is nullable.
#[derive(Debug, PartialEq, Eq)]
pub struct DataType {
    pub name: Identifier,
    pub nullable: bool,
    pub type_args: Vec<DataType>,
}

/// The source text of a data type: the name, then `<args>` if there are any,
/// then `?` if it is nullable.
pub open spec fn render(d: DataType) -> Seq<char>
    decreases d,
{
    d.name@ + (if d.type_args@.len() == 0 {
        Seq::<char>::empty()
    } else {
        seq!['<'] + render_args(d.type_args@) + seq!['>']
    }) + (if d.nullable {
        seq!['?']
    } else {
        Seq::<char>::empty()
    })
}

/// The type arguments' texts joined by `, `.
pub open spec fn render_args(ts: Seq<DataType>) -> Seq<char>
    decreases ts,
{
    if ts.len() == 0 {
        Seq::<char>::empty()
    } else if ts.len() == 1 {
        render(ts[0])
    } else {
        render_args(ts.drop_last()) + seq![',', ' '] + render(ts.last())
    }
}

/// What a data type holds: its name, whether it is nullable, and its type
/// arguments in order.
pub struct DataTypeModel {
    pub name: Seq<char>,
    pub nullable: bool,
    pub type_args: Seq<DataTypeModel>,
}

/// The model of a data type.
pub open spec fn model_of(d: DataType) -> DataTypeModel
    decreases d,
{
    DataTypeModel { name: d.name@, nullable: d.nullable, type_args: models_of(d.type_args@) }
}

/// The models of data types, in order.
pub open spec fn models_of(ts: Seq<DataType>) -> Seq<DataTypeModel>
    decreases ts,
{
    if ts.len() == 0 {
        Seq::empty()
    } else {
        models_of(ts.drop_last()).push(model_of(ts.last()))
    }
}

/// The source text of a data type model, as `render` gives it for a value.
pub open spec fn model_text(m: DataTypeModel) -> Seq<char>
    decreases m,
{
    m.name + (if m.type_args.len() == 0 {
        Seq::<char>::empty()
    } else {
        seq!['<'] + model_args_text(m.type_args) + seq!['>']
    }) + (if m.nullable {
        seq!['?']
    } else {
        Seq::<char>::empty()
    })
}

/// The texts of type argument models joined by `, `.
pub open spec fn model_args_text(ms: Seq<DataTypeModel>) -> Seq<char>
    decreases ms,
{
    if ms.len() == 0 {
        Seq::<char>::empty()
    } else if ms.len() == 1 {
        model_text(ms[0])
    } else {
        model_args_text(ms.drop_last()) + seq![',', ' '] + model_text(ms.last())
    }
}

/// A value renders as its model does.
pub proof fn lemma_render_model(d: DataType)
    ensures
        render(d) == model_text(model_of(d)),
    decreases d,
{
    lemma_render_args_model(d.type_args@);
}

/// Type arguments render as their models do.
pub proof fn lemma_render_args_model(ts: Seq<DataType>)
    ensures
        render_args(ts) == model_args_text(models_of(ts)),
        models_of(ts).len() == ts.len(),
    decreases ts,
{
    if ts.len() > 0 {
        lemma_render_args_model(ts.drop_last());
        lemma_render_model(ts.last());
        let ms = models_of(ts);
        assert(ms.drop_last() =~= models_of(ts.drop_last()));
        if ts.len() == 1 {
            assert(ts.last() == ts[0]);
            assert(ms[0] == model_of(ts[0]));
        }
    }
}

proof fn lemma_models_push(ts: Seq<DataType>, d: DataType)
    ensures
        models_of(ts.push(d)) == models_of(ts).push(model_of(d)),
{
    assert(ts.push(d).drop_last() =~= ts);
}

/// The text of the nullable form of a type whose text is `t`.
pub open spec fn nullable_text(t: Seq<char>, nullable: bool) -> Seq<char> {
    if nullable {
        t
    } else {
        t + seq!['?']
    }
}

/// An identifier, optional `<` type arguments `>`, optional `?`, with lexical
/// noise around each part. `Some((end, model))` on success.
pub open spec fn data_type_spec(s: Seq<char>, i: int) -> Option<(int, DataTypeModel)>
    decreases s.len() - i, 1int,
{
    let a = wsc_end(s, i);
    match ident_end(s, a) {
        None => None,
        Some(b) => {
            let c = wsc_end(s, b);
            if !(0 <= i <= a && a < b && b <= c <= s.len()) {
                None
            } else {
                let (d, args) = match generics_spec(s, c) {
                    Some((d, ms)) => (d, ms),
                    None => (c, Seq::<DataTypeModel>::empty()),
                };
                let e = wsc_end(s, d);
                let nullable = 0 <= e < s.len() && s[e] == '?';
                let f = if nullable { wsc_end(s, e + 1) } else { e };
                Some((f, DataTypeModel { name: s.subrange(a, b), nullable, type_args: args }))
            }
        },
    }
}

/// `<`, one or more comma-separated data types, `>`. `Some((end, models))`.
pub open spec fn generics_spec(s: Seq<char>, c: int) -> Option<(int, Seq<DataTypeModel>)>
    decreases s.len() - c, 3int,
{
    if 0 <= c < s.len() && s[c] == '<' {
        let e = wsc_end(s, c + 1);
        if !(c + 1 <= e <= s.len()) {
            None
        } else {
            match type_list_spec(s, e) {
                Some((f, ms)) => {
                    let g = wsc_end(s, f);
                    if 0 <= g < s.len() && s[g] == '>' {
                        Some((g + 1, ms))
                    } else {
                        None
                    }
                },
                None => None,
            }
        }
    } else {
        None
    }
}

/// One or more comma-separated data types, with one optional trailing comma;
/// a leading comma is refused.
pub open spec fn type_list_spec(s: Seq<char>, e: int) -> Option<(int, Seq<DataTypeModel>)>
    decreases s.len() - e, 2int,
{
    let e1 = wsc_end(s, e);
    if !(0 <= e <= e1 <= s.len()) || (e1 < s.len() && s[e1] == ',') {
        None
    } else {
        match data_type_spec(s, e1) {
            Some((f, m)) => if e1 < f <= s.len() {
                let (g, all) = more_types_spec(s, f, seq![m]);
                Some((trailing_comma_end(s, g), all))
            } else {
                None
            },
            None => None,
        }
    }
}

/// Further `, type` elements after the list `acc` that ends at `f`.
pub open spec fn more_types_spec(s: Seq<char>, f: int, acc: Seq<DataTypeModel>) -> (int, Seq<DataTypeModel>)
    decreases s.len() - f, 2int,
{
    let g = wsc_end(s, f);
    if 0 <= f <= g && g < s.len() && s[g] == ',' {
        let h = wsc_end(s, g + 1);
        if g + 1 <= h <= s.len() {
            match data_type_spec(s, h) {
                Some((k, m)) => if f < k <= s.len() {
                    more_types_spec(s, k, acc.push(m))
                } else {
                    (f, acc)
                },
                None => (f, acc),
            }
        } else {
            (f, acc)
        }
    } else {
        (f, acc)
    }
}

proof fn lemma_render_args_push(ts: Seq<DataType>, d: DataType)
    ensures
        render_args(ts.push(d)) == if ts.len() == 0 {
            render(d)
        } else {
            render_args(ts) + seq![',', ' '] + render(d)
        },
{
    assert(ts.push(d).drop_last() =~= ts);
    if ts.len() == 0 {
        assert(ts.push(d)[0] == d);
    }
}

/// Appends `c` to `t`.
fn push_to(t: &mut String, c: char)
    ensures
        final(t)@ == old(t)@ + seq![c],
{
    push_char(t, c);
    assert(old(t)@.push(c) =~= old(t)@ + seq![c]);
}

/// Parses the data type at `i`.
pub fn data_type_at(s: &Vec<char>, i: usize) -> (r: Option<(usize, DataType)>)
    requires
        i <= s@.len(),
    ensures
        match data_type_spec(s@, i as int) {
            Some((e, m)) => r matches Some((end, d)) && end == e && model_of(d) == m && render(d) == model_text(m)
                && d.nullable == m.nullable,
            None => r is None,
        },
        r matches Some((end, _)) ==> i < end <= s@.len(),
    decreases s@.len() - i, 1int,
{
    let a = wsc_at(s, i);
    match identifier_at(s, a) {
        None => None,
        Some((b, name)) => {
            let c = wsc_at(s, b);
            let (d, type_args) = match generics_at(s, c) {
                Some((d, args)) => (d, args),
                None => (c, Vec::new()),
            };
            let e = wsc_at(s, d);
            let nullable = e < s.len() && s[e] == '?';
            let f = if nullable { wsc_at(s, e + 1) } else { e };
            let r = DataType { name, nullable, type_args };
            proof {
                lemma_render_model(r);
            }
            Some((f, r))
        },
    }
}

/// Parses `<` type arguments `>` at `c`.
pub fn generics_at(s: &Vec<char>, c: usize) -> (r: Option<(usize, Vec<DataType>)>)
    requires
        c <= s@.len(),
    ensures
        match generics_spec(s@, c as int) {
            Some((e, ms)) => r matches Some((end, v)) && end == e && v@.len() > 0 && models_of(v@) == ms,
            None => r is None,
        },
        r matches Some((end, _)) ==> c < end <= s@.len(),
    decreases s@.len() - c, 3int,
{
    if c >= s.len() || s[c] != '<' {
        return None;
    }
    let e = wsc_at(s, c + 1);
    match type_list_at(s, e) {
        Some((f, v)) => {
            let g = wsc_at(s, f);
            if g < s.len() && s[g] == '>' {
                Some((g + 1, v))
            } else {
                None
            }
        },
        None => None,
    }
}

/// Parses one or more comma-separated data types at `e`.
fn type_list_at(s: &Vec<char>, e: usize) -> (r: Option<(usize, Vec<DataType>)>)
    requires
        e <= s@.len(),
    ensures
        match type_list_spec(s@, e as int) {
            Some((end0, ms)) => r matches Some((end, v)) && end == end0 && v@.len() > 0 && models_of(v@) == ms,
            None => r is None,
        },
        r matches Some((end, _)) ==> e < end <= s@.len(),
    decreases s@.len() - e, 2int,
{
    let e1 = wsc_at(s, e);
    if e1 < s.len() && s[e1] == ',' {
        return None;
    }
    match data_type_at(s, e1) {
        None => None,
        Some((f, first)) => {
            let mut v: Vec<DataType> = Vec::new();
            let ghost m0 = model_of(first);
            proof {
                lemma_models_push(v@, first);
                assert(Seq::<DataTypeModel>::empty().push(m0) =~= seq![m0]);
            }
            v.push(first);
            let mut p: usize = f;
            loop
                invariant
                    e < p <= s@.len(),
                    v@.len() > 0,
                    type_list_spec(s@, e as int) == Some::<(int, Seq<DataTypeModel>)>((
                        trailing_comma_end(s@, more_types_spec(s@, f as int, seq![m0]).0),
                        more_types_spec(s@, f as int, seq![m0]).1,
                    )),
                    more_types_spec(s@, f as int, seq![m0]) == more_types_spec(s@, p as int, models_of(v@)),
                decreases s@.len() - p,
            {
                let g = wsc_at(s, p);
                if !(g < s.len() && s[g] == ',') {
                    return Some((trailing_comma_at(s, p), v));
                }
                let h = wsc_at(s, g + 1);
                match data_type_at(s, h) {
                    Some((k, t)) => {
                        proof {
                            lemma_models_push(v@, t);
                        }
                        v.push(t);
                        p = k;
                    },
                    None => {
                        return Some((trailing_comma_at(s, p), v));
                    },
                }
            }
        },
    }
}

impl DataType {
    /// The same type, made nullable: the same name and type arguments.
    pub fn to_nullable(&self) -> (r: DataType)
        ensures
            model_of(r) == (DataTypeModel { name: self.name@, nullable: true, type_args: models_of(self.type_args@) }),
            render(r) == nullable_text(render(*self), self.nullable),
            r.nullable,
    {
        let r = DataType { name: self.name.duplicate(), nullable: true, type_args: copy_types(&self.type_args) };
        proof {
            let mid = if self.type_args@.len() == 0 {
                Seq::<char>::empty()
            } else {
                seq!['<'] + render_args(self.type_args@) + seq!['>']
            };
            if self.nullable {
                assert(render(r) =~= render(*self));
            } else {
                assert(render(*self) =~= self.name@ + mid + Seq::<char>::empty());
                assert(render(r) =~= render(*self) + seq!['?']);
            }
        }
        r
    }

    /// A copy with the same name, type arguments and nullability.
    pub fn duplicate(&self) -> (r: DataType)
        ensures
            model_of(r) == model_of(*self),
            render(r) == render(*self),
            r.nullable == self.nullable,
        decreases self,
    {
        DataType { name: self.name.duplicate(), nullable: self.nullable, type_args: copy_types(&self.type_args) }
    }

    /// The type written in its normal form.
    pub fn to_text(&self) -> (r: String)
        ensures
            r@ == render(*self),
        decreases self,
    {
        let mut out = self.name.name.clone();
        let n = self.type_args.len();
        if n > 0 {
            push_to(&mut out, '<');
            let mut k: usize = 0;
            while k < n
                invariant
                    n == self.type_args@.len(),
                    k <= n,
                    out@ == self.name@ + seq!['<'] + render_args(self.type_args@.take(k as int)),
                decreases n - k,
            {
                let t = self.type_args[k].to_text();
                proof {
                    assert(self.type_args@.take(k + 1) =~= self.type_args@.take(k as int).push(self.type_args@[k as int]));
                    lemma_render_args_push(self.type_args@.take(k as int), self.type_args@[k as int]);
                }
                if k > 0 {
                    push_to(&mut out, ',');
                    push_to(&mut out, ' ');
                }
                out.append(t.as_str());
                k = k + 1;
                proof {
                    assert(out@ =~= self.name@ + seq!['<'] + render_args(self.type_args@.take(k as int)));
                }
            }
            assert(self.type_args@.take(n as int) =~= self.type_args@);
            push_to(&mut out, '>');
        }
        if self.nullable {
            push_to(&mut out, '?');
        }
        proof {
            assert(out@ =~= render(*self));
        }
        out
    }
}

/// Copies of the types in `v`, with the same models and texts.
fn copy_types(v: &Vec<DataType>) -> (r: Vec<DataType>)
    ensures
        models_of(r@) == models_of(v@),
        render_args(r@) == render_args(v@),
        r@.len() == v@.len(),
    decreases v,
{
    let mut out: Vec<DataType> = Vec::new();
    let mut k: usize = 0;
    while k < v.len()
        invariant
            k <= v@.len(),
            out@.len() == k,
            models_of(out@) == models_of(v@.take(k as int)),
            render_args(out@) == render_args(v@.take(k as int)),
        decreases v.len() - k,
    {
        let t = v[k].duplicate();
        proof {
            assert(v@.take(k + 1) =~= v@.take(k as int).push(v@[k as int]));
            lemma_render_args_push(out@, t);
            lemma_render_args_push(v@.take(k as int), v@[k as int]);
            lemma_models_push(out@, t);
            lemma_models_push(v@.take(k as int), v@[k as int]);
        }
        out.push(t);
        k = k + 1;
    }
    assert(v@.take(k as int) =~= v@);
    out
}

/// Parses a data type at the start of `input`.
pub fn data_type(input: &str) -> (r: Result<(String, DataType), ParseError>)
    ensures
        match data_type_spec(input@, 0) {
            Some((e, m)) => r matches Ok((rest, d)) && rest@ == input@.subrange(e, input@.len() as int)
                && model_of(d) == m,
            None => r is Err,
        },
{
    let s = chars_of(input);
    let p = data_type_at(&s, 0);
    finish(&s, p)
}

/// Parses `<` type arguments `>` at the start of `input`.
pub fn generics(input: &str) -> (r: Result<(String, Vec<DataType>), ParseError>)
    ensures
        match generics_spec(input@, 0) {
            Some((e, ms)) => r matches Ok((rest, v)) && rest@ == input@.subrange(e, input@.len() as int)
                && models_of(v@) == ms,
            None => r is Err,
        },
{
    let s = chars_of(input);
    let p = generics_at(&s, 0);
    finish(&s, p)
}

/// A data type model whose names are identifiers, at every level.
pub open spec fn well_formed(m: DataTypeModel) -> bool
    decreases m,
{
    &&& m.name.len() > 0
    &&& is_ident_start(m.name[0])
    &&& forall|k: int| 0 <= k < m.name.len() ==> is_ident_char(#[trigger] m.name[k])
    &&& forall|j: int| 0 <= j < m.type_args.len() ==> well_formed(#[trigger] m.type_args[j])
}

/// What may follow a data type's text for it to parse back whole: the end,
/// a comma or a closing angle bracket.
pub open spec fn may_follow_type(s: Seq<char>, j: int) -> bool {
    j == s.len() || (0 <= j < s.len() && (s[j] == ',' || s[j] == '>'))
}

proof fn lemma_wsc_noop(s: Seq<char>, i: int)
    requires
        0 <= i <= s.len(),
        i < s.len() ==> !is_space(s[i]) && s[i] != '/',
    ensures
        wsc_end(s, i) == i,
{
    if starts_at(s, i, seq!['/', '/']) {
        assert(s.subrange(i, i + 2)[0] == s[i]);
    }
    if starts_at(s, i, seq!['/', '*']) {
        assert(s.subrange(i, i + 2)[0] == s[i]);
    }
}

proof fn lemma_ident_run(s: Seq<char>, i: int, b: int)
    requires
        0 <= i <= b <= s.len(),
        forall|x: int| i <= x < b ==> is_ident_char(#[trigger] s[x]),
        b < s.len() ==> !is_ident_char(s[b]),
    ensures
        ident_run_end(s, i) == b,
    decreases b - i,
{
    if i < b {
        lemma_ident_run(s, i + 1, b);
    }
}

proof fn lemma_args_step(ms: Seq<DataTypeModel>, k: int)
    requires
        1 <= k < ms.len(),
    ensures
        model_args_text(ms.take(k + 1)) == model_args_text(ms.take(k)) + seq![',', ' '] + model_text(ms[k]),
{
    assert(ms.take(k + 1).drop_last() =~= ms.take(k));
    assert(ms.take(k + 1).last() == ms[k]);
}

proof fn lemma_args_prefix(ms: Seq<DataTypeModel>, k: int)
    requires
        1 <= k <= ms.len(),
    ensures
        model_args_text(ms.take(k)).len() <= model_args_text(ms).len(),
        model_args_text(ms).subrange(0, model_args_text(ms.take(k)).len() as int) == model_args_text(ms.take(k)),
    decreases ms.len() - k,
{
    if k == ms.len() {
        assert(ms.take(k) =~= ms);
        assert(model_args_text(ms).subrange(0, model_args_text(ms).len() as int) =~= model_args_text(ms));
    } else {
        lemma_args_prefix(ms, k + 1);
        lemma_args_step(ms, k);
        let a = model_args_text(ms.take(k));
        let b = model_args_text(ms.take(k + 1));
        assert(model_args_text(ms).subrange(0, a.len() as int) =~= b.subrange(0, a.len() as int));
        assert(b.subrange(0, a.len() as int) =~= a);
    }
}

/// The text of a well-formed model parses back to that model.
#[verifier::spinoff_prover]
#[verifier::rlimit(100)]
pub proof fn lemma_parse_model(s: Seq<char>, i: int, m: DataTypeModel)
    requires
        well_formed(m),
        0 <= i,
        starts_at(s, i, model_text(m)),
        may_follow_type(s, i + model_text(m).len()),
    ensures
        data_type_spec(s, i) == Some((i + model_text(m).len(), m)),
    decreases m, m.type_args.len() + 2,
{
    let t = model_text(m);
    let j = i + t.len();
    let b = i + m.name.len();
    let ms = m.type_args;
    let args = if ms.len() == 0 { Seq::<char>::empty() } else { seq!['<'] + model_args_text(ms) + seq!['>'] };
    let d = b + args.len();
    assert(t =~= m.name + args + (if m.nullable { seq!['?'] } else { Seq::<char>::empty() }));
    assert forall|x: int| 0 <= x < t.len() implies s[i + x] == t[x] by {
        assert(s.subrange(i, j)[x] == s[i + x]);
    }
    assert(s[i + 0] == t[0]);
    assert(t[0] == m.name[0]);
    lemma_wsc_noop(s, i);
    assert forall|x: int| i <= x < b implies is_ident_char(#[trigger] s[x]) by {
        assert(s[i + (x - i)] == t[x - i]);
        assert(t[x - i] == m.name[x - i]);
    }
    // the character after the name
    if b < s.len() {
        if ms.len() > 0 {
            assert(s[b] == t[m.name.len() as int]);
            assert(s[b] == '<');
        } else if m.nullable {
            assert(s[b] == t[m.name.len() as int]);
            assert(s[b] == '?');
        } else {
            assert(b == j);
        }
    }
    lemma_ident_run(s, i, b);
    lemma_wsc_noop(s, b);
    if ms.len() > 0 {
        let n = ms.len() as int;
        let a = model_args_text(ms);
        let p = b + 1;
        assert(starts_at(s, p, a)) by {
            assert forall|x: int| 0 <= x < a.len() implies s[p + x] == a[x] by {
                assert(s[i + (m.name.len() + 1 + x)] == t[(m.name.len() + 1 + x) as int]);
            }
            assert(s.subrange(p, p + a.len()) =~= a);
        }
        assert(s[p + a.len()] == '>') by {
            assert(s[i + (m.name.len() + 1 + a.len())] == t[(m.name.len() + 1 + a.len()) as int]);
        }
        lemma_args_prefix(ms, 1);
        assert(ms.take(1)[0] == ms[0]);
        let a1 = model_args_text(ms.take(1));
        assert(a1 == model_text(ms[0]));
        assert(well_formed(ms[0]));
        assert(a1.len() > 0 && a1[0] == ms[0].name[0]) by {
            assert(model_text(ms[0]) =~= ms[0].name + (if ms[0].type_args.len() == 0 { Seq::<char>::empty() } else { seq!['<'] + model_args_text(ms[0].type_args) + seq!['>'] }) + (if ms[0].nullable { seq!['?'] } else { Seq::<char>::empty() }));
        }
        assert(s[p] == a[0]);
        lemma_wsc_noop(s, p);
        assert(starts_at(s, p, a1)) by {
            assert(s.subrange(p, p + a1.len()) =~= a.subrange(0, a1.len() as int));
        }
        if n > 1 {
            lemma_args_prefix(ms, 2);
            lemma_args_step(ms, 1);
            assert(s[p + a1.len()] == ',') by {
                let a2 = model_args_text(ms.take(2));
                assert(a2[a1.len() as int] == ',');
                assert(a[a1.len() as int] == a2[a1.len() as int]);
            }
        }
        lemma_parse_model(s, p, ms[0]);
        lemma_parse_args(s, p, m, 1);
        assert(ms.take(1) =~= seq![ms[0]]);
        lemma_wsc_noop(s, p + a.len());
    } else {
        assert(generics_spec(s, b) is None);
    }
    // after the arguments
    if m.nullable {
        assert(d - i == t.len() - 1);
        assert(s[i + (d - i)] == t[d - i]);
        assert(s[d] == '?');
        lemma_wsc_noop(s, d);
        lemma_wsc_noop(s, d + 1);
    } else {
        assert(d == j);
        lemma_wsc_noop(s, d);
    }
    assert(s.subrange(i, b) =~= m.name) by {
        assert forall|x: int| 0 <= x < m.name.len() implies s.subrange(i, b)[x] == m.name[x] by {
            assert(s[i + x] == t[x]);
        }
    }
    if ms.len() == 0 {
        assert(ms =~= Seq::<DataTypeModel>::empty());
    }
}

/// After the first `k` arguments of `m`, the rest of its argument list parses.
#[verifier::spinoff_prover]
#[verifier::rlimit(100)]
proof fn lemma_parse_args(s: Seq<char>, p: int, m: DataTypeModel, k: int)
    requires
        well_formed(m),
        0 <= p,
        1 <= k <= m.type_args.len(),
        starts_at(s, p, model_args_text(m.type_args)),
        p + model_args_text(m.type_args).len() < s.len(),
        s[p + model_args_text(m.type_args).len()] == '>',
    ensures
        more_types_spec(s, p + model_args_text(m.type_args.take(k)).len(), m.type_args.take(k))
            == (p + model_args_text(m.type_args).len(), m.type_args),
    decreases m, m.type_args.len() - k + 1,
{
    let ms = m.type_args;
    let n = ms.len() as int;
    let a = model_args_text(ms);
    let ak = model_args_text(ms.take(k));
    let f = p + ak.len();
    lemma_args_prefix(ms, k);
    assert forall|x: int| 0 <= x < a.len() implies s[p + x] == a[x] by {
        assert(s.subrange(p, p + a.len())[x] == s[p + x]);
    }
    if k == n {
        assert(ms.take(k) =~= ms);
        lemma_wsc_noop(s, f);
    } else {
        lemma_args_prefix(ms, k + 1);
        lemma_args_step(ms, k);
        let ak1 = model_args_text(ms.take(k + 1));
        let tk = model_text(ms[k]);
        assert(ak1 =~= ak + seq![',', ' '] + tk);
        assert(a[ak.len() as int] == ak1[ak.len() as int]);
        assert(a[ak.len() + 1int] == ak1[ak.len() + 1int]);
        assert(s[f] == ',');
        assert(s[f + 1] == ' ');
        lemma_wsc_noop(s, f);
        assert(well_formed(ms[k]));
        assert(tk.len() > 0 && tk[0] == ms[k].name[0]) by {
            assert(tk =~= ms[k].name + (if ms[k].type_args.len() == 0 { Seq::<char>::empty() } else { seq!['<'] + model_args_text(ms[k].type_args) + seq!['>'] }) + (if ms[k].nullable { seq!['?'] } else { Seq::<char>::empty() }));
        }
        assert(a[ak.len() + 2int] == ak1[ak.len() + 2int]);
        assert(s[f + 2] == tk[0]);
        assert(space_end(s, f + 2) == f + 2);
        assert(space_end(s, f + 1) == f + 2);
        assert(unit_end(s, f + 1) == Some(f + 2));
        lemma_wsc_noop(s, f + 2);
        assert(wsc_end(s, f + 1) == f + 2);
        assert(starts_at(s, f + 2, tk)) by {
            assert forall|x: int| 0 <= x < tk.len() implies s.subrange(f + 2, f + 2 + tk.len())[x] == tk[x] by {
                assert(a[ak.len() + 2int + x] == ak1[ak.len() + 2int + x]);
                assert(s[p + (ak.len() + 2 + x)] == a[ak.len() + 2 + x]);
            }
            assert(s.subrange(f + 2, f + 2 + tk.len()) =~= tk);
        }
        let next = f + 2 + tk.len();
        assert(next == p + ak1.len());
        if k + 1 < n {
            lemma_args_prefix(ms, k + 2);
            lemma_args_step(ms, k + 1);
            let ak2 = model_args_text(ms.take(k + 2));
            assert(ak2[ak1.len() as int] == ',');
            assert(a[ak1.len() as int] == ak2[ak1.len() as int]);
            assert(s[next] == ',');
        } else {
            assert(ms.take(k + 1) =~= ms);
        }
        lemma_parse_model(s, f + 2, ms[k]);
        assert(ms.take(k).push(ms[k]) =~= ms.take(k + 1));
        lemma_parse_args(s, p, m, k + 1);
    }
}

/// Parsing a well-formed type's text gives back that type's model, with
/// nothing left over.
pub proof fn lemma_data_type_round_trip(d: DataType)
    requires
        well_formed(model_of(d)),
    ensures
        data_type_spec(render(d), 0) == Some((render(d).len() as int, model_of(d))),
{
    lemma_render_model(d);
    let s = render(d);
    assert(s.subrange(0, s.len() as int) =~= s);
    lemma_parse_model(s, 0, model_of(d));
}

} // verus!
