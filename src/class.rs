//! Class declarations: constructors, the class body, and the declaration itself.
use vstd::prelude::*;
use crate::lexer::{
    wsc_end, ident_end, tok, wsc_at, identifier_at, tok_at, text_end_at, keyword_end_at, trailing_comma_end,
    trailing_comma_at, finish,
    Identifier, ParseError,
};
use crate::annotation::{
    annotations_spec, annotations_at, views_of_annotations, is_trigger_name, Annotation, AnnotationModel,
};
use crate::parameters::{named_parameters_spec, named_parameters_at, views_of_parameters, NamedParameter, NamedParameterModel};
use crate::text::{chars_of, starts_at};

verus! {

/// A private constructor `Name._();`, optionally `const`.
#[derive(Debug, PartialEq, Eq, Clone, Copy)]
pub struct PrivateConstructor {
    pub is_const: bool,
}

/// What a factory constructor holds.
pub struct FactoryModel {
    pub params: Seq<NamedParameterModel>,
    pub is_const: bool,
}

/// A factory constructor `factory Name({ ... }) = Impl;`, optionally `const`.
#[derive(Debug, PartialEq, Eq)]
pub struct FactoryConstructor {
    pub params: Vec<NamedParameter>,
    pub is_const: bool,
}

impl View for FactoryConstructor {
    type V = FactoryModel;

    open spec fn view(&self) -> FactoryModel {
        FactoryModel { params: views_of_parameters(self.params@), is_const: self.is_const }
    }
}

impl FactoryConstructor {
    /// A copy with the same contents.
    pub fn duplicate(&self) -> (r: FactoryConstructor)
        ensures
            r@ == self@,
    {
        let mut params: Vec<NamedParameter> = Vec::new();
        let mut k: usize = 0;
        while k < self.params.len()
            invariant
                k <= self.params@.len(),
                views_of_parameters(params@) == views_of_parameters(self.params@.take(k as int)),
            decreases self.params.len() - k,
        {
            let p = self.params[k].duplicate();
            proof {
                assert(views_of_parameters(self.params@.take(k + 1)) =~= views_of_parameters(self.params@.take(k as int)).push(p@));
                assert(views_of_parameters(params@.push(p)) =~= views_of_parameters(params@).push(p@));
            }
            params.push(p);
            k = k + 1;
        }
        assert(self.params@.take(k as int) =~= self.params@);
        FactoryConstructor { params, is_const: self.is_const }
    }
}

/// What a class item holds.
pub enum ClassItemModel {
    Private(bool),
    Factory(FactoryModel),
}

/// A constructor found in a class body.
#[derive(Debug, PartialEq, Eq)]
pub enum ClassItem {
    PrivateConstructor(PrivateConstructor),
    FactoryConstructor(FactoryConstructor),
}

impl View for ClassItem {
    type V = ClassItemModel;

    open spec fn view(&self) -> ClassItemModel {
        match self {
            ClassItem::PrivateConstructor(p) => ClassItemModel::Private(p.is_const),
            ClassItem::FactoryConstructor(f) => ClassItemModel::Factory(f@),
        }
    }
}

pub open spec fn views_of_items(v: Seq<ClassItem>) -> Seq<ClassItemModel> {
    v.map_values(|x: ClassItem| x@)
}

pub open spec fn views_of_idents(v: Seq<Identifier>) -> Seq<Seq<char>> {
    v.map_values(|x: Identifier| x@)
}

/// The constructors of a class body, in order.
#[derive(Debug, PartialEq, Eq)]
pub struct ClassItemInfo {
    pub items: Vec<ClassItem>,
}

/// Optional `const `, the class name, `.`, `_`, `(`, `)`, `;`.
/// `Some((end, is_const))` on success.
pub open spec fn private_constructor_spec(s: Seq<char>, i: int, name: Seq<char>) -> Option<(int, bool)> {
    let is_const = starts_at(s, i, "const "@);
    let a = if is_const { i + "const "@.len() } else { i };
    let b = wsc_end(s, a);
    if !starts_at(s, b, name) {
        None
    } else {
        let c = wsc_end(s, b + name.len());
        let d = wsc_end(s, c + 1);
        let e = wsc_end(s, d + 1);
        let f = wsc_end(s, e + 1);
        let g = wsc_end(s, f + 1);
        if tok(s, c, '.') && tok(s, d, '_') && tok(s, e, '(') && tok(s, f, ')') && tok(s, g, ';') {
            Some((g + 1, is_const))
        } else {
            None
        }
    }
}

/// Skips lexical noise at `i`, then expects `c`; returns the position after it.
fn expect_at(s: &Vec<char>, i: usize, c: char) -> (r: Option<usize>)
    requires
        i <= s@.len(),
    ensures
        match r {
            Some(e) => tok(s@, wsc_end(s@, i as int), c) && e == wsc_end(s@, i as int) + 1,
            None => !tok(s@, wsc_end(s@, i as int), c),
        },
        r matches Some(e) ==> i < e <= s@.len(),
{
    let a = wsc_at(s, i);
    if tok_at(s, a, c) {
        Some(a + 1)
    } else {
        None
    }
}

/// Optional `const ` at `i`: whether it is there and where it ends.
fn const_at(s: &Vec<char>, i: usize) -> (r: (bool, usize))
    requires
        i <= s@.len(),
    ensures
        r.0 == starts_at(s@, i as int, "const "@),
        r.1 == if r.0 { i + "const "@.len() } else { i as int },
        i <= r.1 <= s@.len(),
{
    match keyword_end_at(s, i, "const ") {
        Some(e) => (true, e),
        None => (false, i),
    }
}

/// Parses a private constructor of the class `name` at `i`.
pub fn private_constructor_at(s: &Vec<char>, i: usize, name: &Vec<char>) -> (r: Option<(usize, PrivateConstructor)>)
    requires
        i <= s@.len(),
    ensures
        match private_constructor_spec(s@, i as int, name@) {
            Some((e, c)) => r matches Some((end, p)) && end == e && p.is_const == c,
            None => r is None,
        },
        r matches Some((end, _)) ==> i < end <= s@.len(),
{
    let (is_const, a) = const_at(s, i);
    let b = wsc_at(s, a);
    let b2 = match text_end_at(s, b, name) {
        Some(e) => e,
        None => return None,
    };
    let c = match expect_at(s, b2, '.') { Some(x) => x, None => return None };
    let d = match expect_at(s, c, '_') { Some(x) => x, None => return None };
    let e = match expect_at(s, d, '(') { Some(x) => x, None => return None };
    let f = match expect_at(s, e, ')') { Some(x) => x, None => return None };
    let g = match expect_at(s, f, ';') { Some(x) => x, None => return None };
    Some((g, PrivateConstructor { is_const }))
}

/// Optional `const `, `factory `, the class name, `(`, `{`, named parameters,
/// `}`, `)`, `=`, an identifier, `;`.
pub open spec fn factory_constructor_spec(s: Seq<char>, i: int, name: Seq<char>) -> Option<(int, FactoryModel)> {
    let is_const = starts_at(s, i, "const "@);
    let a = if is_const { i + "const "@.len() } else { i };
    let b = wsc_end(s, a);
    if !starts_at(s, b, "factory "@) {
        None
    } else {
        let c = wsc_end(s, b + "factory "@.len());
        if !starts_at(s, c, name) {
            None
        } else {
            let d = wsc_end(s, c + name.len());
            let e = wsc_end(s, d + 1);
            if !(tok(s, d, '(') && tok(s, e, '{')) {
                None
            } else {
                match named_parameters_spec(s, wsc_end(s, e + 1)) {
                    None => None,
                    Some((g, ps)) => {
                        let h = wsc_end(s, g);
                        let k = wsc_end(s, h + 1);
                        let l = wsc_end(s, k + 1);
                        let m = wsc_end(s, l + 1);
                        if !(tok(s, h, '}') && tok(s, k, ')') && tok(s, l, '=')) {
                            None
                        } else {
                            match ident_end(s, m) {
                                None => None,
                                Some(n) => {
                                    let o = wsc_end(s, n);
                                    if tok(s, o, ';') {
                                        Some((o + 1, FactoryModel { params: ps, is_const }))
                                    } else {
                                        None
                                    }
                                },
                            }
                        }
                    },
                }
            }
        }
    }
}

/// Parses a factory constructor of the class `name` at `i`.
pub fn factory_constructor_at(s: &Vec<char>, i: usize, name: &Vec<char>) -> (r: Option<(usize, FactoryConstructor)>)
    requires
        i <= s@.len(),
    ensures
        match factory_constructor_spec(s@, i as int, name@) {
            Some((e, m)) => r matches Some((end, f)) && end == e && f@ == m,
            None => r is None,
        },
        r matches Some((end, _)) ==> i < end <= s@.len(),
{
    let (is_const, a) = const_at(s, i);
    let b = wsc_at(s, a);
    let b2 = match keyword_end_at(s, b, "factory ") { Some(x) => x, None => return None };
    let c = wsc_at(s, b2);
    let c2 = match text_end_at(s, c, name) { Some(x) => x, None => return None };
    let d = match expect_at(s, c2, '(') { Some(x) => x, None => return None };
    let e = match expect_at(s, d, '{') { Some(x) => x, None => return None };
    let f = wsc_at(s, e);
    let (g, params) = match named_parameters_at(s, f) { Some(x) => x, None => return None };
    let h = match expect_at(s, g, '}') { Some(x) => x, None => return None };
    let k = match expect_at(s, h, ')') { Some(x) => x, None => return None };
    let l = match expect_at(s, k, '=') { Some(x) => x, None => return None };
    let m = wsc_at(s, l);
    let (n, _implementation) = match identifier_at(s, m) { Some(x) => x, None => return None };
    let o = match expect_at(s, n, ';') { Some(x) => x, None => return None };
    Some((o, FactoryConstructor { params, is_const }))
}

/// The outcome of trying a grammar rule at a position: it does not apply, it
/// applied and then failed (which fails the whole file), or it was found with
/// the position where it ends.
pub enum Step<T> {
    NoMatch,
    Fatal,
    Found(int, T),
}

/// Whether a factory constructor of class `name` starts at `i`: optional
/// `const `, `factory `, the class name and `(`. Once this much is there, the
/// rest of the constructor must follow.
pub open spec fn factory_opening(s: Seq<char>, i: int, name: Seq<char>) -> bool {
    let is_const = starts_at(s, i, "const "@);
    let a = if is_const { i + "const "@.len() } else { i };
    let b = wsc_end(s, a);
    let c = wsc_end(s, b + "factory "@.len());
    starts_at(s, b, "factory "@) && starts_at(s, c, name) && tok(s, wsc_end(s, c + name.len()), '(')
}

/// Whether a factory constructor of class `name` starts at `i`.
fn factory_opening_at(s: &Vec<char>, i: usize, name: &Vec<char>) -> (r: bool)
    requires
        i <= s@.len(),
    ensures
        r == factory_opening(s@, i as int, name@),
{
    let (_, a) = const_at(s, i);
    let b = wsc_at(s, a);
    let b2 = match keyword_end_at(s, b, "factory ") { Some(x) => x, None => return false };
    let c = wsc_at(s, b2);
    let c2 = match text_end_at(s, c, name) { Some(x) => x, None => return false };
    expect_at(s, c2, '(').is_some()
}

/// A private constructor, or else a factory constructor, at `i`; a factory
/// constructor that opens and then does not parse is fatal.
pub open spec fn class_item_spec(s: Seq<char>, i: int, name: Seq<char>) -> Step<ClassItemModel> {
    match private_constructor_spec(s, i, name) {
        Some((e, c)) => Step::Found(e, ClassItemModel::Private(c)),
        None => match factory_constructor_spec(s, i, name) {
            Some((e, f)) => Step::Found(e, ClassItemModel::Factory(f)),
            None => if factory_opening(s, i, name) {
                Step::Fatal
            } else {
                Step::NoMatch
            },
        },
    }
}

fn class_item_at(s: &Vec<char>, i: usize, name: &Vec<char>) -> (r: Result<Option<(usize, ClassItem)>, ParseError>)
    requires
        i <= s@.len(),
    ensures
        match class_item_spec(s@, i as int, name@) {
            Step::Found(e, m) => r matches Ok(Some((end, x))) && end == e && x@ == m,
            Step::NoMatch => r matches Ok(None),
            Step::Fatal => r is Err,
        },
        r matches Ok(Some((end, _))) ==> i < end <= s@.len(),
{
    match private_constructor_at(s, i, name) {
        Some((e, p)) => Ok(Some((e, ClassItem::PrivateConstructor(p)))),
        None => match factory_constructor_at(s, i, name) {
            Some((e, f)) => Ok(Some((e, ClassItem::FactoryConstructor(f)))),
            None => if factory_opening_at(s, i, name) {
                Err(ParseError)
            } else {
                Ok(None)
            },
        },
    }
}

/// As many class items as follow one another at `j`, with nothing between
/// them; the flag tells whether a fatal failure stopped them.
pub open spec fn body_many(s: Seq<char>, j: int, name: Seq<char>) -> (int, Seq<ClassItemModel>, bool)
    decreases s.len() - j,
{
    match class_item_spec(s, j, name) {
        Step::Found(e, x) => if j < e <= s.len() {
            let r = body_many(s, e, name);
            (r.0, seq![x] + r.1, r.2)
        } else {
            (j, Seq::empty(), false)
        },
        Step::NoMatch => (j, Seq::empty(), false),
        Step::Fatal => (j, Seq::empty(), true),
    }
}

/// Rounds of "skip lexical noise, then take as many items as follow", until a
/// round other than the first finds none, or a fatal failure.
pub open spec fn body_round(s: Seq<char>, i: int, name: Seq<char>, first: bool) -> (int, Seq<ClassItemModel>, bool)
    decreases s.len() - i, if first { 1int } else { 0int },
{
    let j = wsc_end(s, i);
    let (k, items, fatal) = body_many(s, j, name);
    if fatal {
        (k, items, true)
    } else if items.len() == 0 && !first {
        (k, items, false)
    } else if !(0 <= i <= k <= s.len()) || (!first && k == i) {
        (k, items, false)
    } else {
        let r = body_round(s, k, name, false);
        (r.0, items + r.1, r.2)
    }
}

/// The items of a class body starting at `i`: rounds of items, and when they
/// stop short of a `}`, one character is dropped and the search goes on.
/// `Found(end, items)` where `end` is the position of the closing `}`;
/// `NoMatch` when the input ends first; `Fatal` when a rule failed partway.
pub open spec fn body_items(s: Seq<char>, i: int, name: Seq<char>) -> Step<Seq<ClassItemModel>>
    decreases s.len() - i,
{
    let (k, items, fatal) = body_round(s, i, name, true);
    if fatal {
        Step::Fatal
    } else if tok(s, k, '}') {
        Step::Found(k, items)
    } else if !(0 <= i <= k < s.len()) {
        Step::NoMatch
    } else {
        match body_items(s, k + 1, name) {
            Step::Found(e, rest) => Step::Found(e, items + rest),
            Step::NoMatch => Step::NoMatch,
            Step::Fatal => Step::Fatal,
        }
    }
}

proof fn lemma_views_of_items_append(a: Seq<ClassItem>, b: Seq<ClassItem>)
    ensures
        views_of_items(a + b) == views_of_items(a) + views_of_items(b),
{
    assert(views_of_items(a + b) =~= views_of_items(a) + views_of_items(b));
}

fn body_many_at(s: &Vec<char>, j: usize, name: &Vec<char>) -> (r: (usize, Vec<ClassItem>, bool))
    requires
        j <= s@.len(),
    ensures
        r.0 == body_many(s@, j as int, name@).0,
        views_of_items(r.1@) == body_many(s@, j as int, name@).1,
        r.2 == body_many(s@, j as int, name@).2,
        j <= r.0 <= s@.len(),
        r.1@.len() > 0 ==> j < r.0,
{
    let mut p: usize = j;
    let mut out: Vec<ClassItem> = Vec::new();
    loop
        invariant
            j <= p <= s@.len(),
            out@.len() > 0 ==> j < p,
            body_many(s@, j as int, name@).0 == body_many(s@, p as int, name@).0,
            body_many(s@, j as int, name@).1 == views_of_items(out@) + body_many(s@, p as int, name@).1,
            body_many(s@, j as int, name@).2 == body_many(s@, p as int, name@).2,
        decreases s@.len() - p,
    {
        match class_item_at(s, p, name) {
            Ok(Some((e, x))) => {
                proof {
                    let rest = body_many(s@, e as int, name@);
                    assert(views_of_items(out@.push(x)) =~= views_of_items(out@).push(x@));
                    assert(views_of_items(out@) + (seq![x@] + rest.1) =~= views_of_items(out@).push(x@) + rest.1);
                }
                out.push(x);
                p = e;
            },
            Ok(None) => {
                assert(views_of_items(out@) + Seq::<ClassItemModel>::empty() =~= views_of_items(out@));
                return (p, out, false);
            },
            Err(_) => {
                assert(views_of_items(out@) + Seq::<ClassItemModel>::empty() =~= views_of_items(out@));
                return (p, out, true);
            },
        }
    }
}

fn body_round_at(s: &Vec<char>, i: usize, name: &Vec<char>) -> (r: (usize, Vec<ClassItem>, bool))
    requires
        i <= s@.len(),
    ensures
        r.0 == body_round(s@, i as int, name@, true).0,
        views_of_items(r.1@) == body_round(s@, i as int, name@, true).1,
        r.2 == body_round(s@, i as int, name@, true).2,
        i <= r.0 <= s@.len(),
{
    let mut q: usize = i;
    let mut first = true;
    let mut out: Vec<ClassItem> = Vec::new();
    loop
        invariant
            i <= q <= s@.len(),
            body_round(s@, i as int, name@, true).0 == body_round(s@, q as int, name@, first).0,
            body_round(s@, i as int, name@, true).1 == views_of_items(out@) + body_round(s@, q as int, name@, first).1,
            body_round(s@, i as int, name@, true).2 == body_round(s@, q as int, name@, first).2,
        decreases s@.len() - q, if first { 1int } else { 0int },
    {
        let j = wsc_at(s, q);
        let (k, mut items, fatal) = body_many_at(s, j, name);
        if !fatal && items.len() == 0 && !first {
            assert(views_of_items(items@) =~= Seq::<ClassItemModel>::empty());
            assert(views_of_items(out@) + Seq::<ClassItemModel>::empty() =~= views_of_items(out@));
            return (k, out, false);
        }
        proof {
            lemma_views_of_items_append(out@, items@);
        }
        let ghost before = out@;
        out.append(&mut items);
        if fatal || (!first && k == q) {
            assert(views_of_items(out@) =~= views_of_items(before) + body_round(s@, q as int, name@, first).1);
            return (k, out, fatal);
        }
        proof {
            let r = body_round(s@, k as int, name@, false);
            assert(views_of_items(before) + (body_many(s@, j as int, name@).1 + r.1) =~= views_of_items(out@) + r.1);
        }
        q = k;
        first = false;
    }
}

/// Parses the items of the body of class `name`, starting after its `{`.
/// Returns the position of the closing `}` with the items; `Err` when a
/// rule failed partway.
pub fn class_items_at(s: &Vec<char>, i: usize, name: &Vec<char>) -> (r: Result<Option<(usize, Vec<ClassItem>)>, ParseError>)
    requires
        i <= s@.len(),
    ensures
        match body_items(s@, i as int, name@) {
            Step::Found(e, m) => r matches Ok(Some((end, v))) && end == e && views_of_items(v@) == m,
            Step::NoMatch => r matches Ok(None),
            Step::Fatal => r is Err,
        },
        r matches Ok(Some((end, _))) ==> i <= end < s@.len() && s@[end as int] == '}',
{
    let mut p: usize = i;
    let mut out: Vec<ClassItem> = Vec::new();
    loop
        invariant
            i <= p <= s@.len(),
            body_items(s@, i as int, name@) == (match body_items(s@, p as int, name@) {
                Step::Found(e, rest) => Step::Found(e, views_of_items(out@) + rest),
                Step::NoMatch => Step::NoMatch,
                Step::Fatal => Step::Fatal,
            }),
        decreases s@.len() - p,
    {
        let (k, mut items, fatal) = body_round_at(s, p, name);
        if fatal {
            return Err(ParseError);
        }
        proof {
            lemma_views_of_items_append(out@, items@);
        }
        let ghost before = out@;
        out.append(&mut items);
        if tok_at(s, k, '}') {
            return Ok(Some((k, out)));
        }
        if k >= s.len() {
            return Ok(None);
        }
        proof {
            match body_items(s@, k + 1, name@) {
                Step::Found(e, rest) => {
                    assert(views_of_items(before) + (body_round(s@, p as int, name@, true).1 + rest) =~= views_of_items(out@) + rest);
                },
                _ => {},
            }
        }
        p = k + 1;
    }
}

/// One or more comma-separated identifiers, with one optional trailing comma;
/// a leading comma is refused.
pub open spec fn ident_list_spec(s: Seq<char>, f: int) -> Option<(int, Seq<Seq<char>>)> {
    let a = wsc_end(s, f);
    if tok(s, a, ',') {
        None
    } else {
        match ident_end(s, a) {
            None => None,
            Some(b) => {
                let (g, all) = more_idents_spec(s, b, seq![s.subrange(a, b)]);
                Some((trailing_comma_end(s, g), all))
            },
        }
    }
}

/// Further `, identifier` elements after the list `acc` that ends at `f`.
pub open spec fn more_idents_spec(s: Seq<char>, f: int, acc: Seq<Seq<char>>) -> (int, Seq<Seq<char>>)
    decreases s.len() - f,
{
    let g = wsc_end(s, f);
    if 0 <= f <= g && tok(s, g, ',') {
        let h = wsc_end(s, g + 1);
        match ident_end(s, h) {
            Some(k) => if f < k <= s.len() {
                more_idents_spec(s, k, acc.push(s.subrange(h, k)))
            } else {
                (f, acc)
            },
            None => (f, acc),
        }
    } else {
        (f, acc)
    }
}

fn ident_list_at(s: &Vec<char>, f: usize) -> (r: Option<(usize, Vec<Identifier>)>)
    requires
        f <= s@.len(),
    ensures
        match ident_list_spec(s@, f as int) {
            Some((e, m)) => r matches Some((end, v)) && end == e && views_of_idents(v@) == m,
            None => r is None,
        },
        r matches Some((end, _)) ==> f <= end <= s@.len(),
{
    let a = wsc_at(s, f);
    if tok_at(s, a, ',') {
        return None;
    }
    match identifier_at(s, a) {
        None => None,
        Some((b, first)) => {
            let mut v: Vec<Identifier> = Vec::new();
            proof {
                assert(views_of_idents(v@.push(first)) =~= seq![first@]);
            }
            v.push(first);
            let mut p: usize = b;
            loop
                invariant
                    f <= p <= s@.len(),
                    a < b <= s@.len(),
                    more_idents_spec(s@, b as int, seq![s@.subrange(a as int, b as int)]) == more_idents_spec(s@, p as int, views_of_idents(v@)),
                ensures
                    f <= p <= s@.len(),
                    more_idents_spec(s@, b as int, seq![s@.subrange(a as int, b as int)]) == (p as int, views_of_idents(v@)),
                decreases s@.len() - p,
            {
                let g = wsc_at(s, p);
                if !tok_at(s, g, ',') {
                    break;
                }
                let h = wsc_at(s, g + 1);
                match identifier_at(s, h) {
                    Some((k, x)) => {
                        proof {
                            assert(views_of_idents(v@.push(x)) =~= views_of_idents(v@).push(x@));
                        }
                        v.push(x);
                        p = k;
                    },
                    None => {
                        break;
                    },
                }
            }
            Some((trailing_comma_at(s, p), v))
        },
    }
}

/// Optional `kw` followed by one or more comma-separated identifiers.
pub open spec fn clause_spec(s: Seq<char>, e: int, kw: Seq<char>) -> Option<(int, Seq<Seq<char>>)> {
    let e2 = wsc_end(s, e);
    if starts_at(s, e2, kw) {
        ident_list_spec(s, wsc_end(s, e2 + kw.len()))
    } else {
        Some((e2, Seq::empty()))
    }
}

fn clause_at(s: &Vec<char>, e: usize, kw: &str) -> (r: Option<(usize, Vec<Identifier>)>)
    requires
        e <= s@.len(),
    ensures
        match clause_spec(s@, e as int, kw@) {
            Some((x, m)) => r matches Some((end, v)) && end == x && views_of_idents(v@) == m,
            None => r is None,
        },
        r matches Some((end, _)) ==> e <= end <= s@.len(),
{
    let e2 = wsc_at(s, e);
    match keyword_end_at(s, e2, kw) {
        Some(k) => {
            let f = wsc_at(s, k);
            ident_list_at(s, f)
        },
        None => {
            let v: Vec<Identifier> = Vec::new();
            assert(views_of_idents(v@) =~= Seq::<Seq<char>>::empty());
            Some((e2, v))
        },
    }
}

/// What a class declaration holds.
pub struct ClassModel {
    pub annotations: Seq<AnnotationModel>,
    pub name: Seq<char>,
    pub mixins: Seq<Seq<char>>,
    pub interfaces: Seq<Seq<char>>,
    pub items: Seq<ClassItemModel>,
}

/// A class declaration with its annotations, mixins, interfaces and constructors.
#[derive(Debug, PartialEq, Eq)]
pub struct ClassDefinition {
    pub annotations: Vec<Annotation>,
    pub name: Identifier,
    pub mixin_types: Vec<Identifier>,
    pub implemented_types: Vec<Identifier>,
    pub item_info: ClassItemInfo,
}

impl View for ClassDefinition {
    type V = ClassModel;

    open spec fn view(&self) -> ClassModel {
        ClassModel {
            annotations: views_of_annotations(self.annotations@),
            name: self.name@,
            mixins: views_of_idents(self.mixin_types@),
            interfaces: views_of_idents(self.implemented_types@),
            items: views_of_items(self.item_info.items@),
        }
    }
}

pub open spec fn has_trigger(a: Seq<AnnotationModel>) -> bool {
    exists|k: int| 0 <= k < a.len() && is_trigger_name(#[trigger] a[k].name)
}

impl ClassDefinition {
    /// Whether the class carries the annotation that selects it for generation.
    pub fn contains_freezed_annotation(&self) -> (r: bool)
        ensures
            r == has_trigger(self@.annotations),
    {
        let mut k: usize = 0;
        while k < self.annotations.len()
            invariant
                k <= self.annotations@.len(),
                forall|m: int| 0 <= m < k ==> !is_trigger_name(#[trigger] self@.annotations[m].name),
            decreases self.annotations.len() - k,
        {
            if self.annotations[k].is_freezed_annotation() {
                assert(is_trigger_name(self@.annotations[k as int].name));
                return true;
            }
            k = k + 1;
        }
        false
    }
}

/// Annotations, `class `, a name, an optional `with` clause, an optional
/// `implements` clause, `{`, the body items, `}`.
pub open spec fn class_spec(s: Seq<char>, i: int) -> Step<ClassModel> {
    let (a, anns) = annotations_spec(s, i);
    let b = wsc_end(s, a);
    if !starts_at(s, b, "class "@) {
        Step::NoMatch
    } else {
        let c = wsc_end(s, b + "class "@.len());
        match ident_end(s, c) {
            None => Step::NoMatch,
            Some(d) => {
                let name = s.subrange(c, d);
                match clause_spec(s, wsc_end(s, d), "with "@) {
                    None => Step::NoMatch,
                    Some((g, mixins)) => match clause_spec(s, wsc_end(s, g), "implements "@) {
                        None => Step::NoMatch,
                        Some((h, interfaces)) => {
                            let m = wsc_end(s, h);
                            if !tok(s, m, '{') {
                                Step::NoMatch
                            } else {
                                match body_items(s, m + 1, name) {
                                    Step::NoMatch => Step::NoMatch,
                                    Step::Fatal => Step::Fatal,
                                    Step::Found(n, items) => Step::Found(n + 1, ClassModel { annotations: anns, name, mixins, interfaces, items }),
                                }
                            }
                        },
                    },
                }
            },
        }
    }
}

/// Parses the class declaration at `i`.
pub fn class_at(s: &Vec<char>, i: usize) -> (r: Result<Option<(usize, ClassDefinition)>, ParseError>)
    requires
        i <= s@.len(),
    ensures
        match class_spec(s@, i as int) {
            Step::Found(e, m) => r matches Ok(Some((end, c))) && end == e && c@ == m,
            Step::NoMatch => r matches Ok(None),
            Step::Fatal => r is Err,
        },
        r matches Ok(Some((end, _))) ==> i < end <= s@.len(),
{
    let (a, annotations) = annotations_at(s, i);
    let b = wsc_at(s, a);
    let b2 = match keyword_end_at(s, b, "class ") { Some(x) => x, None => return Ok(None) };
    let c = wsc_at(s, b2);
    let (d, name) = match identifier_at(s, c) { Some(x) => x, None => return Ok(None) };
    let d2 = wsc_at(s, d);
    let (g, mixin_types) = match clause_at(s, d2, "with ") { Some(x) => x, None => return Ok(None) };
    let g2 = wsc_at(s, g);
    let (h, implemented_types) = match clause_at(s, g2, "implements ") { Some(x) => x, None => return Ok(None) };
    let m = match expect_at(s, h, '{') { Some(x) => x, None => return Ok(None) };
    let name_chars = chars_of(name.as_str());
    let (n, items) = match class_items_at(s, m, &name_chars) {
        Ok(Some(x)) => x,
        Ok(None) => return Ok(None),
        Err(e) => return Err(e),
    };
    assert(n < s.len());
    Ok(Some((n + 1, ClassDefinition { annotations, name, mixin_types, implemented_types, item_info: ClassItemInfo { items } })))
}

/// Parses a class declaration at the start of `input`.
pub fn class(input: &str) -> (r: Result<(String, ClassDefinition), ParseError>)
    ensures
        match class_spec(input@, 0) {
            Step::Found(e, m) => r matches Ok((rest, c)) && rest@ == input@.subrange(e, input@.len() as int) && c@ == m,
            _ => r is Err,
        },
{
    let s = chars_of(input);
    match class_at(&s, 0) {
        Ok(p) => finish(&s, p),
        Err(e) => Err(e),
    }
}

/// Parses an optional `with` clause at the start of `input`.
pub fn parse_mixin_types(input: &str) -> (r: Result<(String, Vec<Identifier>), ParseError>)
    ensures
        match clause_spec(input@, 0, "with "@) {
            Some((e, m)) => r matches Ok((rest, v)) && rest@ == input@.subrange(e, input@.len() as int)
                && views_of_idents(v@) == m,
            None => r is Err,
        },
{
    let s = chars_of(input);
    let p = clause_at(&s, 0, "with ");
    finish(&s, p)
}

/// Parses a private constructor of the class `class_name` at the start of `input`.
pub fn private_constructor(class_name: &Identifier, input: &str) -> (r: Result<(String, PrivateConstructor), ParseError>)
    ensures
        match private_constructor_spec(input@, 0, class_name@) {
            Some((e, c)) => r matches Ok((rest, p)) && rest@ == input@.subrange(e, input@.len() as int) && p.is_const == c,
            None => r is Err,
        },
{
    let s = chars_of(input);
    let name = chars_of(class_name.as_str());
    let p = private_constructor_at(&s, 0, &name);
    finish(&s, p)
}

/// Parses a factory constructor of the class `class_name` at the start of `input`.
pub fn factory_constructor(class_name: &Identifier, input: &str) -> (r: Result<(String, FactoryConstructor), ParseError>)
    ensures
        match factory_constructor_spec(input@, 0, class_name@) {
            Some((e, m)) => r matches Ok((rest, f)) && rest@ == input@.subrange(e, input@.len() as int) && f@ == m,
            None => r is Err,
        },
{
    let s = chars_of(input);
    let name = chars_of(class_name.as_str());
    let p = factory_constructor_at(&s, 0, &name);
    finish(&s, p)
}

/// Parses the items of the body of class `class_name`, which starts `input`;
/// the text that remains starts at the closing `}`.
pub fn class_item_info(class_name: &Identifier, input: &str) -> (r: Result<(String, ClassItemInfo), ParseError>)
    ensures
        match body_items(input@, 0, class_name@) {
            Step::Found(e, m) => r matches Ok((rest, info)) && rest@ == input@.subrange(e, input@.len() as int)
                && views_of_items(info.items@) == m,
            _ => r is Err,
        },
{
    let s = chars_of(input);
    let name = chars_of(class_name.as_str());
    match class_items_at(&s, 0, &name) {
        Ok(Some((e, items))) => finish(&s, Some((e, ClassItemInfo { items }))),
        _ => Err(ParseError),
    }
}

} // verus!
