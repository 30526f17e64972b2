//! The file-level parser: imports and classes found among text it does not understand.
use vstd::prelude::*;
use crate::lexer::{wsc_end, wsc_at, ParseError};
use crate::import::{import_spec, import_at, ImportStatement};
use crate::class::{class_spec, class_at, has_trigger, ClassDefinition, ClassModel, Step};
use crate::text::{chars_of, string_from_range};

verus! {

/// What a top-level item holds.
pub enum TopLevelModel {
    Import(Seq<char>),
    Class(ClassModel),
}

/// An item recognised at the top level of a file.
#[derive(Debug, PartialEq, Eq)]
pub enum TopLevelItems {
    Import(ImportStatement),
    Class(ClassDefinition),
}

impl View for TopLevelItems {
    type V = TopLevelModel;

    open spec fn view(&self) -> TopLevelModel {
        match self {
            TopLevelItems::Import(x) => TopLevelModel::Import(x.path@),
            TopLevelItems::Class(c) => TopLevelModel::Class(c@),
        }
    }
}

pub open spec fn views_of_top(v: Seq<TopLevelItems>) -> Seq<TopLevelModel> {
    v.map_values(|x: TopLevelItems| x@)
}

/// The items recognised in a file, in order.
#[derive(Debug, PartialEq, Eq)]
pub struct ParsedFile {
    pub items: Vec<TopLevelItems>,
}

/// An import, or else a class, at `i`.
pub open spec fn top_item_spec(s: Seq<char>, i: int) -> Step<TopLevelModel> {
    match import_spec(s, i) {
        Some((e, p)) => Step::Found(e, TopLevelModel::Import(p)),
        None => match class_spec(s, i) {
            Step::Found(e, c) => Step::Found(e, TopLevelModel::Class(c)),
            Step::NoMatch => Step::NoMatch,
            Step::Fatal => Step::Fatal,
        },
    }
}

/// As many top-level items as follow one another at `j`; the flag tells
/// whether a fatal failure stopped them.
pub open spec fn file_many(s: Seq<char>, j: int) -> (int, Seq<TopLevelModel>, bool)
    decreases s.len() - j,
{
    match top_item_spec(s, j) {
        Step::Found(e, x) => if j < e <= s.len() {
            let r = file_many(s, e);
            (r.0, seq![x] + r.1, r.2)
        } else {
            (j, Seq::empty(), false)
        },
        Step::NoMatch => (j, Seq::empty(), false),
        Step::Fatal => (j, Seq::empty(), true),
    }
}

/// Rounds of "skip lexical noise, then take as many items as follow", until a
/// round other than the first finds none, or a fatal failure.
pub open spec fn file_round(s: Seq<char>, i: int, first: bool) -> (int, Seq<TopLevelModel>, bool)
    decreases s.len() - i, if first { 1int } else { 0int },
{
    let j = wsc_end(s, i);
    let (k, items, fatal) = file_many(s, j);
    if fatal {
        (k, items, true)
    } else if items.len() == 0 && !first {
        (k, items, false)
    } else if !(0 <= i <= k <= s.len()) || (!first && k == i) {
        (k, items, false)
    } else {
        let r = file_round(s, k, false);
        (r.0, items + r.1, r.2)
    }
}

/// The items of a file from `i` on: rounds of items, and where they stop
/// short of the end, one character is dropped and the search goes on. The
/// flag tells whether a rule that opened failed partway, which fails the file.
pub open spec fn file_items(s: Seq<char>, i: int) -> (int, Seq<TopLevelModel>, bool)
    decreases s.len() - i,
{
    let (k, items, fatal) = file_round(s, i, true);
    if fatal || !(0 <= i <= k < s.len()) {
        (k, items, fatal)
    } else {
        let r = file_items(s, k + 1);
        (r.0, items + r.1, r.2)
    }
}

proof fn lemma_views_of_top_append(a: Seq<TopLevelItems>, b: Seq<TopLevelItems>)
    ensures
        views_of_top(a + b) == views_of_top(a) + views_of_top(b),
{
    assert(views_of_top(a + b) =~= views_of_top(a) + views_of_top(b));
}

fn top_item_at(s: &Vec<char>, i: usize) -> (r: Result<Option<(usize, TopLevelItems)>, ParseError>)
    requires
        i <= s@.len(),
    ensures
        match top_item_spec(s@, i as int) {
            Step::Found(e, m) => r matches Ok(Some((end, x))) && end == e && x@ == m,
            Step::NoMatch => r matches Ok(None),
            Step::Fatal => r is Err,
        },
        r matches Ok(Some((end, _))) ==> i < end <= s@.len(),
{
    match import_at(s, i) {
        Some((e, x)) => Ok(Some((e, TopLevelItems::Import(x)))),
        None => match class_at(s, i) {
            Ok(Some((e, c))) => Ok(Some((e, TopLevelItems::Class(c)))),
            Ok(None) => Ok(None),
            Err(e) => Err(e),
        },
    }
}

fn file_many_at(s: &Vec<char>, j: usize) -> (r: (usize, Vec<TopLevelItems>, bool))
    requires
        j <= s@.len(),
    ensures
        r.0 == file_many(s@, j as int).0,
        views_of_top(r.1@) == file_many(s@, j as int).1,
        r.2 == file_many(s@, j as int).2,
        j <= r.0 <= s@.len(),
{
    let mut p: usize = j;
    let mut out: Vec<TopLevelItems> = Vec::new();
    loop
        invariant
            j <= p <= s@.len(),
            file_many(s@, j as int).0 == file_many(s@, p as int).0,
            file_many(s@, j as int).1 == views_of_top(out@) + file_many(s@, p as int).1,
            file_many(s@, j as int).2 == file_many(s@, p as int).2,
        decreases s@.len() - p,
    {
        match top_item_at(s, p) {
            Ok(Some((e, x))) => {
                proof {
                    let rest = file_many(s@, e as int);
                    assert(views_of_top(out@.push(x)) =~= views_of_top(out@).push(x@));
                    assert(views_of_top(out@) + (seq![x@] + rest.1) =~= views_of_top(out@).push(x@) + rest.1);
                }
                out.push(x);
                p = e;
            },
            Ok(None) => {
                assert(views_of_top(out@) + Seq::<TopLevelModel>::empty() =~= views_of_top(out@));
                return (p, out, false);
            },
            Err(_) => {
                assert(views_of_top(out@) + Seq::<TopLevelModel>::empty() =~= views_of_top(out@));
                return (p, out, true);
            },
        }
    }
}

fn file_round_at(s: &Vec<char>, i: usize) -> (r: (usize, Vec<TopLevelItems>, bool))
    requires
        i <= s@.len(),
    ensures
        r.0 == file_round(s@, i as int, true).0,
        views_of_top(r.1@) == file_round(s@, i as int, true).1,
        r.2 == file_round(s@, i as int, true).2,
        i <= r.0 <= s@.len(),
{
    let mut q: usize = i;
    let mut first = true;
    let mut out: Vec<TopLevelItems> = Vec::new();
    loop
        invariant
            i <= q <= s@.len(),
            file_round(s@, i as int, true).0 == file_round(s@, q as int, first).0,
            file_round(s@, i as int, true).1 == views_of_top(out@) + file_round(s@, q as int, first).1,
            file_round(s@, i as int, true).2 == file_round(s@, q as int, first).2,
        decreases s@.len() - q, if first { 1int } else { 0int },
    {
        let j = wsc_at(s, q);
        let (k, mut items, fatal) = file_many_at(s, j);
        if !fatal && items.len() == 0 && !first {
            assert(views_of_top(items@) =~= Seq::<TopLevelModel>::empty());
            assert(views_of_top(out@) + Seq::<TopLevelModel>::empty() =~= views_of_top(out@));
            return (k, out, false);
        }
        proof {
            lemma_views_of_top_append(out@, items@);
        }
        let ghost before = out@;
        out.append(&mut items);
        if fatal || (!first && k == q) {
            assert(views_of_top(out@) =~= views_of_top(before) + file_round(s@, q as int, first).1);
            return (k, out, fatal);
        }
        proof {
            let r = file_round(s@, k as int, false);
            assert(views_of_top(before) + (file_many(s@, j as int).1 + r.1) =~= views_of_top(out@) + r.1);
        }
        q = k;
        first = false;
    }
}

/// Parses a whole file into the items it recognises. Text that no item
/// matches is skipped one character at a time; a rule that opened and then
/// failed (a factory constructor whose parameter list does not parse) fails
/// the whole file.
pub fn parse_items(s: &Vec<char>) -> (r: Result<Vec<TopLevelItems>, ParseError>)
    ensures
        file_items(s@, 0).2 ==> r is Err,
        !file_items(s@, 0).2 ==> (r matches Ok(v) && views_of_top(v@) == file_items(s@, 0).1),
{
    let mut p: usize = 0;
    let mut out: Vec<TopLevelItems> = Vec::new();
    loop
        invariant
            p <= s@.len(),
            file_items(s@, 0).1 == views_of_top(out@) + file_items(s@, p as int).1,
            file_items(s@, 0).2 == file_items(s@, p as int).2,
        decreases s@.len() - p,
    {
        let (k, mut items, fatal) = file_round_at(s, p);
        if fatal {
            return Err(ParseError);
        }
        proof {
            lemma_views_of_top_append(out@, items@);
        }
        let ghost before = out@;
        out.append(&mut items);
        if k >= s.len() {
            assert(views_of_top(out@) =~= views_of_top(out@) + Seq::<TopLevelModel>::empty());
            return Ok(out);
        }
        proof {
            let rest = file_items(s@, k + 1);
            assert(views_of_top(before) + (file_round(s@, p as int, true).1 + rest.1) =~= views_of_top(out@) + rest.1);
        }
        p = k + 1;
    }
}

pub open spec fn has_trigger_class(items: Seq<TopLevelModel>) -> bool {
    exists|k: int| 0 <= k < items.len() && (#[trigger] items[k] matches TopLevelModel::Class(c) && has_trigger(c.annotations))
}

impl ParsedFile {
    /// Whether some class of the file carries the trigger annotation.
    pub fn contains_freezed_annotated_class(&self) -> (r: bool)
        ensures
            r == has_trigger_class(views_of_top(self.items@)),
    {
        let mut k: usize = 0;
        while k < self.items.len()
            invariant
                k <= self.items@.len(),
                forall|m: int| 0 <= m < k ==> !(#[trigger] views_of_top(self.items@)[m] matches TopLevelModel::Class(c) && has_trigger(c.annotations)),
            decreases self.items.len() - k,
        {
            match &self.items[k] {
                TopLevelItems::Class(c) => {
                    if c.contains_freezed_annotation() {
                        assert(views_of_top(self.items@)[k as int] == self.items@[k as int]@);
                        return true;
                    }
                },
                TopLevelItems::Import(_) => {},
            }
            k = k + 1;
        }
        false
    }

    /// Parses the text of a source file. Text that no grammar matches is
    /// skipped; a factory constructor that opens (`factory Name(`) and then
    /// does not parse fails the whole file.
    pub fn parse_dart_file(input: &str) -> (r: Result<ParsedFile, ParseError>)
        ensures
            file_items(input@, 0).2 ==> r is Err,
            !file_items(input@, 0).2 ==> (r matches Ok(f) && views_of_top(f.items@) == file_items(input@, 0).1),
    {
        let s = chars_of(input);
        match parse_items(&s) {
            Ok(items) => Ok(ParsedFile { items }),
            Err(e) => Err(e),
        }
    }
}

/// Parses the text of a source file; on success the text that remains is
/// empty.
pub fn parse_file_contents(input: &str) -> (r: Result<(String, ParsedFile), ParseError>)
    ensures
        file_items(input@, 0).2 ==> r is Err,
        !file_items(input@, 0).2 ==> (r matches Ok((rest, f)) && rest@.len() == 0
            && views_of_top(f.items@) == file_items(input@, 0).1),
{
    let s = chars_of(input);
    match parse_items(&s) {
        Ok(items) => Ok((String::new(), ParsedFile { items })),
        Err(e) => Err(e),
    }
}

} // verus!
