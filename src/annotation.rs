//! Annotations such as `@freezed` or `@Default(1)`, with their raw parameter text.
use vstd::prelude::*;
use crate::lexer::{
    unit_end, wsc_end, ident_end, literal_close, some_whitespace_at, wsc_at, identifier_at,
    literal_close_at, finish, Identifier, ParseError,
};
use crate::text::{chars_of, same_text, string_from_range};

verus! {

/// Position of the parenthesis that closes the parameter text starting at `i`.
/// Lexical noise and string literals are skipped whole, and nested
/// parentheses are matched, so that the characters inside them do not count.
pub open spec fn scan_close(s: Seq<char>, i: int) -> Option<int>
    decreases s.len() - i,
{
    if i < 0 || i >= s.len() {
        None
    } else {
        match unit_end(s, i) {
            Some(j) => if i < j <= s.len() {
                scan_close(s, j)
            } else {
                None
            },
            None => match literal_close(s, i) {
                Some(k) => if i < k < s.len() {
                    scan_close(s, k + 1)
                } else {
                    None
                },
                None => if s[i] == '(' {
                    match scan_close(s, i + 1) {
                        Some(k) => if i < k < s.len() {
                            scan_close(s, k + 1)
                        } else {
                            None
                        },
                        None => None,
                    }
                } else if s[i] == ')' {
                    Some(i)
                } else {
                    scan_close(s, i + 1)
                },
            },
        }
    }
}

/// Finds the parenthesis that closes the parameter text starting at `i`.
pub fn scan_close_at(s: &Vec<char>, i: usize) -> (r: Option<usize>)
    requires
        i <= s@.len(),
    ensures
        match r {
            Some(k) => scan_close(s@, i as int) == Some(k as int) && i <= k < s@.len() && s@[k as int] == ')',
            None => scan_close(s@, i as int) is None,
        },
    decreases s@.len() - i,
{
    let mut p: usize = i;
    loop
        invariant
            i <= p <= s@.len(),
            scan_close(s@, i as int) == scan_close(s@, p as int),
        decreases s@.len() - p,
    {
        if p >= s.len() {
            return None;
        }
        match some_whitespace_at(s, p) {
            Some(j) => {
                p = j;
            },
            None => match literal_close_at(s, p) {
                Some(k) => {
                    p = k + 1;
                },
                None => {
                    if s[p] == '(' {
                        match scan_close_at(s, p + 1) {
                            Some(k) => {
                                p = k + 1;
                            },
                            None => {
                                return None;
                            },
                        }
                    } else if s[p] == ')' {
                        return Some(p);
                    } else {
                        p = p + 1;
                    }
                },
            },
        }
    }
}

/// What an annotation holds: its name and the raw text between its parentheses.
pub struct AnnotationModel {
    pub name: Seq<char>,
    pub parameters: Seq<char>,
}

/// An annotation such as `@Default(1)`: the name and the raw parameter text.
#[derive(Debug, PartialEq, Eq, Clone)]
pub struct Annotation {
    pub name: Identifier,
    pub parameters: String,
}

impl View for Annotation {
    type V = AnnotationModel;

    open spec fn view(&self) -> AnnotationModel {
        AnnotationModel { name: self.name@, parameters: self.parameters@ }
    }
}

pub open spec fn views_of_annotations(v: Seq<Annotation>) -> Seq<AnnotationModel> {
    v.map_values(|a: Annotation| a@)
}

pub open spec fn is_trigger_name(n: Seq<char>) -> bool {
    n == "freezed"@ || n == "Freezed"@
}

pub open spec fn is_default_name(n: Seq<char>) -> bool {
    n == "Default"@
}

impl Annotation {
    /// Whether this is the annotation that selects a class for generation.
    pub fn is_freezed_annotation(&self) -> (r: bool)
        ensures
            r == is_trigger_name(self.name@),
    {
        same_text(self.name.as_str(), "freezed") || same_text(self.name.as_str(), "Freezed")
    }

    /// Whether this annotation gives a parameter its default value.
    pub fn is_default_annotation(&self) -> (r: bool)
        ensures
            r == is_default_name(self.name@),
    {
        same_text(self.name.as_str(), "Default")
    }

    /// A copy with the same name and parameter text.
    pub fn duplicate(&self) -> (r: Annotation)
        ensures
            r@ == self@,
    {
        Annotation { name: self.name.duplicate(), parameters: self.parameters.clone() }
    }
}

/// `@`, a name, and optionally a parenthesised parameter text.
pub open spec fn annotation_spec(s: Seq<char>, i: int) -> Option<(int, AnnotationModel)> {
    if !(0 <= i < s.len() && s[i] == '@') {
        None
    } else {
        let a = wsc_end(s, i + 1);
        match ident_end(s, a) {
            None => None,
            Some(b) => {
                let c = wsc_end(s, b);
                if 0 <= c < s.len() && s[c] == '(' {
                    match scan_close(s, c + 1) {
                        Some(k) => Some((k + 1, AnnotationModel { name: s.subrange(a, b), parameters: s.subrange(c + 1, k) })),
                        None => None,
                    }
                } else {
                    Some((c, AnnotationModel { name: s.subrange(a, b), parameters: Seq::empty() }))
                }
            },
        }
    }
}

/// Parses the annotation at `i`.
pub fn annotation_at(s: &Vec<char>, i: usize) -> (r: Option<(usize, Annotation)>)
    requires
        i <= s@.len(),
    ensures
        match annotation_spec(s@, i as int) {
            Some((e, m)) => r matches Some((end, a)) && end == e && a@ == m,
            None => r is None,
        },
        r matches Some((end, _)) ==> i < end <= s@.len(),
{
    if i >= s.len() || s[i] != '@' {
        return None;
    }
    let a = wsc_at(s, i + 1);
    match identifier_at(s, a) {
        None => None,
        Some((b, name)) => {
            let c = wsc_at(s, b);
            if c < s.len() && s[c] == '(' {
                match scan_close_at(s, c + 1) {
                    Some(k) => {
                        let parameters = string_from_range(s, c + 1, k);
                        Some((k + 1, Annotation { name, parameters }))
                    },
                    None => None,
                }
            } else {
                let parameters = String::new();
                assert(parameters@ =~= Seq::<char>::empty());
                Some((c, Annotation { name, parameters }))
            }
        },
    }
}

/// Zero or more annotations, each after optional lexical noise.
pub open spec fn annotations_spec(s: Seq<char>, i: int) -> (int, Seq<AnnotationModel>)
    decreases s.len() - i,
{
    match annotation_spec(s, wsc_end(s, i)) {
        Some((e, a)) => if i < e <= s.len() {
            let rest = annotations_spec(s, e);
            (rest.0, seq![a] + rest.1)
        } else {
            (i, Seq::empty())
        },
        None => (i, Seq::empty()),
    }
}

/// Parses zero or more annotations at `i`.
pub fn annotations_at(s: &Vec<char>, i: usize) -> (r: (usize, Vec<Annotation>))
    requires
        i <= s@.len(),
    ensures
        r.0 == annotations_spec(s@, i as int).0,
        views_of_annotations(r.1@) == annotations_spec(s@, i as int).1,
        i <= r.0 <= s@.len(),
{
    let mut p: usize = i;
    let mut out: Vec<Annotation> = Vec::new();
    loop
        invariant
            i <= p <= s@.len(),
            annotations_spec(s@, i as int).0 == annotations_spec(s@, p as int).0,
            annotations_spec(s@, i as int).1 == views_of_annotations(out@) + annotations_spec(s@, p as int).1,
        decreases s@.len() - p,
    {
        let q = wsc_at(s, p);
        match annotation_at(s, q) {
            Some((e, a)) => {
                proof {
                    let rest = annotations_spec(s@, e as int);
                    assert(views_of_annotations(out@.push(a)) =~= views_of_annotations(out@).push(a@));
                    assert(views_of_annotations(out@) + (seq![a@] + rest.1) =~= views_of_annotations(out@).push(a@) + rest.1);
                }
                out.push(a);
                p = e;
            },
            None => {
                proof {
                    assert(views_of_annotations(out@) + Seq::<AnnotationModel>::empty() =~= views_of_annotations(out@));
                }
                return (p, out);
            },
        }
    }
}

/// Parses one annotation at the start of `input`.
pub fn annotation(input: &str) -> (r: Result<(String, Annotation), ParseError>)
    ensures
        match annotation_spec(input@, 0) {
            Some((e, m)) => r matches Ok((rest, a)) && rest@ == input@.subrange(e, input@.len() as int) && a@ == m,
            None => r is Err,
        },
{
    let s = chars_of(input);
    let p = annotation_at(&s, 0);
    finish(&s, p)
}

/// Parses zero or more annotations at the start of `input`; never fails.
pub fn annotations0(input: &str) -> (r: Result<(String, Vec<Annotation>), ParseError>)
    ensures
        r matches Ok((rest, v)) && rest@ == input@.subrange(annotations_spec(input@, 0).0, input@.len() as int)
            && views_of_annotations(v@) == annotations_spec(input@, 0).1,
{
    let s = chars_of(input);
    let (e, v) = annotations_at(&s, 0);
    finish(&s, Some((e, v)))
}

/// Scans the parameter text of an annotation, which starts right after its
/// opening parenthesis: the text that remains starts at the closing
/// parenthesis, and the value is the text before it.
pub fn get_parameters_string(input: &str) -> (r: Result<(String, String), ParseError>)
    ensures
        match scan_close(input@, 0) {
            Some(k) => r matches Ok((rest, text)) && rest@ == input@.subrange(k, input@.len() as int)
                && text@ == input@.subrange(0, k),
            None => r is Err,
        },
{
    let s = chars_of(input);
    match scan_close_at(&s, 0) {
        Some(k) => {
            let text = string_from_range(&s, 0, k);
            finish(&s, Some((k, text)))
        },
        None => Err(ParseError),
    }
}

} // verus!
