//! Import statements.
use vstd::prelude::*;
use crate::lexer::{wsc_end, literal_close, find_char, wsc_at, literal_close_at, keyword_end_at, finish, ParseError};
use crate::text::{chars_of, same_text, starts_at, string_from_range};

verus! {

/// The path of the import that opts a file into diagnostics support.
pub const DIAGNOSTICS_IMPORT_PATH: &'static str = "package:flutter/foundation.dart";

/// An import statement; only its path is kept.
#[derive(Debug, PartialEq, Eq, Clone)]
pub struct ImportStatement {
    pub path: String,
}

impl ImportStatement {
    /// Whether this imports the diagnostics foundation library.
    pub fn is_flutter_foundation_import(&self) -> (r: bool)
        ensures
            r == (self.path@ == DIAGNOSTICS_IMPORT_PATH@),
    {
        same_text(self.path.as_str(), DIAGNOSTICS_IMPORT_PATH)
    }
}

/// `import `, a quoted path, then everything up to and including the next `;`.
pub open spec fn import_spec(s: Seq<char>, i: int) -> Option<(int, Seq<char>)> {
    if !starts_at(s, i, "import "@) {
        None
    } else {
        let a = wsc_end(s, i + "import "@.len());
        match literal_close(s, a) {
            None => None,
            Some(k) => {
                let semi = find_char(s, k + 1, ';');
                if k + 1 <= semi < s.len() {
                    Some((semi + 1, s.subrange(a + 1, k)))
                } else {
                    None
                }
            },
        }
    }
}

/// Parses the import statement at `i`.
pub fn import_at(s: &Vec<char>, i: usize) -> (r: Option<(usize, ImportStatement)>)
    requires
        i <= s@.len(),
    ensures
        match import_spec(s@, i as int) {
            Some((e, p)) => r matches Some((end, x)) && end == e && x.path@ == p,
            None => r is None,
        },
        r matches Some((end, _)) ==> i < end <= s@.len(),
{
    let b = match keyword_end_at(s, i, "import ") { Some(x) => x, None => return None };
    let a = wsc_at(s, b);
    let k = match literal_close_at(s, a) { Some(x) => x, None => return None };
    assert(k < s.len());
    let mut m: usize = k + 1;
    while m < s.len() && s[m] != ';'
        invariant
            k + 1 <= m <= s@.len(),
            find_char(s@, k + 1, ';') == find_char(s@, m as int, ';'),
        decreases s.len() - m,
    {
        m = m + 1;
    }
    if m >= s.len() {
        return None;
    }
    let path = string_from_range(s, a + 1, k);
    Some((m + 1, ImportStatement { path }))
}

/// Parses an import statement at the start of `input`.
pub fn import_statement(input: &str) -> (r: Result<(String, ImportStatement), ParseError>)
    ensures
        match import_spec(input@, 0) {
            Some((e, p)) => r matches Ok((rest, x)) && rest@ == input@.subrange(e, input@.len() as int) && x.path@ == p,
            None => r is Err,
        },
{
    let s = chars_of(input);
    let p = import_at(&s, 0);
    finish(&s, p)
}

} // verus!
