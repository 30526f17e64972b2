//! Token parsers on text: each returns the text that remains and what it read.
use vstd::prelude::*;
use crate::lexer::{
    space_end, find_char, find_block_end, lemma_find_char, lemma_find_block_end, wsc_end, unit_end, ident_end, quote_stop, literal_close, some_whitespace_at,
    wsc_at, identifier_at, literal_close_at, finish, Identifier, ParseError,
};
use crate::text::{chars_of, starts_at, string_from_range};

verus! {

/// `input[from..]` and `input[a..b]` as a parse result.
fn split_result(s: &Vec<char>, rest_from: usize, a: usize, b: usize) -> (r: Result<(String, String), ParseError>)
    requires
        rest_from <= s@.len(),
        a <= b <= s@.len(),
    ensures
        r matches Ok((rest, v)) && rest@ == s@.subrange(rest_from as int, s@.len() as int)
            && v@ == s@.subrange(a as int, b as int),
{
    let v = string_from_range(s, a, b);
    finish(s, Some((rest_from, v)))
}

/// One or more spaces, tabs, carriage returns or newlines.
pub fn ws(input: &str) -> (r: Result<(String, String), ParseError>)
    ensures
        space_end(input@, 0) > 0 ==> (r matches Ok((rest, v)) && rest@ == input@.subrange(space_end(input@, 0), input@.len() as int)
            && v@ == input@.subrange(0, space_end(input@, 0))),
        space_end(input@, 0) == 0 ==> r is Err,
{
    let s = chars_of(input);
    match some_whitespace_at(&s, 0) {
        Some(e) => {
            if s[0] == '/' {
                return Err(ParseError);
            }
            split_result(&s, e, 0, e)
        },
        None => Err(ParseError),
    }
}

/// `//`, then text up to a newline, which is consumed too; the value is the text.
pub fn line_comment(input: &str) -> (r: Result<(String, String), ParseError>)
    ensures
        ({
            let k = find_char(input@, 2, '\n');
            if starts_at(input@, 0, seq!['/', '/']) && k < input@.len() {
                r matches Ok((rest, v)) && rest@ == input@.subrange(k + 1, input@.len() as int) && v@ == input@.subrange(2, k)
            } else {
                r is Err
            }
        }),
{
    let s = chars_of(input);
    if !(s.len() >= 2 && s[0] == '/' && s[1] == '/') {
        assert(!starts_at(input@, 0, seq!['/', '/'])) by {
            if s@.len() >= 2 {
                assert(s@.subrange(0, 2)[0] == s@[0]);
                assert(s@.subrange(0, 2)[1] == s@[1]);
            }
        }
        return Err(ParseError);
    }
    assert(s@.subrange(0, 2) =~= seq!['/', '/']);
    match some_whitespace_at(&s, 0) {
        Some(e) => {
            proof {
                lemma_find_char(s@, 2, '\n');
            }
            split_result(&s, e, 2, e - 1)
        },
        None => Err(ParseError),
    }
}

/// `/*`, then text up to `*/`, which is consumed too; the value is the text.
pub fn multi_line_comment(input: &str) -> (r: Result<(String, String), ParseError>)
    ensures
        ({
            let k = find_block_end(input@, 2);
            if starts_at(input@, 0, seq!['/', '*']) && k < input@.len() {
                r matches Ok((rest, v)) && rest@ == input@.subrange(k + 2, input@.len() as int) && v@ == input@.subrange(2, k)
            } else {
                r is Err
            }
        }),
{
    let s = chars_of(input);
    if !(s.len() >= 2 && s[0] == '/' && s[1] == '*') {
        assert(!starts_at(input@, 0, seq!['/', '*'])) by {
            if s@.len() >= 2 {
                assert(s@.subrange(0, 2)[0] == s@[0]);
                assert(s@.subrange(0, 2)[1] == s@[1]);
            }
        }
        return Err(ParseError);
    }
    assert(s@.subrange(0, 2) =~= seq!['/', '*']);
    assert(!starts_at(s@, 0, seq!['/', '/'])) by {
        assert(s@.subrange(0, 2)[1] == '*');
    }
    match some_whitespace_at(&s, 0) {
        Some(e) => {
            proof {
                lemma_find_block_end(s@, 2);
            }
            split_result(&s, e, 2, e - 2)
        },
        None => Err(ParseError),
    }
}

/// Removes all whitespace and comments at the start of `input`; never fails,
/// and the value is empty.
pub fn wsc(input: &str) -> (r: Result<(String, String), ParseError>)
    ensures
        r matches Ok((rest, v)) && rest@ == input@.subrange(wsc_end(input@, 0), input@.len() as int) && v@.len() == 0,
{
    let s = chars_of(input);
    let e = wsc_at(&s, 0);
    split_result(&s, e, 0, 0)
}

/// Removes exactly one run of whitespace or one comment at the start of
/// `input`; the value is the text removed.
pub fn some_whitespace(input: &str) -> (r: Result<(String, String), ParseError>)
    ensures
        match unit_end(input@, 0) {
            Some(e) => r matches Ok((rest, v)) && rest@ == input@.subrange(e, input@.len() as int) && v@ == input@.subrange(0, e),
            None => r is Err,
        },
{
    let s = chars_of(input);
    match some_whitespace_at(&s, 0) {
        Some(e) => split_result(&s, e, 0, e),
        None => Err(ParseError),
    }
}

/// An identifier at the start of `input`.
pub fn identifier(input: &str) -> (r: Result<(String, Identifier), ParseError>)
    ensures
        match ident_end(input@, 0) {
            Some(e) => r matches Ok((rest, id)) && rest@ == input@.subrange(e, input@.len() as int) && id@ == input@.subrange(0, e),
            None => r is Err,
        },
{
    let s = chars_of(input);
    let p = identifier_at(&s, 0);
    finish(&s, p)
}

/// A single- or double-quoted string at the start of `input`; the value is
/// the text between the quotes.
pub fn string_literal_str(input: &str) -> (r: Result<(String, String), ParseError>)
    ensures
        match literal_close(input@, 0) {
            Some(k) => r matches Ok((rest, v)) && rest@ == input@.subrange(k + 1, input@.len() as int) && v@ == input@.subrange(1, k),
            None => r is Err,
        },
{
    let s = chars_of(input);
    match literal_close_at(&s, 0) {
        Some(k) => {
            assert(k < s.len());
            split_result(&s, k + 1, 1, k)
        },
        None => Err(ParseError),
    }
}

/// A single- or double-quoted string at the start of `input`; the value is
/// the text between the quotes.
pub fn string_literal(input: &str) -> (r: Result<(String, String), ParseError>)
    ensures
        match literal_close(input@, 0) {
            Some(k) => r matches Ok((rest, v)) && rest@ == input@.subrange(k + 1, input@.len() as int) && v@ == input@.subrange(1, k),
            None => r is Err,
        },
{
    string_literal_str(input)
}

/// A string in quotes `q` at the start of `input`.
fn quote_string(q: char, input: &str) -> (r: Result<(String, String), ParseError>)
    ensures
        (input@.len() > 0 && input@[0] == q) ==> match literal_close(input@, 0) {
            Some(k) => r matches Ok((rest, v)) && rest@ == input@.subrange(k + 1, input@.len() as int) && v@ == input@.subrange(1, k),
            None => r is Err,
        },
        !(input@.len() > 0 && input@[0] == q) ==> r is Err,
{
    let s = chars_of(input);
    if s.len() == 0 || s[0] != q {
        return Err(ParseError);
    }
    string_literal_str(input)
}

/// A double-quoted string at the start of `input`.
pub fn double_quote_string(input: &str) -> (r: Result<(String, String), ParseError>)
    ensures
        (input@.len() > 0 && input@[0] == '"') ==> match literal_close(input@, 0) {
            Some(k) => r matches Ok((rest, v)) && rest@ == input@.subrange(k + 1, input@.len() as int) && v@ == input@.subrange(1, k),
            None => r is Err,
        },
        !(input@.len() > 0 && input@[0] == '"') ==> r is Err,
{
    quote_string('"', input)
}

/// A single-quoted string at the start of `input`.
pub fn single_quote_string(input: &str) -> (r: Result<(String, String), ParseError>)
    ensures
        (input@.len() > 0 && input@[0] == '\'') ==> match literal_close(input@, 0) {
            Some(k) => r matches Ok((rest, v)) && rest@ == input@.subrange(k + 1, input@.len() as int) && v@ == input@.subrange(1, k),
            None => r is Err,
        },
        !(input@.len() > 0 && input@[0] == '\'') ==> r is Err,
{
    quote_string('\'', input)
}

/// One or more characters that are neither a newline nor `q`.
fn is_not_newline_or(q: char, input: &str) -> (r: Result<(String, String), ParseError>)
    ensures
        quote_stop(input@, 0, q) > 0 ==> (r matches Ok((rest, v))
            && rest@ == input@.subrange(quote_stop(input@, 0, q), input@.len() as int)
            && v@ == input@.subrange(0, quote_stop(input@, 0, q))),
        quote_stop(input@, 0, q) <= 0 ==> r is Err,
{
    let s = chars_of(input);
    let mut k: usize = 0;
    while k < s.len() && s[k] != '\n' && s[k] != q
        invariant
            k <= s@.len(),
            s@ == input@,
            quote_stop(s@, 0, q) == quote_stop(s@, k as int, q),
        decreases s.len() - k,
    {
        k = k + 1;
    }
    if k == 0 {
        return Err(ParseError);
    }
    split_result(&s, k, 0, k)
}

/// One or more characters that are neither a newline nor a single quote.
pub fn is_not_newline_or_single_quote(input: &str) -> (r: Result<(String, String), ParseError>)
    ensures
        quote_stop(input@, 0, '\'') > 0 ==> (r matches Ok((rest, v))
            && rest@ == input@.subrange(quote_stop(input@, 0, '\''), input@.len() as int)
            && v@ == input@.subrange(0, quote_stop(input@, 0, '\''))),
        quote_stop(input@, 0, '\'') <= 0 ==> r is Err,
{
    is_not_newline_or('\'', input)
}

/// One or more characters that are neither a newline nor a double quote.
pub fn is_not_newline_or_double_quote(input: &str) -> (r: Result<(String, String), ParseError>)
    ensures
        quote_stop(input@, 0, '"') > 0 ==> (r matches Ok((rest, v))
            && rest@ == input@.subrange(quote_stop(input@, 0, '"'), input@.len() as int)
            && v@ == input@.subrange(0, quote_stop(input@, 0, '"'))),
        quote_stop(input@, 0, '"') <= 0 ==> r is Err,
{
    is_not_newline_or('"', input)
}

} // verus!
