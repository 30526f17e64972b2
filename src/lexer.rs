//! Lexical layer: whitespace and comments, identifiers, quoted strings and keywords.
use vstd::prelude::*;
use crate::text::{chars_of, starts_at, matches_at, string_from_range};

verus! {

/// A failed parse. Parsers that fail consume nothing.
#[derive(Debug, PartialEq, Eq, Clone, Copy)]
pub struct ParseError;

pub open spec fn is_space(c: char) -> bool {
    c == ' ' || c == '\t' || c == '\r' || c == '\n'
}

/// End of the run of spaces that starts at `i`.
pub open spec fn space_end(s: Seq<char>, i: int) -> int
    decreases s.len() - i,
{
    if 0 <= i < s.len() && is_space(s[i]) {
        space_end(s, i + 1)
    } else {
        i
    }
}

/// First position at or after `i` that holds `c`, or the length of `s`.
pub open spec fn find_char(s: Seq<char>, i: int, c: char) -> int
    decreases s.len() - i,
{
    if i < 0 || i >= s.len() {
        s.len() as int
    } else if s[i] == c {
        i
    } else {
        find_char(s, i + 1, c)
    }
}

/// First position at or after `i` where `*/` starts, or the length of `s`.
pub open spec fn find_block_end(s: Seq<char>, i: int) -> int
    decreases s.len() - i,
{
    if i < 0 || i + 1 >= s.len() {
        s.len() as int
    } else if s[i] == '*' && s[i + 1] == '/' {
        i
    } else {
        find_block_end(s, i + 1)
    }
}

/// One unit of lexical noise at `i`: a run of spaces, a `//` comment ended by a
/// newline, or a `/* */` comment. `Some(end)` when one is there.
pub open spec fn unit_end(s: Seq<char>, i: int) -> Option<int> {
    if 0 <= i < s.len() && is_space(s[i]) {
        Some(space_end(s, i))
    } else if starts_at(s, i, seq!['/', '/']) {
        let k = find_char(s, i + 2, '\n');
        if k < s.len() {
            Some(k + 1)
        } else {
            None
        }
    } else if starts_at(s, i, seq!['/', '*']) {
        let k = find_block_end(s, i + 2);
        if k < s.len() {
            Some(k + 2)
        } else {
            None
        }
    } else {
        None
    }
}

/// Where the lexical noise that starts at `i` ends.
pub open spec fn wsc_end(s: Seq<char>, i: int) -> int
    decreases s.len() - i,
{
    match unit_end(s, i) {
        Some(j) => if i < j <= s.len() {
            wsc_end(s, j)
        } else {
            i
        },
        None => i,
    }
}

/// `find_char` stays within `s` and lands on `c` when it finds it.
pub proof fn lemma_find_char(s: Seq<char>, i: int, c: char)
    requires
        0 <= i,
    ensures
        i <= find_char(s, i, c) <= s.len() || (i > s.len() && find_char(s, i, c) == s.len()),
        find_char(s, i, c) < s.len() ==> s[find_char(s, i, c)] == c,
    decreases s.len() - i,
{
    if i < s.len() && s[i] != c {
        lemma_find_char(s, i + 1, c);
    }
}

/// `find_block_end` is the length of `s` or a position followed by one more character.
pub proof fn lemma_find_block_end(s: Seq<char>, i: int)
    requires
        0 <= i,
    ensures
        find_block_end(s, i) == s.len() || (i <= find_block_end(s, i) && find_block_end(s, i) + 1 < s.len()),
    decreases s.len() - i,
{
    if i + 1 < s.len() && !(s[i] == '*' && s[i + 1] == '/') {
        lemma_find_block_end(s, i + 1);
    }
}

/// Whether the character at `i` is a space.
fn space_at(s: &Vec<char>, i: usize) -> (r: bool)
    ensures
        r == (i < s@.len() && is_space(s@[i as int])),
{
    i < s.len() && (s[i] == ' ' || s[i] == '\t' || s[i] == '\r' || s[i] == '\n')
}

/// Consumes exactly one unit of lexical noise at `i`, if there is one.
pub fn some_whitespace_at(s: &Vec<char>, i: usize) -> (r: Option<usize>)
    requires
        i <= s@.len(),
    ensures
        match r {
            Some(j) => unit_end(s@, i as int) == Some(j as int),
            None => unit_end(s@, i as int) is None,
        },
        r matches Some(j) ==> i < j <= s@.len(),
{
    if space_at(s, i) {
        let mut k: usize = i;
        while space_at(s, k)
            invariant
                i <= k <= s@.len(),
                space_end(s@, i as int) == space_end(s@, k as int),
            decreases s.len() - k,
        {
            k = k + 1;
        }
        return Some(k);
    }
    let n = s.len();
    if n - i >= 2 && s[i] == '/' && s[i + 1] == '/' {
        assert(starts_at(s@, i as int, seq!['/', '/'])) by {
            assert(s@.subrange(i as int, i + 2) =~= seq!['/', '/']);
        }
        let mut k: usize = i + 2;
        while k < n && s[k] != '\n'
            invariant
                i + 2 <= k <= n == s@.len(),
                find_char(s@, i + 2, '\n') == find_char(s@, k as int, '\n'),
            decreases n - k,
        {
            k = k + 1;
        }
        if k < n {
            return Some(k + 1);
        } else {
            return None;
        }
    }
    if n - i >= 2 && s[i] == '/' && s[i + 1] == '*' {
        assert(starts_at(s@, i as int, seq!['/', '*'])) by {
            assert(s@.subrange(i as int, i + 2) =~= seq!['/', '*']);
        }
        assert(!starts_at(s@, i as int, seq!['/', '/'])) by {
            assert(s@.subrange(i as int, i + 2)[1] == '*');
        }
        let mut k: usize = i + 2;
        while n - k >= 2 && !(s[k] == '*' && s[k + 1] == '/')
            invariant
                i + 2 <= k <= n == s@.len(),
                find_block_end(s@, i + 2) == find_block_end(s@, k as int),
            decreases n - k,
        {
            k = k + 1;
        }
        if n - k >= 2 {
            return Some(k + 2);
        } else {
            return None;
        }
    }
    assert(!starts_at(s@, i as int, seq!['/', '/'])) by {
        if i + 1 < n {
            assert(s@.subrange(i as int, i + 2)[0] == s@[i as int]);
            assert(s@.subrange(i as int, i + 2)[1] == s@[i + 1]);
        }
    }
    assert(!starts_at(s@, i as int, seq!['/', '*'])) by {
        if i + 1 < n {
            assert(s@.subrange(i as int, i + 2)[0] == s@[i as int]);
            assert(s@.subrange(i as int, i + 2)[1] == s@[i + 1]);
        }
    }
    None
}

/// Skips all lexical noise at `i` and returns where it ends.
pub fn wsc_at(s: &Vec<char>, i: usize) -> (r: usize)
    requires
        i <= s@.len(),
    ensures
        r == wsc_end(s@, i as int),
        i <= r <= s@.len(),
{
    let mut k: usize = i;
    loop
        invariant
            i <= k <= s@.len(),
            wsc_end(s@, i as int) == wsc_end(s@, k as int),
        decreases s.len() - k,
    {
        match some_whitespace_at(s, k) {
            Some(j) => {
                k = j;
            },
            None => {
                return k;
            },
        }
    }
}

/// Relies on `char::is_alphanumeric`: whether `c` is alphabetic or numeric in Unicode.
pub uninterp spec fn unicode_alphanumeric(c: char) -> bool;

pub open spec fn is_ascii_letter(c: char) -> bool {
    ('a' <= c && c <= 'z') || ('A' <= c && c <= 'Z')
}

pub open spec fn is_ascii_digit(c: char) -> bool {
    '0' <= c && c <= '9'
}

/// Relies on `char::is_alphanumeric`, which the parser asks only of
/// characters outside ASCII.
#[verifier::external_body]
fn is_alphanumeric(c: char) -> (r: bool)
    ensures
        r == unicode_alphanumeric(c),
{
    c.is_alphanumeric()
}

pub open spec fn is_ident_start(c: char) -> bool {
    is_ascii_letter(c) || c == '_' || c == '$'
}

/// An identifier character: an ASCII letter or digit, `_` or `$`, or a
/// character beyond ASCII that Unicode counts as alphabetic or numeric.
pub open spec fn is_ident_char(c: char) -> bool {
    if (c as u32) < 128 {
        is_ascii_letter(c) || is_ascii_digit(c) || c == '_' || c == '$'
    } else {
        unicode_alphanumeric(c)
    }
}

/// End of the run of identifier characters that starts at `i`.
pub open spec fn ident_run_end(s: Seq<char>, i: int) -> int
    decreases s.len() - i,
{
    if 0 <= i < s.len() && is_ident_char(s[i]) {
        ident_run_end(s, i + 1)
    } else {
        i
    }
}

/// The identifier at `i`: `Some(end)` when one starts there.
pub open spec fn ident_end(s: Seq<char>, i: int) -> Option<int> {
    if 0 <= i < s.len() && is_ident_start(s[i]) {
        Some(ident_run_end(s, i))
    } else {
        None
    }
}

proof fn lemma_ident_run_end(s: Seq<char>, i: int)
    requires
        0 <= i <= s.len(),
    ensures
        i <= ident_run_end(s, i) <= s.len(),
    decreases s.len() - i,
{
    if i < s.len() && is_ident_char(s[i]) {
        lemma_ident_run_end(s, i + 1);
    }
}

/// A name in the parsed language: a letter, `_` or `$`, then letters, digits, `_` or `$`.
#[derive(Debug, PartialEq, Eq, Clone)]
pub struct Identifier {
    pub name: String,
}

impl View for Identifier {
    type V = Seq<char>;

    open spec fn view(&self) -> Seq<char> {
        self.name@
    }
}

impl Identifier {
    /// The text of the identifier.
    pub fn as_str(&self) -> (r: &str)
        ensures
            r@ == self@,
    {
        self.name.as_str()
    }

    /// A copy with the same text.
    pub fn duplicate(&self) -> (r: Identifier)
        ensures
            r@ == self@,
    {
        Identifier { name: self.name.clone() }
    }
}

/// Whether `c` may continue an identifier.
pub fn is_valid_identifier(c: char) -> (r: bool)
    ensures
        r == is_ident_char(c),
        is_ident_start(c) ==> r,
{
    if (c as u32) < 128 {
        ('a' <= c && c <= 'z') || ('A' <= c && c <= 'Z') || ('0' <= c && c <= '9') || c == '_' || c == '$'
    } else {
        is_alphanumeric(c)
    }
}

/// Parses the identifier at `i`.
pub fn identifier_at(s: &Vec<char>, i: usize) -> (r: Option<(usize, Identifier)>)
    requires
        i <= s@.len(),
    ensures
        match ident_end(s@, i as int) {
            Some(e) => r matches Some((end, id)) && end == e && id@ == s@.subrange(i as int, e),
            None => r is None,
        },
        r matches Some((end, _)) ==> i < end <= s@.len(),
{
    if i >= s.len() {
        return None;
    }
    let c = s[i];
    if !(('a' <= c && c <= 'z') || ('A' <= c && c <= 'Z') || c == '_' || c == '$') {
        return None;
    }
    let mut k: usize = i;
    while k < s.len() && is_valid_identifier(s[k])
        invariant
            i <= k <= s@.len(),
            ident_run_end(s@, i as int) == ident_run_end(s@, k as int),
        decreases s.len() - k,
    {
        k = k + 1;
    }
    if k == i {
        return None;
    }
    proof {
        lemma_ident_run_end(s@, i as int);
    }
    Some((k, Identifier { name: string_from_range(s, i, k) }))
}

/// End of the quoted text that starts at `i`: the first newline or `q` at or after `i`.
pub open spec fn quote_stop(s: Seq<char>, i: int, q: char) -> int
    decreases s.len() - i,
{
    if i < 0 || i >= s.len() {
        s.len() as int
    } else if s[i] == '\n' || s[i] == q {
        i
    } else {
        quote_stop(s, i + 1, q)
    }
}

/// A single- or double-quoted string at `i` with no newline inside:
/// `Some(k)` where `k` is the position of the closing quote.
pub open spec fn literal_close(s: Seq<char>, i: int) -> Option<int> {
    if 0 <= i < s.len() && (s[i] == '"' || s[i] == '\'') {
        let k = quote_stop(s, i + 1, s[i]);
        if k < s.len() && s[k] == s[i] {
            Some(k)
        } else {
            None
        }
    } else {
        None
    }
}

/// Finds the closing quote of the string literal at `i`.
pub fn literal_close_at(s: &Vec<char>, i: usize) -> (r: Option<usize>)
    requires
        i <= s@.len(),
    ensures
        match r {
            Some(k) => literal_close(s@, i as int) == Some(k as int),
            None => literal_close(s@, i as int) is None,
        },
        r matches Some(k) ==> i < k < s@.len(),
{
    if i >= s.len() || !(s[i] == '"' || s[i] == '\'') {
        return None;
    }
    let q = s[i];
    let mut k: usize = i + 1;
    while k < s.len() && s[k] != '\n' && s[k] != q
        invariant
            i < k <= s@.len(),
            quote_stop(s@, i + 1, q) == quote_stop(s@, k as int, q),
        decreases s.len() - k,
    {
        k = k + 1;
    }
    if k < s.len() && s[k] == q {
        Some(k)
    } else {
        None
    }
}

/// Whether the keyword `kw` (which ends in a space) stands at `i`.
pub fn keyword_at(s: &Vec<char>, i: usize, kw: &str) -> (r: bool)
    ensures
        r == starts_at(s@, i as int, kw@),
{
    let k = chars_of(kw);
    matches_at(s, i, &k)
}

/// The keywords the parser recognises.
#[derive(Debug, PartialEq, Eq, Clone, Copy)]
pub enum Keyword {
    Import,
    Class,
    Factory,
    Required,
    With,
    Const,
}

pub open spec fn keyword_text(k: Keyword) -> Seq<char> {
    match k {
        Keyword::Import => "import "@,
        Keyword::Class => "class "@,
        Keyword::Factory => "factory "@,
        Keyword::Required => "required "@,
        Keyword::With => "with "@,
        Keyword::Const => "const "@,
    }
}

/// Turns a parse at the start of `s` into the text that remains and the value.
pub fn finish<T>(s: &Vec<char>, r: Option<(usize, T)>) -> (out: Result<(String, T), ParseError>)
    requires
        r matches Some((e, _)) ==> e <= s@.len(),
    ensures
        match r {
            Some((e, v)) => out matches Ok((rest, w)) && rest@ == s@.subrange(e as int, s@.len() as int) && w == v,
            None => out is Err,
        },
{
    match r {
        Some((e, v)) => Ok((string_from_range(s, e, s.len()), v)),
        None => Err(ParseError),
    }
}

/// Parses keyword `k` at the start of `input`.
fn keyword_parse(input: &str, k: Keyword, text: &str) -> (r: Result<(String, Keyword), ParseError>)
    requires
        text@ == keyword_text(k),
    ensures
        starts_at(input@, 0, keyword_text(k)) ==> r == Ok::<(String, Keyword), ParseError>((r->Ok_0.0, k))
            && r->Ok_0.0@ == input@.subrange(keyword_text(k).len() as int, input@.len() as int),
        !starts_at(input@, 0, keyword_text(k)) ==> r is Err,
{
    let s = chars_of(input);
    if keyword_at(&s, 0, text) {
        finish(&s, Some((text.unicode_len(), k)))
    } else {
        Err(ParseError)
    }
}

/// `import` followed by a space.
pub fn import_keyword(input: &str) -> (r: Result<(String, Keyword), ParseError>)
    ensures
        starts_at(input@, 0, keyword_text(Keyword::Import)) ==> r is Ok && r->Ok_0.1 == Keyword::Import
            && r->Ok_0.0@ == input@.subrange(7, input@.len() as int),
        !starts_at(input@, 0, keyword_text(Keyword::Import)) ==> r is Err,
{
    proof { reveal_strlit("import "); }
    keyword_parse(input, Keyword::Import, "import ")
}

/// `class` followed by a space.
pub fn class_keyword(input: &str) -> (r: Result<(String, Keyword), ParseError>)
    ensures
        starts_at(input@, 0, keyword_text(Keyword::Class)) ==> r is Ok && r->Ok_0.1 == Keyword::Class
            && r->Ok_0.0@ == input@.subrange(6, input@.len() as int),
        !starts_at(input@, 0, keyword_text(Keyword::Class)) ==> r is Err,
{
    proof { reveal_strlit("class "); }
    keyword_parse(input, Keyword::Class, "class ")
}

/// `factory` followed by a space.
pub fn factory_keyword(input: &str) -> (r: Result<(String, Keyword), ParseError>)
    ensures
        starts_at(input@, 0, keyword_text(Keyword::Factory)) ==> r is Ok && r->Ok_0.1 == Keyword::Factory
            && r->Ok_0.0@ == input@.subrange(8, input@.len() as int),
        !starts_at(input@, 0, keyword_text(Keyword::Factory)) ==> r is Err,
{
    proof { reveal_strlit("factory "); }
    keyword_parse(input, Keyword::Factory, "factory ")
}

/// `required` followed by a space.
pub fn required_keyword(input: &str) -> (r: Result<(String, Keyword), ParseError>)
    ensures
        starts_at(input@, 0, keyword_text(Keyword::Required)) ==> r is Ok && r->Ok_0.1 == Keyword::Required
            && r->Ok_0.0@ == input@.subrange(9, input@.len() as int),
        !starts_at(input@, 0, keyword_text(Keyword::Required)) ==> r is Err,
{
    proof { reveal_strlit("required "); }
    keyword_parse(input, Keyword::Required, "required ")
}

/// `with` followed by a space.
pub fn with_keyword(input: &str) -> (r: Result<(String, Keyword), ParseError>)
    ensures
        starts_at(input@, 0, keyword_text(Keyword::With)) ==> r is Ok && r->Ok_0.1 == Keyword::With
            && r->Ok_0.0@ == input@.subrange(5, input@.len() as int),
        !starts_at(input@, 0, keyword_text(Keyword::With)) ==> r is Err,
{
    proof { reveal_strlit("with "); }
    keyword_parse(input, Keyword::With, "with ")
}

/// `const` followed by a space.
pub fn const_keyword(input: &str) -> (r: Result<(String, Keyword), ParseError>)
    ensures
        starts_at(input@, 0, keyword_text(Keyword::Const)) ==> r is Ok && r->Ok_0.1 == Keyword::Const
            && r->Ok_0.0@ == input@.subrange(6, input@.len() as int),
        !starts_at(input@, 0, keyword_text(Keyword::Const)) ==> r is Err,
{
    proof { reveal_strlit("const "); }
    keyword_parse(input, Keyword::Const, "const ")
}

/// `import`, `class` or `factory`, each followed by a space.
pub fn keyword(input: &str) -> (r: Result<(String, Keyword), ParseError>)
    ensures
        starts_at(input@, 0, keyword_text(Keyword::Import)) ==> r is Ok && r->Ok_0.1 == Keyword::Import,
        starts_at(input@, 0, keyword_text(Keyword::Class)) ==> r is Ok && r->Ok_0.1 == Keyword::Class,
        starts_at(input@, 0, keyword_text(Keyword::Factory)) ==> r is Ok && r->Ok_0.1 == Keyword::Factory,
        r matches Ok((rest, k)) ==> (k == Keyword::Import || k == Keyword::Class || k == Keyword::Factory)
            && starts_at(input@, 0, keyword_text(k))
            && rest@ == input@.subrange(keyword_text(k).len() as int, input@.len() as int),
        !starts_at(input@, 0, keyword_text(Keyword::Import)) && !starts_at(input@, 0, keyword_text(Keyword::Class))
            && !starts_at(input@, 0, keyword_text(Keyword::Factory)) ==> r is Err,
{
    proof {
        reveal_strlit("import ");
        reveal_strlit("class ");
        reveal_strlit("factory ");
        let s = input@;
        if s.len() > 0 {
            if starts_at(s, 0, "import "@) {
                assert(s.subrange(0, 7)[0] == s[0]);
            }
            if starts_at(s, 0, "class "@) {
                assert(s.subrange(0, 6)[0] == s[0]);
            }
            if starts_at(s, 0, "factory "@) {
                assert(s.subrange(0, 8)[0] == s[0]);
            }
        }
    }
    match import_keyword(input) {
        Ok(x) => Ok(x),
        Err(_) => match class_keyword(input) {
            Ok(x) => Ok(x),
            Err(_) => factory_keyword(input),
        },
    }
}

} // verus!

verus! {

/// Whether `c` stands at `i`.
pub open spec fn tok(s: Seq<char>, i: int, c: char) -> bool {
    0 <= i < s.len() && s[i] == c
}

/// Whether `c` stands at `i`.
pub fn tok_at(s: &Vec<char>, i: usize, c: char) -> (r: bool)
    ensures
        r == tok(s@, i as int, c),
        r ==> i < s.len(),
{
    i < s.len() && s[i] == c
}

/// After a comma-separated list that ends at `f`: past one trailing comma if
/// there is one (after lexical noise), else `f`.
pub open spec fn trailing_comma_end(s: Seq<char>, f: int) -> int {
    let g = wsc_end(s, f);
    if tok(s, g, ',') {
        g + 1
    } else {
        f
    }
}

/// Skips one trailing comma after a list that ends at `f`, if there is one.
pub fn trailing_comma_at(s: &Vec<char>, f: usize) -> (r: usize)
    requires
        f <= s@.len(),
    ensures
        r == trailing_comma_end(s@, f as int),
        f <= r <= s@.len(),
{
    let g = wsc_at(s, f);
    if tok_at(s, g, ',') {
        g + 1
    } else {
        f
    }
}

/// Where the text `kw` ends when it stands at `i`.
pub fn text_end_at(s: &Vec<char>, i: usize, kw: &Vec<char>) -> (r: Option<usize>)
    ensures
        match r {
            Some(e) => starts_at(s@, i as int, kw@) && e == i + kw@.len(),
            None => !starts_at(s@, i as int, kw@),
        },
{
    if matches_at(s, i, kw) {
        assert(i + kw@.len() <= s@.len() && s@.len() == s.len());
        Some(i + kw.len())
    } else {
        None
    }
}

/// Where the keyword `kw` ends when it stands at `i`.
pub fn keyword_end_at(s: &Vec<char>, i: usize, kw: &str) -> (r: Option<usize>)
    ensures
        match r {
            Some(e) => starts_at(s@, i as int, kw@) && e == i + kw@.len(),
            None => !starts_at(s@, i as int, kw@),
        },
{
    let k = chars_of(kw);
    text_end_at(s, i, &k)
}

} // verus!
