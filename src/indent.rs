//! Indentation of multi-line text.
use vstd::prelude::*;
use crate::lexer::find_char;
use crate::text::{chars_of, push_char};

verus! {

/// The line that ends at `k` (a newline position) and starts at `i`, without
/// the newline and without one carriage return before it.
pub open spec fn strip_cr(line: Seq<char>) -> Seq<char> {
    if line.len() > 0 && line.last() == '\r' {
        line.drop_last()
    } else {
        line
    }
}

/// The lines of `s[i..]`: split after each newline; a line that ended in a
/// newline loses it and one carriage return before it; no empty last line.
pub open spec fn lines_from(s: Seq<char>, i: int) -> Seq<Seq<char>>
    decreases s.len() - i,
{
    if i < 0 || i >= s.len() {
        Seq::empty()
    } else {
        let k = find_char(s, i, '\n');
        if k >= s.len() || k < i {
            seq![s.subrange(i, s.len() as int)]
        } else {
            seq![strip_cr(s.subrange(i, k))] + lines_from(s, k + 1)
        }
    }
}

/// Each line prefixed with `ind`, joined by newlines.
pub open spec fn join_indented(ind: Seq<char>, ls: Seq<Seq<char>>) -> Seq<char>
    decreases ls.len(),
{
    if ls.len() == 0 {
        Seq::empty()
    } else if ls.len() == 1 {
        ind + ls[0]
    } else {
        join_indented(ind, ls.drop_last()) + seq!['\n'] + ind + ls.last()
    }
}

/// `s` with every line prefixed by `ind`.
pub open spec fn indent_spec(ind: Seq<char>, s: Seq<char>) -> Seq<char> {
    join_indented(ind, lines_from(s, 0))
}

proof fn lemma_join_push(ind: Seq<char>, ls: Seq<Seq<char>>, l: Seq<char>)
    ensures
        join_indented(ind, ls.push(l)) == if ls.len() == 0 {
            ind + l
        } else {
            join_indented(ind, ls) + seq!['\n'] + ind + l
        },
{
    assert(ls.push(l).drop_last() =~= ls);
}

/// Appends `s[from..to]` to `out`.
fn append_range(out: &mut String, s: &Vec<char>, from: usize, to: usize)
    requires
        from <= to <= s@.len(),
    ensures
        final(out)@ == old(out)@ + s@.subrange(from as int, to as int),
{
    let mut k: usize = from;
    while k < to
        invariant
            from <= k <= to <= s@.len(),
            out@ == old(out)@ + s@.subrange(from as int, k as int),
        decreases to - k,
    {
        push_char(out, s[k]);
        assert(old(out)@ + s@.subrange(from as int, k + 1) =~= (old(out)@ + s@.subrange(from as int, k as int)).push(s@[k as int]));
        k = k + 1;
    }
}

/// Prefixes every line of `input` with `indentation` and joins the lines
/// with newlines; a final newline of `input` is dropped.
pub fn indent_lines(indentation: &str, input: &str) -> (r: String)
    ensures
        r@ == indent_spec(indentation@, input@),
{
    let s = chars_of(input);
    let mut out = String::new();
    let mut p: usize = 0;
    let ghost mut done: Seq<Seq<char>> = Seq::empty();
    let mut any = false;
    while p < s.len()
        invariant
            p <= s@.len(),
            s@ == input@,
            lines_from(s@, 0) == done + lines_from(s@, p as int),
            out@ == join_indented(indentation@, done),
            any == (done.len() > 0),
        decreases s.len() - p,
    {
        let mut k: usize = p;
        while k < s.len() && s[k] != '\n'
            invariant
                p <= k <= s@.len(),
                find_char(s@, p as int, '\n') == find_char(s@, k as int, '\n'),
            decreases s.len() - k,
        {
            k = k + 1;
        }
        let ghost before = out@;
        let ghost prev = done;
        let ghost l = if k >= s.len() { s@.subrange(p as int, s@.len() as int) } else { strip_cr(s@.subrange(p as int, k as int)) };
        proof {
            lemma_join_push(indentation@, prev, l);
        }
        if any {
            push_char(&mut out, '\n');
        }
        any = true;
        let ghost mid = out@;
        assert(mid == before + (if prev.len() > 0 { seq!['\n'] } else { Seq::<char>::empty() })) by {
            if prev.len() > 0 {
                assert(before.push('\n') =~= before + seq!['\n']);
            } else {
                assert(mid =~= before + Seq::<char>::empty());
            }
        }
        out.append(indentation);
        if k >= s.len() {
            append_range(&mut out, &s, p, k);
            proof {
                assert(lines_from(s@, p as int) == seq![l]);
                assert(lines_from(s@, s@.len() as int) == Seq::<Seq<char>>::empty());
                assert(prev + seq![l] =~= prev.push(l) + lines_from(s@, s@.len() as int));
                done = prev.push(l);
            }
            p = k;
        } else {
            let end = if k > p && s[k - 1] == '\r' { k - 1 } else { k };
            append_range(&mut out, &s, p, end);
            proof {
                assert(s@.subrange(p as int, end as int) =~= l);
                assert(lines_from(s@, p as int) == seq![l] + lines_from(s@, k + 1));
                assert(prev + (seq![l] + lines_from(s@, k + 1)) =~= prev.push(l) + lines_from(s@, k + 1));
                done = prev.push(l);
            }
            p = k + 1;
        }
        proof {
            assert(out@ =~= join_indented(indentation@, done));
        }
    }
    proof {
        assert(lines_from(s@, p as int) == Seq::<Seq<char>>::empty());
        assert(done + Seq::<Seq<char>>::empty() =~= done);
    }
    out
}

} // verus!
