//! Splitting text into lines and joining pieces of text.

use crate::text::{chars_of, string_of, texts};
use vstd::prelude::*;
use vstd::slice::slice_subrange;
use vstd::string::*;

verus! {

/// Position of the first `c`, or the length of the text when there is none.
pub open spec fn position(s: Seq<char>, c: char) -> nat
    decreases s.len(),
{
    if s.len() == 0 || s[0] == c {
        0
    } else {
        1 + position(s.skip(1), c)
    }
}

pub proof fn lemma_position(s: Seq<char>, c: char)
    ensures
        position(s, c) <= s.len(),
        position(s, c) < s.len() ==> s[position(s, c) as int] == c,
        forall|i: int| 0 <= i < position(s, c) ==> s[i] != c,
    decreases s.len(),
{
    if s.len() != 0 && s[0] != c {
        lemma_position(s.skip(1), c);
        assert forall|i: int| 0 <= i < position(s, c) implies s[i] != c by {
            if i > 0 {
                assert(s[i] == s.skip(1)[i - 1]);
            }
        }
    }
}

/// A first `c` at `n`, or no `c` among all `n` characters, fixes the position.
pub proof fn lemma_position_at(s: Seq<char>, c: char, n: nat)
    requires
        n <= s.len(),
        n < s.len() ==> s[n as int] == c,
        forall|i: int| 0 <= i < n ==> s[i] != c,
    ensures
        position(s, c) == n,
{
    lemma_position(s, c);
}

/// A line without the carriage return that ends it.
pub open spec fn without_return(line: Seq<char>) -> Seq<char> {
    if line.len() > 0 && line.last() == '\r' {
        line.drop_last()
    } else {
        line
    }
}

/// The lines of a text. A line ends at `\n` or `\r\n`, which does not belong to it; what follows
/// the last line ending is a line unless it is empty.
pub open spec fn lines(s: Seq<char>) -> Seq<Seq<char>>
    decreases s.len(),
{
    if s.len() == 0 {
        Seq::empty()
    } else if position(s, '\n') < s.len() {
        seq![without_return(s.take(position(s, '\n') as int))] + lines(
            s.skip(position(s, '\n') as int + 1),
        )
    } else {
        seq![s]
    }
}

/// Splits a text into its lines.
pub fn split_lines(s: &str) -> (r: Vec<String>)
    ensures
        texts(r@) == lines(s@),
{
    let x = chars_of(s);
    let n = x.len();
    let mut out: Vec<String> = Vec::new();
    let mut start: usize = 0;
    let mut i: usize = 0;
    assert(x@.skip(0) == x@);
    assert(texts(out@) + lines(x@) == lines(x@));
    while i < n
        invariant
            start <= i <= n,
            n == x@.len(),
            forall|j: int| start <= j < i ==> x@[j] != '\n',
            texts(out@) + lines(x@.skip(start as int)) == lines(x@),
        decreases n - i,
    {
        if x[i] == '\n' {
            let ghost rest = x@.skip(start as int);
            let ghost line = x@.subrange(start as int, i as int);
            proof {
                lemma_position_at(rest, '\n', (i - start) as nat);
                assert(rest.take(i - start) == line);
                assert(rest.skip(i - start + 1) == x@.skip(i + 1));
                assert(line.len() > 0 ==> line.last() == x@[i - 1]);
            }
            let end: usize = if i > start && x[i - 1] == '\r' {
                i - 1
            } else {
                i
            };
            let piece = string_of(slice_subrange(x.as_slice(), start, end));
            assert(piece@ == without_return(line)) by {
                if end != i {
                    assert(x@.subrange(start as int, end as int) == line.drop_last());
                }
            }
            let ghost before = texts(out@);
            out.push(piece);
            assert(texts(out@) == before.push(piece@));
            start = i + 1;
            assert(lines(rest) == seq![piece@] + lines(x@.skip(start as int)));
            assert(texts(out@) + lines(x@.skip(start as int)) == before + lines(rest));
        }
        i = i + 1;
    }
    let ghost rest = x@.skip(start as int);
    if start < n {
        proof {
            lemma_position_at(rest, '\n', rest.len());
        }
        let piece = string_of(slice_subrange(x.as_slice(), start, n));
        assert(piece@ == rest);
        let ghost before = texts(out@);
        out.push(piece);
        assert(texts(out@) == before.push(piece@));
        assert(texts(out@) == before + lines(rest));
    } else {
        assert(rest.len() == 0);
        assert(texts(out@) == texts(out@) + lines(rest));
    }
    out
}

/// The pieces in order, with `sep` between neighbours.
pub open spec fn joined(parts: Seq<Seq<char>>, sep: Seq<char>) -> Seq<char>
    decreases parts.len(),
{
    if parts.len() == 0 {
        Seq::empty()
    } else if parts.len() == 1 {
        parts[0]
    } else {
        joined(parts.drop_last(), sep) + sep + parts.last()
    }
}

/// The pieces in order, with `sep` between neighbours.
pub fn join(parts: &[String], sep: &str) -> (r: String)
    ensures
        r@ == joined(texts(parts@), sep@),
{
    let mut out = String::new();
    let mut i: usize = 0;
    let ghost all = texts(parts@);
    while i < parts.len()
        invariant
            i <= parts@.len(),
            all == texts(parts@),
            out@ == joined(all.take(i as int), sep@),
        decreases parts@.len() - i,
    {
        let ghost upto = all.take(i + 1);
        assert(upto.drop_last() == all.take(i as int));
        assert(upto.last() == parts@[i as int]@);
        if i > 0 {
            out.append(sep);
        } else {
            assert(all.take(0).len() == 0);
            assert(out@ + parts@[0]@ == parts@[0]@);
        }
        out.append(parts[i].as_str());
        i = i + 1;
    }
    assert(all.take(i as int) == all);
    out
}

/// All texts, one after the other.
pub open spec fn concatenated(list: Seq<Seq<char>>) -> Seq<char>
    decreases list.len(),
{
    if list.len() == 0 {
        Seq::empty()
    } else {
        concatenated(list.drop_last()) + list.last()
    }
}

/// All texts, one after the other.
pub fn concatenate(list: &[String]) -> (r: String)
    ensures
        r@ == concatenated(texts(list@)),
{
    let mut out = String::new();
    let ghost all = texts(list@);
    let mut i: usize = 0;
    assert(all.take(0).len() == 0);
    while i < list.len()
        invariant
            i <= list@.len(),
            all == texts(list@),
            out@ == concatenated(all.take(i as int)),
        decreases list@.len() - i,
    {
        assert(all.take(i + 1).drop_last() == all.take(i as int));
        out.append(list[i].as_str());
        i = i + 1;
    }
    assert(all.take(i as int) == all);
    out
}

// ---- Laws --------------------------------------------------------------------------------------

/// The lines of a text: up to a line break stands the first one, without a carriage return at its
/// end, and the others follow; a text without a line break is one line, unless it is empty.
pub proof fn law_lines_end_at_breaks(line: Seq<char>, rest: Seq<char>)
    requires
        !line.contains('\n'),
    ensures
        line.len() == 0 || line.last() != '\r' ==> lines(line + seq!['\n'] + rest) == seq![line]
            + lines(rest),
        lines(line + seq!['\r', '\n'] + rest) == seq![line] + lines(rest),
        line.len() > 0 ==> lines(line) == seq![line],
        lines(Seq::empty()).len() == 0,
{
    assert forall|i: int| 0 <= i < line.len() implies line[i] != '\n' by {
        assert(line.contains(line[i]));
    }
    let plain = line + seq!['\n'] + rest;
    lemma_position_at(plain, '\n', line.len());
    assert(plain.take(line.len() as int) == line);
    assert(plain.skip(line.len() as int + 1) == rest);
    let with_return = line + seq!['\r', '\n'] + rest;
    lemma_position_at(with_return, '\n', line.len() + 1);
    assert(with_return.take(line.len() as int + 1) == line.push('\r'));
    assert(line.push('\r').drop_last() == line);
    assert(with_return.skip(line.len() as int + 2) == rest);
    if line.len() > 0 {
        lemma_position_at(line, '\n', line.len());
    }
}

/// Joining puts the separator between neighbours and nowhere else.
pub proof fn law_joining_separates(list: Seq<Seq<char>>, last: Seq<char>, sep: Seq<char>)
    ensures
        joined(Seq::empty(), sep).len() == 0,
        joined(seq![last], sep) == last,
        list.len() > 0 ==> joined(list.push(last), sep) == joined(list, sep) + sep + last,
{
    assert(list.push(last).drop_last() == list);
}

/// Texts put together stand one after the other, with nothing between them.
pub proof fn law_texts_follow_each_other(a: Seq<Seq<char>>, b: Seq<Seq<char>>, t: Seq<char>)
    ensures
        concatenated(Seq::empty()).len() == 0,
        concatenated(seq![t]) == t,
        concatenated(a + b) == concatenated(a) + concatenated(b),
    decreases b.len(),
{
    reveal_with_fuel(concatenated, 2);
    assert(seq![t].drop_last().len() == 0);
    assert(Seq::<char>::empty() + t == t);
    if b.len() == 0 {
        assert(a + b == a);
        assert(concatenated(a) + concatenated(b) == concatenated(a));
    } else {
        law_texts_follow_each_other(a, b.drop_last(), t);
        assert((a + b).drop_last() == a + b.drop_last());
        assert((a + b).last() == b.last());
    }
}

} // verus!
