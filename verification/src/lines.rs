//! Splitting a text into lines.
//!
//! A line ends at a line feed, or at the end of the text. The line feed is no
//! part of the line, and neither is a carriage return that stands directly
//! before it. A text that ends in a line feed has no empty line behind it.

use vstd::prelude::*;
use crate::slicing::{split_chars, texts, to_chars};

verus! {

/// The number of characters before the first line feed of `s`, or the length
/// of `s` where it holds none.
pub open spec fn first_line_len(s: Seq<char>) -> int
    decreases s.len(),
{
    if s.len() == 0 || s.first() == '\n' {
        0
    } else {
        1 + first_line_len(s.drop_first())
    }
}

/// `line` without one carriage return at its end.
pub open spec fn without_cr(line: Seq<char>) -> Seq<char> {
    if line.len() > 0 && line.last() == '\r' {
        line.drop_last()
    } else {
        line
    }
}

/// The lines of `s`, in order.
pub open spec fn lines_of(s: Seq<char>) -> Seq<Seq<char>>
    decreases s.len(),
{
    if s.len() == 0 {
        Seq::empty()
    } else {
        let n = first_line_len(s);
        if 0 <= n < s.len() {
            seq![without_cr(s.take(n))] + lines_of(s.skip(n + 1))
        } else {
            seq![s]
        }
    }
}

/// The first line ends at the first line feed.
proof fn lemma_first_line_len(s: Seq<char>, n: int)
    requires
        0 <= n <= s.len(),
        forall|i: int| 0 <= i < n ==> s[i] != '\n',
        n < s.len() ==> s[n] == '\n',
    ensures
        first_line_len(s) == n,
    decreases n,
{
    if n > 0 {
        lemma_first_line_len(s.drop_first(), n - 1);
    }
}

/// The lines of `s`, in order.
pub fn lines<'a>(s: &'a str) -> (found: Vec<&'a str>)
    ensures
        texts(found@) == lines_of(s@),
{
    let chars = to_chars(s);
    let mut found: Vec<&'a str> = Vec::new();
    let mut rest: &'a str = s;
    let mut pos: usize = 0;
    while pos < chars.len()
        invariant
            chars@ == s@,
            pos <= chars@.len(),
            rest@ == s@.skip(pos as int),
            texts(found@) + lines_of(rest@) == lines_of(s@),
        decreases chars@.len() - pos,
    {
        let mut n: usize = 0;
        while pos + n < chars.len() && chars[pos + n] != '\n'
            invariant
                pos + n <= chars.len(),
                forall|i: int| pos <= i < pos + n ==> chars@[i] != '\n',
            decreases chars.len() - pos - n,
        {
            n += 1;
        }
        proof {
            lemma_first_line_len(rest@, n as int);
        }
        if pos + n < chars.len() {
            let (head, tail) = split_chars(rest, n);
            let (_, next) = split_chars(tail, 1);
            let line = if n > 0 && chars[pos + n - 1] == '\r' {
                split_chars(head, n - 1).0
            } else {
                head
            };
            proof {
                assert(next@ =~= rest@.skip(n + 1));
                assert(lines_of(rest@) == seq![line@] + lines_of(next@));
            }
            found.push(line);
            rest = next;
            pos = pos + n + 1;
        } else {
            assert(lines_of(rest@) == seq![rest@]);
            found.push(rest);
            return found;
        }
    }
    found
}

} // verus!
