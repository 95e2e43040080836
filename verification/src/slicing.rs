//! Moving between `str` and sequences of characters.
//!
//! A `str` is cut at byte offsets, while the contracts of this crate count
//! characters. The lemmas here relate the two through the UTF-8 encoding.

use vstd::prelude::*;
use vstd::string::*;
use vstd::utf8::*;

verus! {

/// What each of `parts` holds.
pub open spec fn texts(parts: Seq<&str>) -> Seq<Seq<char>> {
    parts.map_values(|part: &str| part@)
}

/// The characters of `s`, in order.
pub fn to_chars(s: &str) -> (chars: Vec<char>)
    ensures
        chars@ == s@,
{
    let mut chars: Vec<char> = Vec::new();
    for c in it: s.chars()
        invariant
            chars@ == it.seq().take(it.index() as int),
            it.seq() == s@,
    {
        chars.push(c);
    }
    chars
}

/// The encoding of a concatenation is the concatenation of the encodings.
proof fn lemma_encode_concat(a: Seq<char>, b: Seq<char>)
    ensures
        encode_utf8(a + b) == encode_utf8(a) + encode_utf8(b),
    decreases a.len(),
{
    if a.len() > 0 {
        assert((a + b).drop_first() =~= a.drop_first() + b);
        lemma_encode_concat(a.drop_first(), b);
    }
}

/// In the encoding of `a + b`, the encoding of `a` ends on a character boundary.
proof fn lemma_boundary_after_prefix(a: Seq<char>, b: Seq<char>)
    ensures
        is_char_boundary(encode_utf8(a + b), encode_utf8(a).len() as int),
    decreases a.len(),
{
    let bytes = encode_utf8(a + b);
    encode_utf8_valid_utf8(a + b);
    if a.len() > 0 {
        let tail = a.drop_first() + b;
        assert((a + b).drop_first() =~= tail);
        encode_utf8_first_scalar(a + b);
        lemma_encode_concat(a, b);
        assert(pop_first_scalar(bytes) =~= encode_utf8(tail));
        lemma_boundary_after_prefix(a.drop_first(), b);
    }
}

/// Two texts with the same encoding are the same text.
proof fn lemma_encode_injective(a: Seq<char>, b: Seq<char>)
    requires
        encode_utf8(a) == encode_utf8(b),
    ensures
        a == b,
{
    encode_utf8_decode_utf8(a);
    encode_utf8_decode_utf8(b);
}

/// Cuts `s` after its first `n` characters.
pub(crate) fn split_chars<'a>(s: &'a str, n: usize) -> (parts: (&'a str, &'a str))
    requires
        n <= s@.len(),
    ensures
        parts.0@ == s@.take(n as int),
        parts.1@ == s@.skip(n as int),
{
    let head = s.substring_char(0, n);
    let mid = head.as_bytes().len();
    proof {
        assert(s@ =~= s@.take(n as int) + s@.skip(n as int));
        lemma_encode_concat(s@.take(n as int), s@.skip(n as int));
        lemma_boundary_after_prefix(s@.take(n as int), s@.skip(n as int));
    }
    let (_, tail) = s.split_at(mid);
    proof {
        assert(tail.spec_bytes() =~= encode_utf8(s@.skip(n as int)));
        lemma_encode_injective(tail@, s@.skip(n as int));
    }
    (head, tail)
}

} // verus!
