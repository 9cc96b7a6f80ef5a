//! Byte strings: ASCII literals, and what it means for one byte string to
//! stand inside another at a given position.

use vstd::prelude::*;
use vstd::string::*;

verus! {

/// The double quote that opens and closes a text literal.
pub const QUOTE: u8 = 0x22;

/// The bytes of a string of ASCII characters, one byte per character.
pub open spec fn ascii(s: Seq<char>) -> Seq<u8> {
    Seq::new(s.len(), |i: int| s[i] as u8)
}

/// `part` stands in `b`, starting at position `pos`.
pub open spec fn at(b: Seq<u8>, pos: int, part: Seq<u8>) -> bool {
    &&& 0 <= pos
    &&& pos + part.len() <= b.len()
    &&& b.subrange(pos, pos + part.len()) == part
}

/// Puts `acc` in front of what a reader found.
pub open spec fn prepend(acc: Seq<u8>, found: Option<(Seq<u8>, int)>) -> Option<(Seq<u8>, int)> {
    match found {
        Some((rest, end)) => Some((acc + rest, end)),
        None => None,
    }
}

/// A byte string stands at the position where a concatenation puts it.
pub proof fn lemma_at_concat(pre: Seq<u8>, part: Seq<u8>, post: Seq<u8>)
    ensures
        at(pre + part + post, pre.len() as int, part),
{
    let b = pre + part + post;
    assert(b.subrange(pre.len() as int, (pre.len() + part.len()) as int) =~= part);
}

/// Where a concatenation stands, both of its halves stand, one behind the other.
pub proof fn lemma_at_split(b: Seq<u8>, pos: int, x: Seq<u8>, y: Seq<u8>)
    requires
        at(b, pos, x + y),
    ensures
        at(b, pos, x),
        at(b, pos + x.len(), y),
{
    let whole = b.subrange(pos, pos + (x + y).len());
    assert(b.subrange(pos, pos + x.len()) =~= whole.subrange(0, x.len() as int));
    assert(whole.subrange(0, x.len() as int) =~= x);
    assert(b.subrange(pos + x.len(), pos + x.len() + y.len()) =~= whole.subrange(
        x.len() as int,
        (x + y).len() as int,
    ));
    assert(whole.subrange(x.len() as int, (x + y).len() as int) =~= y);
}

/// Where a byte string stands, each of its bytes is found.
pub proof fn lemma_at_index(b: Seq<u8>, pos: int, part: Seq<u8>, i: int)
    requires
        at(b, pos, part),
        0 <= i < part.len(),
    ensures
        b[pos + i] == part[i],
{
    assert(b.subrange(pos, pos + part.len())[i] == b[pos + i]);
}

/// One differing byte is enough for a byte string not to stand at a position.
pub proof fn lemma_at_mismatch(b: Seq<u8>, pos: int, part: Seq<u8>, i: int)
    requires
        0 <= pos,
        0 <= i < part.len(),
        pos + i < b.len(),
        b[pos + i] != part[i],
    ensures
        !at(b, pos, part),
{
    if at(b, pos, part) {
        lemma_at_index(b, pos, part, i);
    }
}

/// Appends the bytes of an ASCII literal.
pub fn push_lit(out: &mut Vec<u8>, s: &str)
    requires
        is_ascii(s),
    ensures
        final(out)@ == old(out)@ + ascii(s@),
{
    let b = s.as_bytes();
    proof {
        is_ascii_spec_bytes(s);
    }
    let mut i: usize = 0;
    while i < b.len()
        invariant
            i <= b.len(),
            b@ == ascii(s@),
            out@ == old(out)@ + ascii(s@).take(i as int),
        decreases b.len() - i,
    {
        out.push(b[i]);
        i = i + 1;
    }
    assert(ascii(s@).take(b.len() as int) == ascii(s@));
}

/// Looks for an ASCII literal in `b` at `pos`: the position behind it, where it
/// stands there.
pub fn skip_lit(b: &[u8], pos: usize, s: &str) -> (end: Option<usize>)
    requires
        is_ascii(s),
    ensures
        match end {
            Some(e) => at(b@, pos as int, ascii(s@)) && e == pos + s@.len(),
            None => !at(b@, pos as int, ascii(s@)),
        },
{
    let lit = s.as_bytes();
    proof {
        is_ascii_spec_bytes(s);
    }
    if pos > b.len() || lit.len() > b.len() - pos {
        return None;
    }
    let mut i: usize = 0;
    while i < lit.len()
        invariant
            i <= lit.len(),
            lit@ == ascii(s@),
            pos + lit.len() <= b.len(),
            forall|k: int| 0 <= k < i ==> b@[pos + k] == lit@[k],
        decreases lit.len() - i,
    {
        if b[pos + i] != lit[i] {
            proof {
                lemma_at_mismatch(b@, pos as int, lit@, i as int);
            }
            return None;
        }
        i = i + 1;
    }
    assert(b@.subrange(pos as int, pos + lit.len()) =~= lit@);
    Some(pos + lit.len())
}

} // verus!
