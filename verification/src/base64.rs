//! Base64 with the standard alphabet and padding: the form in which a binary
//! payload travels inside a text literal.

use vstd::prelude::*;
use crate::bytes::{at, lemma_at_index, lemma_at_split, prepend, QUOTE};

verus! {

/// The padding character `=`.
pub const PAD: u8 = 0x3d;

/// The character that stands for a six-bit value.
pub open spec fn symbol(v: u8) -> u8 {
    if v < 26 {
        (v + 65) as u8
    } else if v < 52 {
        (v + 71) as u8
    } else if v < 62 {
        (v - 4) as u8
    } else if v == 62 {
        0x2b
    } else {
        0x2f
    }
}

/// The six-bit value that a character of the alphabet stands for.
pub open spec fn value(c: u8) -> Option<u8> {
    if 65 <= c <= 90 {
        Some((c - 65) as u8)
    } else if 97 <= c <= 122 {
        Some((c - 71) as u8)
    } else if 48 <= c <= 57 {
        Some((c + 4) as u8)
    } else if c == 0x2b {
        Some(62u8)
    } else if c == 0x2f {
        Some(63u8)
    } else {
        None
    }
}

/// The four six-bit values into which three bytes are cut.
pub open spec fn sextet0(b0: u8) -> u8 {
    b0 >> 2
}

pub open spec fn sextet1(b0: u8, b1: u8) -> u8 {
    ((b0 & 3) << 4) | (b1 >> 4)
}

pub open spec fn sextet2(b1: u8, b2: u8) -> u8 {
    ((b1 & 15) << 2) | (b2 >> 6)
}

pub open spec fn sextet3(b2: u8) -> u8 {
    b2 & 63
}

/// The three bytes that four six-bit values are joined into.
pub open spec fn octet0(v0: u8, v1: u8) -> u8 {
    (v0 << 2) | (v1 >> 4)
}

pub open spec fn octet1(v1: u8, v2: u8) -> u8 {
    ((v1 & 15) << 4) | (v2 >> 2)
}

pub open spec fn octet2(v2: u8, v3: u8) -> u8 {
    ((v2 & 3) << 6) | v3
}

/// The base64 text of a byte string: four characters for each three bytes,
/// the last group padded with `=`.
pub open spec fn encode(data: Seq<u8>) -> Seq<u8>
    decreases data.len(),
{
    if data.len() == 0 {
        Seq::empty()
    } else if data.len() == 1 {
        seq![symbol(sextet0(data[0])), symbol(sextet1(data[0], 0)), PAD, PAD]
    } else if data.len() == 2 {
        seq![
            symbol(sextet0(data[0])),
            symbol(sextet1(data[0], data[1])),
            symbol(sextet2(data[1], 0)),
            PAD,
        ]
    } else {
        seq![
            symbol(sextet0(data[0])),
            symbol(sextet1(data[0], data[1])),
            symbol(sextet2(data[1], data[2])),
            symbol(sextet3(data[2])),
        ] + encode(data.skip(3))
    }
}

/// Reads base64 text in `b` from position `i` up to the closing quote: the
/// bytes that it stands for, and the position behind the quote. A group with
/// padding must be the last one, and the bits that it leaves unused must be
/// zero.
pub open spec fn decode_until_quote(b: Seq<u8>, i: int) -> Option<(Seq<u8>, int)>
    decreases b.len() - i,
{
    if i < 0 || i >= b.len() {
        None
    } else if b[i] == QUOTE {
        Some((Seq::empty(), i + 1))
    } else if i + 4 >= b.len() {
        None
    } else {
        match (value(b[i]), value(b[i + 1])) {
            (Some(v0), Some(v1)) => match (value(b[i + 2]), value(b[i + 3])) {
                (Some(v2), Some(v3)) => prepend(
                    seq![octet0(v0, v1), octet1(v1, v2), octet2(v2, v3)],
                    decode_until_quote(b, i + 4),
                ),
                (Some(v2), None) => if b[i + 3] == PAD && b[i + 4] == QUOTE && v2 & 3 == 0 {
                    Some((seq![octet0(v0, v1), octet1(v1, v2)], i + 5))
                } else {
                    None
                },
                (None, _) => if b[i + 2] == PAD && b[i + 3] == PAD && b[i + 4] == QUOTE && v1 & 15
                    == 0 {
                    Some((seq![octet0(v0, v1)], i + 5))
                } else {
                    None
                },
            },
            _ => None,
        }
    }
}

/// The literal of a binary payload: its base64 text between quotes.
pub open spec fn encode_binary(data: Seq<u8>) -> Seq<u8> {
    seq![QUOTE] + encode(data) + seq![QUOTE]
}

/// Reads the literal of a binary payload that starts at position `pos` of
/// `b`: the payload, and the position behind the closing quote.
pub open spec fn decode_binary(b: Seq<u8>, pos: int) -> Option<(Seq<u8>, int)> {
    if 0 <= pos < b.len() && b[pos] == QUOTE {
        decode_until_quote(b, pos + 1)
    } else {
        None
    }
}

proof fn lemma_symbol(v: u8)
    requires
        v < 64,
    ensures
        value(symbol(v)) == Some(v),
        symbol(v) != QUOTE,
        symbol(v) != PAD,
{
}

proof fn lemma_sextets(b0: u8, b1: u8, b2: u8)
    ensures
        sextet0(b0) < 64,
        sextet1(b0, b1) < 64,
        sextet2(b1, b2) < 64,
        sextet3(b2) < 64,
        octet0(sextet0(b0), sextet1(b0, b1)) == b0,
        octet1(sextet1(b0, b1), sextet2(b1, b2)) == b1,
        octet2(sextet2(b1, b2), sextet3(b2)) == b2,
        sextet1(b0, 0) & 15 == 0,
        sextet2(b1, 0) & 3 == 0,
{
    assert((b0 >> 2) < 64) by (bit_vector);
    assert((((b0 & 3) << 4) | (b1 >> 4)) < 64) by (bit_vector);
    assert((((b1 & 15) << 2) | (b2 >> 6)) < 64) by (bit_vector);
    assert((b2 & 63) < 64) by (bit_vector);
    assert((((b0 >> 2) << 2) | ((((b0 & 3) << 4) | (b1 >> 4)) >> 4)) == b0) by (bit_vector);
    assert(((((((b0 & 3) << 4) | (b1 >> 4)) & 15) << 4) | ((((b1 & 15) << 2) | (b2 >> 6)) >> 2))
        == b1) by (bit_vector);
    assert(((((((b1 & 15) << 2) | (b2 >> 6)) & 3) << 6) | (b2 & 63)) == b2) by (bit_vector);
    assert((((b0 & 3) << 4) | (0u8 >> 4)) & 15 == 0) by (bit_vector);
    assert((((b1 & 15) << 2) | (0u8 >> 6)) & 3 == 0) by (bit_vector);
}

/// Reading the base64 text of a byte string, wherever it stands before a
/// quote, gives the byte string back.
pub proof fn lemma_decode_encode(b: Seq<u8>, i: int, data: Seq<u8>)
    requires
        at(b, i, encode(data) + seq![QUOTE]),
    ensures
        decode_until_quote(b, i) == Some((data, i + encode(data).len() + 1)),
    decreases data.len(),
{
    let text = encode(data) + seq![QUOTE];
    if data.len() == 0 {
        lemma_at_index(b, i, text, 0);
        assert(data =~= Seq::empty());
    } else if data.len() == 1 {
        lemma_sextets(data[0], 0, 0);
        lemma_symbol(sextet0(data[0]));
        lemma_symbol(sextet1(data[0], 0));
        lemma_at_index(b, i, text, 0);
        lemma_at_index(b, i, text, 1);
        lemma_at_index(b, i, text, 2);
        lemma_at_index(b, i, text, 3);
        lemma_at_index(b, i, text, 4);
        assert(data =~= seq![data[0]]);
    } else if data.len() == 2 {
        lemma_sextets(data[0], data[1], 0);
        lemma_symbol(sextet0(data[0]));
        lemma_symbol(sextet1(data[0], data[1]));
        lemma_symbol(sextet2(data[1], 0));
        lemma_at_index(b, i, text, 0);
        lemma_at_index(b, i, text, 1);
        lemma_at_index(b, i, text, 2);
        lemma_at_index(b, i, text, 3);
        lemma_at_index(b, i, text, 4);
        assert(data =~= seq![data[0], data[1]]);
    } else {
        let group = seq![
            symbol(sextet0(data[0])),
            symbol(sextet1(data[0], data[1])),
            symbol(sextet2(data[1], data[2])),
            symbol(sextet3(data[2])),
        ];
        let rest = data.skip(3);
        lemma_sextets(data[0], data[1], data[2]);
        lemma_symbol(sextet0(data[0]));
        lemma_symbol(sextet1(data[0], data[1]));
        lemma_symbol(sextet2(data[1], data[2]));
        lemma_symbol(sextet3(data[2]));
        assert(text =~= group + (encode(rest) + seq![QUOTE]));
        lemma_at_split(b, i, group, encode(rest) + seq![QUOTE]);
        lemma_at_index(b, i, group, 0);
        lemma_at_index(b, i, group, 1);
        lemma_at_index(b, i, group, 2);
        lemma_at_index(b, i, group, 3);
        lemma_decode_encode(b, i + 4, rest);
        assert(seq![data[0], data[1], data[2]] + rest =~= data);
    }
}

/// Reading the literal of a binary payload, wherever it stands, gives the
/// payload back.
pub proof fn lemma_decode_encode_binary(b: Seq<u8>, pos: int, data: Seq<u8>)
    requires
        at(b, pos, encode_binary(data)),
    ensures
        decode_binary(b, pos) == Some((data, pos + encode_binary(data).len())),
{
    assert(encode_binary(data) =~= seq![QUOTE] + (encode(data) + seq![QUOTE]));
    lemma_at_split(b, pos, seq![QUOTE], encode(data) + seq![QUOTE]);
    lemma_at_index(b, pos, seq![QUOTE], 0);
    lemma_decode_encode(b, pos + 1, data);
}

/// The character for a six-bit value.
fn symbol_of(v: u8) -> (c: u8)
    requires
        v < 64,
    ensures
        c == symbol(v),
{
    if v < 26 {
        v + 65
    } else if v < 52 {
        v + 71
    } else if v < 62 {
        v - 4
    } else if v == 62 {
        0x2b
    } else {
        0x2f
    }
}

/// The six-bit value of a character, if it belongs to the alphabet.
fn value_of(c: u8) -> (v: Option<u8>)
    ensures
        v == value(c),
{
    if 65 <= c && c <= 90 {
        Some(c - 65)
    } else if 97 <= c && c <= 122 {
        Some(c - 71)
    } else if 48 <= c && c <= 57 {
        Some(c + 4)
    } else if c == 0x2b {
        Some(62u8)
    } else if c == 0x2f {
        Some(63u8)
    } else {
        None
    }
}

/// Appends the base64 text of `data`.
fn push_base64(out: &mut Vec<u8>, data: &[u8])
    ensures
        final(out)@ == old(out)@ + encode(data@),
{
    let n = data.len();
    let mut i: usize = 0;
    assert(data@.skip(0) =~= data@);
    while n - i >= 3
        invariant
            i <= n,
            n == data@.len(),
            old(out)@ + encode(data@) == out@ + encode(data@.skip(i as int)),
        decreases n - i,
    {
        let b0 = data[i];
        let b1 = data[i + 1];
        let b2 = data[i + 2];
        let ghost before = out@;
        proof {
            lemma_sextets(b0, b1, b2);
            assert(data@.skip(i as int).skip(3) =~= data@.skip(i + 3));
        }
        out.push(symbol_of(b0 >> 2));
        out.push(symbol_of(((b0 & 3) << 4) | (b1 >> 4)));
        out.push(symbol_of(((b1 & 15) << 2) | (b2 >> 6)));
        out.push(symbol_of(b2 & 63));
        assert(out@ + encode(data@.skip(i + 3)) =~= before + encode(data@.skip(i as int)));
        i = i + 3;
    }
    let ghost before = out@;
    if n - i == 1 {
        let b0 = data[i];
        proof {
            lemma_sextets(b0, 0, 0);
        }
        out.push(symbol_of(b0 >> 2));
        out.push(symbol_of(((b0 & 3) << 4) | (0u8 >> 4)));
        out.push(PAD);
        out.push(PAD);
        assert(out@ =~= before + encode(data@.skip(i as int)));
    } else if n - i == 2 {
        let b0 = data[i];
        let b1 = data[i + 1];
        proof {
            lemma_sextets(b0, b1, 0);
        }
        out.push(symbol_of(b0 >> 2));
        out.push(symbol_of(((b0 & 3) << 4) | (b1 >> 4)));
        out.push(symbol_of(((b1 & 15) << 2) | (0u8 >> 6)));
        out.push(PAD);
        assert(out@ =~= before + encode(data@.skip(i as int)));
    } else {
        assert(out@ =~= before + encode(data@.skip(i as int)));
    }
}

/// Appends the literal of a binary payload.
pub fn push_binary(out: &mut Vec<u8>, data: &[u8])
    ensures
        final(out)@ == old(out)@ + encode_binary(data@),
{
    out.push(QUOTE);
    push_base64(out, data);
    out.push(QUOTE);
    assert(out@ =~= old(out)@ + encode_binary(data@));
}

/// Reads the literal of a binary payload that starts at position `pos` of `b`.
pub fn parse_binary(b: &[u8], pos: usize) -> (found: Option<(Vec<u8>, usize)>)
    ensures
        match decode_binary(b@, pos as int) {
            Some((data, end)) => found matches Some((v, e)) && v@ == data && e == end,
            None => found is None,
        },
{
    if pos >= b.len() || b[pos] != QUOTE {
        return None;
    }
    parse_base64(b, pos + 1)
}

/// Reads base64 text in `b` from position `pos` up to the closing quote.
fn parse_base64(b: &[u8], pos: usize) -> (found: Option<(Vec<u8>, usize)>)
    ensures
        match decode_until_quote(b@, pos as int) {
            Some((data, end)) => found matches Some((v, e)) && v@ == data && e == end,
            None => found is None,
        },
{
    let n = b.len();
    let mut acc: Vec<u8> = Vec::new();
    let mut i: usize = pos;
    assert(prepend(acc@, decode_until_quote(b@, pos as int)) =~= decode_until_quote(
        b@,
        pos as int,
    )) by {
        match decode_until_quote(b@, pos as int) {
            Some((rest, end)) => {
                assert(acc@ + rest =~= rest);
            },
            None => {},
        }
    }
    loop
        invariant
            n == b@.len(),
            decode_until_quote(b@, pos as int) == prepend(acc@, decode_until_quote(b@, i as int)),
        decreases n - i,
    {
        if i >= n {
            return None;
        }
        if b[i] == QUOTE {
            assert(acc@ + Seq::<u8>::empty() =~= acc@);
            return Some((acc, i + 1));
        }
        if n - i <= 4 {
            return None;
        }
        let v0 = match value_of(b[i]) {
            Some(v) => v,
            None => {
                return None;
            },
        };
        let v1 = match value_of(b[i + 1]) {
            Some(v) => v,
            None => {
                return None;
            },
        };
        match value_of(b[i + 2]) {
            None => {
                if b[i + 2] == PAD && b[i + 3] == PAD && b[i + 4] == QUOTE && v1 & 15 == 0 {
                    let ghost before = acc@;
                    acc.push((v0 << 2) | (v1 >> 4));
                    assert(acc@ =~= before + seq![octet0(v0, v1)]);
                    return Some((acc, i + 5));
                }
                return None;
            },
            Some(v2) => match value_of(b[i + 3]) {
                None => {
                    if b[i + 3] == PAD && b[i + 4] == QUOTE && v2 & 3 == 0 {
                        let ghost before = acc@;
                        acc.push((v0 << 2) | (v1 >> 4));
                        acc.push(((v1 & 15) << 4) | (v2 >> 2));
                        assert(acc@ =~= before + seq![octet0(v0, v1), octet1(v1, v2)]);
                        return Some((acc, i + 5));
                    }
                    return None;
                },
                Some(v3) => {
                    let ghost before = acc@;
                    acc.push((v0 << 2) | (v1 >> 4));
                    acc.push(((v1 & 15) << 4) | (v2 >> 2));
                    acc.push(((v2 & 3) << 6) | v3);
                    proof {
                        let group = seq![octet0(v0, v1), octet1(v1, v2), octet2(v2, v3)];
                        assert(acc@ =~= before + group);
                        match decode_until_quote(b@, i + 4) {
                            Some((rest, end)) => {
                                assert(before + (group + rest) =~= acc@ + rest);
                            },
                            None => {},
                        }
                    }
                    i = i + 4;
                },
            },
        }
    }
}

} // verus!
