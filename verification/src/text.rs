//! Text literals: a string in UTF-8 between double quotes, with the quote, the
//! backslash and the control characters escaped.

use vstd::prelude::*;
use vstd::string::*;
use vstd::utf8::*;
use crate::bytes::{at, lemma_at_index, lemma_at_split, prepend, QUOTE};

verus! {

/// The backslash that starts an escape.
pub const BACKSLASH: u8 = 0x5c;

/// The upper-case hexadecimal digit of a value below sixteen.
pub open spec fn hex_digit(v: u8) -> u8 {
    if v < 10 {
        (v + 48) as u8
    } else {
        (v + 55) as u8
    }
}

/// The value of a hexadecimal digit of either case.
pub open spec fn hex_value(c: u8) -> Option<u8> {
    if 48 <= c <= 57 {
        Some((c - 48) as u8)
    } else if 65 <= c <= 70 {
        Some((c - 55) as u8)
    } else if 97 <= c <= 102 {
        Some((c - 87) as u8)
    } else {
        None
    }
}

/// How one byte of a string is written inside a text literal.
pub open spec fn escape_byte(c: u8) -> Seq<u8> {
    if c == QUOTE {
        seq![BACKSLASH, QUOTE]
    } else if c == BACKSLASH {
        seq![BACKSLASH, BACKSLASH]
    } else if c == 0x08 {
        seq![BACKSLASH, 0x62]
    } else if c == 0x09 {
        seq![BACKSLASH, 0x74]
    } else if c == 0x0a {
        seq![BACKSLASH, 0x6e]
    } else if c == 0x0c {
        seq![BACKSLASH, 0x66]
    } else if c == 0x0d {
        seq![BACKSLASH, 0x72]
    } else if c < 0x20 {
        seq![BACKSLASH, 0x75, 0x30, 0x30, hex_digit(c / 16), hex_digit(c % 16)]
    } else {
        seq![c]
    }
}

/// The bytes of a string as they are written inside a text literal.
pub open spec fn escape(raw: Seq<u8>) -> Seq<u8>
    decreases raw.len(),
{
    if raw.len() == 0 {
        Seq::empty()
    } else {
        escape_byte(raw[0]) + escape(raw.skip(1))
    }
}

/// The text literal of a string.
pub open spec fn encode_text(t: Seq<char>) -> Seq<u8> {
    seq![QUOTE] + escape(encode_utf8(t)) + seq![QUOTE]
}

/// Reads one byte of a string at position `i` of `b`, which is inside a text
/// literal and holds no quote: the byte, and how many bytes stand for it.
/// A control character must be escaped; of the `\u` escapes only those for
/// the ASCII range are read.
pub open spec fn unescape_one(b: Seq<u8>, i: int) -> Option<(u8, int)> {
    if b[i] < 0x20 {
        None
    } else if b[i] != BACKSLASH {
        Some((b[i], 1))
    } else if i + 1 >= b.len() {
        None
    } else if b[i + 1] == QUOTE {
        Some((QUOTE, 2))
    } else if b[i + 1] == BACKSLASH {
        Some((BACKSLASH, 2))
    } else if b[i + 1] == 0x62 {
        Some((0x08u8, 2))
    } else if b[i + 1] == 0x74 {
        Some((0x09u8, 2))
    } else if b[i + 1] == 0x6e {
        Some((0x0au8, 2))
    } else if b[i + 1] == 0x66 {
        Some((0x0cu8, 2))
    } else if b[i + 1] == 0x72 {
        Some((0x0du8, 2))
    } else if b[i + 1] == 0x75 && i + 5 < b.len() && b[i + 2] == 0x30 && b[i + 3] == 0x30 {
        match (hex_value(b[i + 4]), hex_value(b[i + 5])) {
            (Some(high), Some(low)) => if high < 8 {
                Some(((high * 16 + low) as u8, 6))
            } else {
                None
            },
            _ => None,
        }
    } else {
        None
    }
}

/// Reads the inside of a text literal in `b` from position `i` up to the
/// closing quote: the bytes of the string, and the position behind the quote.
pub open spec fn unescape(b: Seq<u8>, i: int) -> Option<(Seq<u8>, int)>
    decreases b.len() - i,
{
    if i < 0 || i >= b.len() {
        None
    } else if b[i] == QUOTE {
        Some((Seq::empty(), i + 1))
    } else {
        match unescape_one(b, i) {
            Some((c, n)) => prepend(seq![c], unescape(b, i + n)),
            None => None,
        }
    }
}

/// Reads a text literal that starts at position `pos` of `b`: the string, and
/// the position behind the closing quote. The bytes between the quotes must
/// be UTF-8 once the escapes are undone.
pub open spec fn decode_text(b: Seq<u8>, pos: int) -> Option<(Seq<char>, int)> {
    if 0 <= pos < b.len() && b[pos] == QUOTE {
        match unescape(b, pos + 1) {
            Some((raw, end)) => if valid_utf8(raw) {
                Some((decode_utf8(raw), end))
            } else {
                None
            },
            None => None,
        }
    } else {
        None
    }
}

proof fn lemma_unescape_one(b: Seq<u8>, i: int, c: u8)
    requires
        at(b, i, escape_byte(c)),
    ensures
        b[i] != QUOTE,
        unescape_one(b, i) == Some((c, escape_byte(c).len() as int)),
{
    let e = escape_byte(c);
    lemma_at_index(b, i, e, 0);
    if e.len() >= 2 {
        lemma_at_index(b, i, e, 1);
    }
    if e.len() == 6 {
        lemma_at_index(b, i, e, 2);
        lemma_at_index(b, i, e, 3);
        lemma_at_index(b, i, e, 4);
        lemma_at_index(b, i, e, 5);
        assert(hex_value(hex_digit(c / 16)) == Some((c / 16) as u8));
        assert(hex_value(hex_digit(c % 16)) == Some((c % 16) as u8));
    }
}

/// Reading the escaped form of a byte string, wherever it stands before a
/// quote, gives the byte string back.
pub proof fn lemma_unescape_escape(b: Seq<u8>, i: int, raw: Seq<u8>)
    requires
        at(b, i, escape(raw) + seq![QUOTE]),
    ensures
        unescape(b, i) == Some((raw, i + escape(raw).len() + 1)),
    decreases raw.len(),
{
    let text = escape(raw) + seq![QUOTE];
    if raw.len() == 0 {
        lemma_at_index(b, i, text, 0);
        assert(raw =~= Seq::empty());
    } else {
        let first = escape_byte(raw[0]);
        let rest = raw.skip(1);
        assert(text =~= first + (escape(rest) + seq![QUOTE]));
        lemma_at_split(b, i, first, escape(rest) + seq![QUOTE]);
        lemma_unescape_one(b, i, raw[0]);
        lemma_unescape_escape(b, i + first.len(), rest);
        assert(seq![raw[0]] + rest =~= raw);
    }
}

/// Reading the text literal of a string, wherever it stands, gives the string
/// back.
pub proof fn lemma_decode_encode_text(b: Seq<u8>, pos: int, t: Seq<char>)
    requires
        at(b, pos, encode_text(t)),
    ensures
        decode_text(b, pos) == Some((t, pos + encode_text(t).len())),
{
    let raw = encode_utf8(t);
    assert(encode_text(t) =~= seq![QUOTE] + (escape(raw) + seq![QUOTE]));
    lemma_at_split(b, pos, seq![QUOTE], escape(raw) + seq![QUOTE]);
    lemma_at_index(b, pos, seq![QUOTE], 0);
    lemma_unescape_escape(b, pos + 1, raw);
    encode_utf8_valid_utf8(t);
    encode_utf8_decode_utf8(t);
}

/// Calls `String::from_utf8` of the standard library. What is stated of it is
/// believed, not proved: it gives a string exactly where `bytes` is valid
/// UTF-8, and the string is then the one that `bytes` encodes.
#[verifier::external_body]
fn string_from_utf8(bytes: Vec<u8>) -> (s: Option<String>)
    ensures
        s is Some <==> valid_utf8(bytes@),
        s is Some ==> s->Some_0@ == decode_utf8(bytes@),
{
    match String::from_utf8(bytes) {
        Ok(s) => Some(s),
        Err(_) => None,
    }
}

fn hex_digit_of(v: u8) -> (c: u8)
    requires
        v < 16,
    ensures
        c == hex_digit(v),
{
    if v < 10 {
        v + 48
    } else {
        v + 55
    }
}

fn hex_value_of(c: u8) -> (v: Option<u8>)
    ensures
        v == hex_value(c),
{
    if 48 <= c && c <= 57 {
        Some(c - 48)
    } else if 65 <= c && c <= 70 {
        Some(c - 55)
    } else if 97 <= c && c <= 102 {
        Some(c - 87)
    } else {
        None
    }
}

/// Appends the escaped form of one byte.
fn push_escaped(out: &mut Vec<u8>, c: u8)
    ensures
        final(out)@ == old(out)@ + escape_byte(c),
{
    if c == QUOTE || c == BACKSLASH {
        out.push(BACKSLASH);
        out.push(c);
    } else if c == 0x08 {
        out.push(BACKSLASH);
        out.push(0x62);
    } else if c == 0x09 {
        out.push(BACKSLASH);
        out.push(0x74);
    } else if c == 0x0a {
        out.push(BACKSLASH);
        out.push(0x6e);
    } else if c == 0x0c {
        out.push(BACKSLASH);
        out.push(0x66);
    } else if c == 0x0d {
        out.push(BACKSLASH);
        out.push(0x72);
    } else if c < 0x20 {
        out.push(BACKSLASH);
        out.push(0x75);
        out.push(0x30);
        out.push(0x30);
        out.push(hex_digit_of(c / 16));
        out.push(hex_digit_of(c % 16));
    } else {
        out.push(c);
    }
    assert(out@ =~= old(out)@ + escape_byte(c));
}

/// Appends the text literal of a string.
pub fn push_text(out: &mut Vec<u8>, s: &str)
    ensures
        final(out)@ == old(out)@ + encode_text(s@),
{
    let raw = s.as_bytes();
    out.push(QUOTE);
    let mut i: usize = 0;
    assert(raw@.skip(0) =~= raw@);
    while i < raw.len()
        invariant
            i <= raw.len(),
            raw@ == encode_utf8(s@),
            old(out)@ + seq![QUOTE] + escape(raw@) == out@ + escape(raw@.skip(i as int)),
        decreases raw.len() - i,
    {
        let ghost before = out@;
        proof {
            assert(raw@.skip(i as int).skip(1) =~= raw@.skip(i + 1));
        }
        push_escaped(out, raw[i]);
        assert(out@ + escape(raw@.skip(i + 1)) =~= before + escape(raw@.skip(i as int)));
        i = i + 1;
    }
    let ghost before = out@;
    out.push(QUOTE);
    assert(out@ =~= old(out)@ + encode_text(s@)) by {
        assert(before + escape(raw@.skip(i as int)) =~= before);
    }
}

/// Reads one byte of a string at position `i`, inside a text literal.
fn read_escaped(b: &[u8], i: usize) -> (found: Option<(u8, usize)>)
    requires
        i < b@.len(),
    ensures
        match unescape_one(b@, i as int) {
            Some((c, n)) => found == Some((c, n as usize)) && 1 <= n <= 6 && i + n <= b@.len(),
            None => found is None,
        },
{
    let c = b[i];
    if c < 0x20 {
        return None;
    }
    if c != BACKSLASH {
        return Some((c, 1));
    }
    if b.len() - i <= 1 {
        return None;
    }
    let e = b[i + 1];
    if e == QUOTE {
        Some((QUOTE, 2))
    } else if e == BACKSLASH {
        Some((BACKSLASH, 2))
    } else if e == 0x62 {
        Some((0x08, 2))
    } else if e == 0x74 {
        Some((0x09, 2))
    } else if e == 0x6e {
        Some((0x0a, 2))
    } else if e == 0x66 {
        Some((0x0c, 2))
    } else if e == 0x72 {
        Some((0x0d, 2))
    } else if e == 0x75 && b.len() - i > 5 && b[i + 2] == 0x30 && b[i + 3] == 0x30 {
        match (hex_value_of(b[i + 4]), hex_value_of(b[i + 5])) {
            (Some(high), Some(low)) => if high < 8 {
                Some((high * 16 + low, 6))
            } else {
                None
            },
            _ => None,
        }
    } else {
        None
    }
}

/// Reads a text literal that starts at position `pos` of `b`.
pub fn parse_text(b: &[u8], pos: usize) -> (found: Option<(String, usize)>)
    ensures
        match decode_text(b@, pos as int) {
            Some((t, end)) => found matches Some((s, e)) && s@ == t && e == end,
            None => found is None,
        },
{
    let n = b.len();
    if pos >= n || b[pos] != QUOTE {
        return None;
    }
    let mut acc: Vec<u8> = Vec::new();
    let mut i: usize = pos + 1;
    assert(prepend(acc@, unescape(b@, pos + 1)) =~= unescape(b@, pos + 1)) by {
        match unescape(b@, pos + 1) {
            Some((rest, end)) => {
                assert(acc@ + rest =~= rest);
            },
            None => {},
        }
    }
    loop
        invariant
            n == b@.len(),
            pos < i <= n,
            b@[pos as int] == QUOTE,
            unescape(b@, pos + 1) == prepend(acc@, unescape(b@, i as int)),
        decreases n - i,
    {
        if i >= n {
            return None;
        }
        if b[i] == QUOTE {
            assert(acc@ + Seq::<u8>::empty() =~= acc@);
            return match string_from_utf8(acc) {
                Some(s) => Some((s, i + 1)),
                None => None,
            };
        }
        match read_escaped(b, i) {
            None => {
                return None;
            },
            Some((c, len)) => {
                let ghost before = acc@;
                acc.push(c);
                proof {
                    match unescape(b@, i + len) {
                        Some((rest, end)) => {
                            assert(before + (seq![c] + rest) =~= acc@ + rest);
                        },
                        None => {},
                    }
                }
                i = i + len;
            },
        }
    }
}

/// Tells whether two strings are the same.
pub fn same_text(a: &str, b: &str) -> (same: bool)
    ensures
        same == (a@ == b@),
{
    let x = a.as_bytes();
    let y = b.as_bytes();
    proof {
        encode_utf8_decode_utf8(a@);
        encode_utf8_decode_utf8(b@);
    }
    if x.len() != y.len() {
        return false;
    }
    let mut i: usize = 0;
    while i < x.len()
        invariant
            i <= x.len(),
            x.len() == y.len(),
            x@ == encode_utf8(a@),
            y@ == encode_utf8(b@),
            forall|k: int| 0 <= k < i ==> x@[k] == y@[k],
        decreases x.len() - i,
    {
        if x[i] != y[i] {
            return false;
        }
        i = i + 1;
    }
    assert(x@ =~= y@);
    true
}

} // verus!
