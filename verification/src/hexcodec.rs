//! Hexadecimal text for keys, through the `hex` crate.

use vstd::prelude::*;
use vstd::utf8::*;

use crate::text::{is_whitespace, trim_start, trimmed, TrimKind};

verus! {

/// The lowercase hex digit of a value below 16.
pub open spec fn hex_digit(v: nat) -> char {
    if v < 10 {
        (48 + v) as char
    } else {
        (87 + v) as char
    }
}

/// The lowercase hex text of a byte string, two digits per byte, high
/// nibble first (what `hex::encode` returns).
pub open spec fn hex_encode_spec(b: Seq<u8>) -> Seq<char>
    decreases b.len(),
{
    if b.len() == 0 {
        Seq::<char>::empty()
    } else {
        seq![hex_digit((b[0] / 16) as nat), hex_digit((b[0] % 16) as nat)] + hex_encode_spec(
            b.drop_first(),
        )
    }
}

/// The value of one hex digit given as a byte, in either case.
pub open spec fn hex_value(c: u8) -> Option<u8> {
    if 48 <= c && c <= 57 {
        Some((c - 48) as u8)
    } else if 97 <= c && c <= 102 {
        Some((c - 87) as u8)
    } else if 65 <= c && c <= 70 {
        Some((c - 55) as u8)
    } else {
        None
    }
}

/// What `hex::decode` makes of a byte string: an even number of hex
/// digits, read in pairs, or nothing.
pub open spec fn hex_decode_spec(b: Seq<u8>) -> Option<Seq<u8>>
    decreases b.len(),
{
    if b.len() % 2 != 0 {
        None
    } else if b.len() == 0 {
        Some(Seq::<u8>::empty())
    } else {
        match (hex_value(b[0]), hex_value(b[1]), hex_decode_spec(b.subrange(2, b.len() as int))) {
            (Some(h), Some(l), Some(r)) => Some(seq![(h * 16 + l) as u8] + r),
            _ => None,
        }
    }
}

/// `hex::encode`: the lowercase hex text of `bytes`.
#[verifier::external_body]
pub(crate) fn hex_encode(bytes: &[u8]) -> (res: String)
    ensures
        res@ == hex_encode_spec(bytes@),
{
    hex::encode(bytes)
}

/// `hex::decode` on the UTF-8 bytes of `text`: the bytes that the pairs
/// of hex digits denote, or nothing when the length is odd or a byte is
/// not a hex digit.
#[verifier::external_body]
pub(crate) fn hex_decode(text: &str) -> (res: Option<Vec<u8>>)
    ensures
        match res {
            Some(v) => hex_decode_spec(encode_utf8(text@)) == Some(v@),
            None => hex_decode_spec(encode_utf8(text@)) is None,
        },
{
    hex::decode(text).ok()
}

/// The bytes of an ASCII character string.
pub open spec fn ascii_bytes(s: Seq<char>) -> Seq<u8> {
    Seq::new(s.len(), |i: int| s[i] as u8)
}

/// The hex text of `b` has two ASCII hex digits per byte.
pub proof fn lemma_hex_encode_shape(b: Seq<u8>)
    ensures
        hex_encode_spec(b).len() == 2 * b.len(),
        is_ascii_chars(hex_encode_spec(b)),
        forall|i: int|
            0 <= i < hex_encode_spec(b).len() ==> hex_value(#[trigger] hex_encode_spec(b)[i] as u8)
                is Some,
        forall|i: int|
            0 <= i < hex_encode_spec(b).len() ==> !is_whitespace(#[trigger] hex_encode_spec(b)[i]),
    decreases b.len(),
{
    if b.len() > 0 {
        lemma_hex_encode_shape(b.drop_first());
        let h = (b[0] / 16) as nat;
        let l = (b[0] % 16) as nat;
        lemma_hex_digit(h);
        lemma_hex_digit(l);
        let rest = hex_encode_spec(b.drop_first());
        let e = hex_encode_spec(b);
        assert(e == seq![hex_digit(h), hex_digit(l)] + rest);
        assert forall|i: int| 0 <= i < e.len() implies '\0' <= #[trigger] e[i] <= '\u{7f}' by {
            if i >= 2 {
                assert(e[i] == rest[i - 2]);
            }
        }
        assert forall|i: int| 0 <= i < e.len() implies hex_value(#[trigger] e[i] as u8) is Some by {
            if i >= 2 {
                assert(e[i] == rest[i - 2]);
            }
        }
        assert forall|i: int| 0 <= i < e.len() implies !is_whitespace(#[trigger] e[i]) by {
            if i >= 2 {
                assert(e[i] == rest[i - 2]);
            }
        }
    }
}

/// A hex digit is an ASCII character, not white space, whose value is
/// the number it stands for.
pub proof fn lemma_hex_digit(v: nat)
    requires
        v < 16,
    ensures
        '\0' <= hex_digit(v) <= '\u{7f}',
        hex_value(hex_digit(v) as u8) == Some(v as u8),
        !is_whitespace(hex_digit(v)),
{
    if v < 10 {
        assert((hex_digit(v) as u32) == 48 + v);
    } else {
        assert((hex_digit(v) as u32) == 87 + v);
    }
}

/// Decoding the bytes of the hex text of `b` gives `b` back.
pub proof fn lemma_hex_decode_ascii(b: Seq<u8>)
    ensures
        hex_decode_spec(ascii_bytes(hex_encode_spec(b))) == Some(b),
    decreases b.len(),
{
    lemma_hex_encode_shape(b);
    if b.len() == 0 {
        assert(ascii_bytes(hex_encode_spec(b)) =~= Seq::<u8>::empty());
        assert(b =~= Seq::<u8>::empty());
    } else {
        let h = (b[0] / 16) as nat;
        let l = (b[0] % 16) as nat;
        lemma_hex_digit(h);
        lemma_hex_digit(l);
        lemma_hex_decode_ascii(b.drop_first());
        lemma_hex_encode_shape(b.drop_first());
        let e = ascii_bytes(hex_encode_spec(b));
        let rest = ascii_bytes(hex_encode_spec(b.drop_first()));
        assert(e.subrange(2, e.len() as int) =~= rest);
        assert(e[0] == hex_digit(h) as u8);
        assert(e[1] == hex_digit(l) as u8);
        assert(((h * 16 + l) as u8) == b[0]);
        assert(seq![b[0]] + b.drop_first() =~= b);
    }
}

/// Decoding the UTF-8 bytes of the hex text of `b` gives `b` back: the
/// round trip that key files and key exchange rely on.
pub proof fn lemma_hex_round_trip(b: Seq<u8>)
    ensures
        hex_decode_spec(encode_utf8(hex_encode_spec(b))) == Some(b),
{
    let e = hex_encode_spec(b);
    lemma_hex_encode_shape(b);
    is_ascii_chars_encode_utf8(e);
    assert(encode_utf8(e) =~= ascii_bytes(e));
    lemma_hex_decode_ascii(b);
}

/// Trimming white space leaves hex text unchanged.
pub proof fn lemma_hex_trim(b: Seq<u8>)
    ensures
        trimmed(hex_encode_spec(b), TrimKind::Whitespace) == hex_encode_spec(b),
{
    let e = hex_encode_spec(b);
    lemma_hex_encode_shape(b);
    if e.len() > 0 {
        assert(!is_whitespace(e[0]));
        assert(!is_whitespace(e.last()));
    }
    assert(trim_start(e, TrimKind::Whitespace) == e);
}

} // verus!
