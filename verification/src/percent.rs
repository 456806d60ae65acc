//! Percent-encoding of text for Mercurial's wire formats.
//!
//! A byte of the UTF-8 form of the text is written as `%` and two upper-case
//! hexadecimal digits when it is not ASCII or belongs to the encode set;
//! every other byte is written as it is. The encode set is the "userinfo"
//! set of the URL standard and the comma: the C0 controls and DEL, and
//!
//! ```text
//! space " < > ` # ? { } / : ; = @ [ \ ] ^ | ,
//! ```

use vstd::prelude::*;
use vstd::utf8::*;
use crate::text::{ascii_string, ascii_text, is_ascii_bytes, lemma_ascii_is_utf8};

verus! {

/// The byte `%`.
pub const PERCENT: u8 = 0x25;

/// Whether the ASCII byte `b` belongs to the encode set.
pub open spec fn in_encode_set(b: u8) -> bool {
    ||| b < 0x20
    ||| b == 0x7f
    ||| b == 0x20
    ||| b == 0x22
    ||| b == 0x3c
    ||| b == 0x3e
    ||| b == 0x60
    ||| b == 0x23
    ||| b == 0x3f
    ||| b == 0x7b
    ||| b == 0x7d
    ||| b == 0x2f
    ||| b == 0x3a
    ||| b == 0x3b
    ||| b == 0x3d
    ||| b == 0x40
    ||| b == 0x5b
    ||| b == 0x5c
    ||| b == 0x5d
    ||| b == 0x5e
    ||| b == 0x7c
    ||| b == 0x2c
}

/// Whether the byte `b` is written in escaped form.
pub open spec fn is_escaped(b: u8) -> bool {
    b >= 0x80 || in_encode_set(b)
}

/// The upper-case hexadecimal digit, as an ASCII byte, of a value below
/// 16.
pub open spec fn upper_hex_digit(value: u8) -> u8 {
    if value < 10 {
        (0x30 + value) as u8
    } else {
        (0x41 + (value - 10)) as u8
    }
}

/// The escaped form of `b`: `%` and two upper-case hexadecimal digits.
pub open spec fn escape_of(b: u8) -> Seq<u8> {
    seq![PERCENT, upper_hex_digit(b / 16), upper_hex_digit(b % 16)]
}

/// The encoded form of one byte.
pub open spec fn encoded_byte(b: u8) -> Seq<u8> {
    if is_escaped(b) {
        escape_of(b)
    } else {
        seq![b]
    }
}

/// The encoded form of `input`: the encoded forms of its bytes, one after
/// another.
pub open spec fn percent_encoded(input: Seq<u8>) -> Seq<u8>
    decreases input.len(),
{
    if input.len() == 0 {
        Seq::empty()
    } else {
        percent_encoded(input.drop_last()) + encoded_byte(input.last())
    }
}

/// `percent_encoding::percent_encode_byte`: the escaped form of `byte`,
/// whatever set it belongs to, read from a table of all 256 forms.
pub assume_specification[ percent_encoding::percent_encode_byte ](byte: u8) -> (text: &'static str)
    ensures
        text@ == ascii_text(escape_of(byte)),
;

/// Whether `b` is written in escaped form.
pub fn needs_escape(b: u8) -> (yes: bool)
    ensures
        yes == is_escaped(b),
{
    b >= 0x80 || b < 0x20 || b == 0x7f || b == 0x20 || b == 0x22 || b == 0x3c || b == 0x3e || b
        == 0x60 || b == 0x23 || b == 0x3f || b == 0x7b || b == 0x7d || b == 0x2f || b == 0x3a || b
        == 0x3b || b == 0x3d || b == 0x40 || b == 0x5b || b == 0x5c || b == 0x5d || b == 0x5e || b
        == 0x7c || b == 0x2c
}

/// The encoded form is ASCII.
pub proof fn lemma_encoded_byte_is_ascii(b: u8)
    ensures
        is_ascii_bytes(encoded_byte(b)),
        is_ascii_bytes(escape_of(b)),
{
    assert(b / 16 < 16 && b % 16 < 16);
}

/// Percent-encodes `input`.
pub fn percent_encode(input: &str) -> (encoded: String)
    ensures
        encoded@ == ascii_text(percent_encoded(encode_utf8(input@))),
{
    let bytes = input.as_bytes();
    let mut out: Vec<u8> = Vec::new();
    let mut i: usize = 0;
    assert(bytes@.take(0) =~= Seq::<u8>::empty());
    while i < bytes.len()
        invariant
            i <= bytes.len(),
            out@ == percent_encoded(bytes@.take(i as int)),
            is_ascii_bytes(out@),
        decreases bytes.len() - i,
    {
        let b: u8 = bytes[i];
        proof {
            lemma_encoded_byte_is_ascii(b);
            assert(bytes@.take(i + 1).drop_last() =~= bytes@.take(i as int));
            assert(bytes@.take(i + 1).last() == b);
        }
        if needs_escape(b) {
            let escape = percent_encoding::percent_encode_byte(b);
            proof {
                lemma_ascii_is_utf8(escape_of(b));
            }
            out.extend_from_slice(escape.as_bytes());
        } else {
            out.push(b);
            assert(out@ =~= percent_encoded(bytes@.take(i as int)) + seq![b]);
        }
        i += 1;
    }
    assert(bytes@.take(bytes.len() as int) =~= bytes@);
    ascii_string(out)
}

} // verus!
