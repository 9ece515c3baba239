//! Standard base64 (with `=` padding), as curl writes credentials.

use vstd::prelude::*;
use vstd::utf8::encode_utf8;

use crate::text::string_of;

verus! {

/// The base64 digit of a six-bit value.
pub open spec fn b64_char(v: u8) -> char {
    if v < 26 {
        (v + 65) as char
    } else if v < 52 {
        (v - 26 + 97) as char
    } else if v < 62 {
        (v - 52 + 48) as char
    } else if v == 62 {
        '+'
    } else {
        '/'
    }
}

/// The base64 digit of the low six bits of `value`.
fn encode_base64_char(value: u32) -> (r: char)
    ensures
        r == b64_char((value & 0x3f) as u8),
{
    let v: u8 = (value & 0x3f) as u8;
    assert(v < 64) by (bit_vector)
        requires
            v == (value & 0x3f) as u8,
    ;
    if v < 26 {
        (v + 65) as char
    } else if v < 52 {
        (v - 26 + 97) as char
    } else if v < 62 {
        (v - 52 + 48) as char
    } else if v == 62 {
        '+'
    } else {
        '/'
    }
}

/// The four digits of three bytes.
pub open spec fn b64_group(b0: u8, b1: u8, b2: u8) -> Seq<char> {
    seq![
        b64_char(b0 >> 2),
        b64_char(((b0 & 3) << 4) | (b1 >> 4)),
        b64_char(((b1 & 15) << 2) | (b2 >> 6)),
        b64_char(b2 & 63),
    ]
}

/// The padded digits of a last group of fewer than three bytes.
pub open spec fn b64_tail(b: Seq<u8>) -> Seq<char> {
    if b.len() == 2 {
        seq![
            b64_char(b[0] >> 2),
            b64_char(((b[0] & 3) << 4) | (b[1] >> 4)),
            b64_char((b[1] & 15) << 2),
            '=',
        ]
    } else if b.len() == 1 {
        seq![b64_char(b[0] >> 2), b64_char((b[0] & 3) << 4), '=', '=']
    } else {
        Seq::empty()
    }
}

/// The base64 text of a byte string.
pub open spec fn base64_of(b: Seq<u8>) -> Seq<char>
    decreases b.len(),
{
    if b.len() >= 3 {
        b64_group(b[0], b[1], b[2]) + base64_of(b.skip(3))
    } else {
        b64_tail(b)
    }
}

/// The base64 text of the UTF-8 bytes of `input`.
pub fn base64_encode(input: &str) -> (r: String)
    ensures
        r@ == base64_of(encode_utf8(input@)),
{
    let bytes = input.as_bytes();
    let ghost b = bytes@;
    let n = bytes.len();
    let mut out: Vec<char> = Vec::new();
    let mut i: usize = 0;
    assert(b.skip(0) =~= b);
    while n - i >= 3
        invariant
            n == b.len(),
            b == bytes@,
            i <= n,
            out@ + base64_of(b.skip(i as int)) == base64_of(b),
        decreases n - i,
    {
        let c0 = bytes[i];
        let c1 = bytes[i + 1];
        let c2 = bytes[i + 2];
        let d0 = encode_base64_char((c0 >> 2) as u32);
        let d1 = encode_base64_char((((c0 & 0x03) << 4) | (c1 >> 4)) as u32);
        let d2 = encode_base64_char((((c1 & 0x0F) << 2) | (c2 >> 6)) as u32);
        let d3 = encode_base64_char((c2 & 0x3F) as u32);
        assert((((c0 >> 2u8) as u32) & 0x3f) as u8 == c0 >> 2u8) by (bit_vector);
        assert((((((c0 & 3u8) << 4u8) | (c1 >> 4u8)) as u32) & 0x3f) as u8 == (((c0 & 3u8) << 4u8)
            | (c1 >> 4u8))) by (bit_vector);
        assert((((((c1 & 15u8) << 2u8) | (c2 >> 6u8)) as u32) & 0x3f) as u8 == (((c1 & 15u8)
            << 2u8) | (c2 >> 6u8))) by (bit_vector);
        assert((((c2 & 63u8) as u32) & 0x3f) as u8 == c2 & 63u8) by (bit_vector);
        let ghost rest = b.skip(i as int);
        assert(rest.skip(3) =~= b.skip(i + 3));
        assert(base64_of(rest) == b64_group(c0, c1, c2) + base64_of(b.skip(i + 3)));
        let ghost prev = out@;
        out.push(d0);
        out.push(d1);
        out.push(d2);
        out.push(d3);
        assert(out@ =~= prev + b64_group(c0, c1, c2));
        assert(out@ + base64_of(b.skip(i + 3)) =~= prev + (b64_group(c0, c1, c2) + base64_of(
            b.skip(i + 3),
        )));
        i = i + 3;
    }
    let ghost prev = out@;
    let ghost rest = b.skip(i as int);
    if n - i == 2 {
        let c0 = bytes[i];
        let c1 = bytes[i + 1];
        let d0 = encode_base64_char((c0 >> 2) as u32);
        let d1 = encode_base64_char((((c0 & 0x03) << 4) | (c1 >> 4)) as u32);
        let d2 = encode_base64_char(((c1 & 0x0F) << 2) as u32);
        assert((((c0 >> 2u8) as u32) & 0x3f) as u8 == c0 >> 2u8) by (bit_vector);
        assert((((((c0 & 3u8) << 4u8) | (c1 >> 4u8)) as u32) & 0x3f) as u8 == (((c0 & 3u8) << 4u8)
            | (c1 >> 4u8))) by (bit_vector);
        assert(((((c1 & 15u8) << 2u8) as u32) & 0x3f) as u8 == ((c1 & 15u8) << 2u8)) by (bit_vector);
        out.push(d0);
        out.push(d1);
        out.push(d2);
        out.push('=');
        assert(out@ =~= prev + b64_tail(rest));
    } else if n - i == 1 {
        let c0 = bytes[i];
        let d0 = encode_base64_char((c0 >> 2) as u32);
        let d1 = encode_base64_char(((c0 & 0x03) << 4) as u32);
        assert((((c0 >> 2u8) as u32) & 0x3f) as u8 == c0 >> 2u8) by (bit_vector);
        assert(((((c0 & 3u8) << 4u8) as u32) & 0x3f) as u8 == ((c0 & 3u8) << 4u8)) by (bit_vector);
        out.push(d0);
        out.push(d1);
        out.push('=');
        out.push('=');
        assert(out@ =~= prev + b64_tail(rest));
    } else {
        assert(out@ =~= prev + b64_tail(rest));
    }
    string_of(&out)
}

} // verus!
