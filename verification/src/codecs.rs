//! Hexadecimal transcoding between byte strings and text.
//!
//! Every digest, key blob and encrypted path in the capsule is stored as
//! lowercase hexadecimal text. The spec functions here pin the encoding down
//! exactly: `hex_chars_of` maps bytes to their two-digit lowercase form, and
//! `hex_bytes_of` reads digit pairs back (accepting either letter case, as a
//! decoder conventionally does).

use vstd::prelude::*;

verus! {

/// True of the sixteen hexadecimal digit characters, either case.
pub open spec fn is_hex_digit(c: char) -> bool {
    (48 <= c as u32 && c as u32 <= 57)  // '0'..'9'
    || (97 <= c as u32 && c as u32 <= 102)  // 'a'..'f'
    || (65 <= c as u32 && c as u32 <= 70)  // 'A'..'F'
}

/// The value of one hexadecimal digit character (0 for a non-digit).
pub open spec fn hex_val(c: char) -> u8 {
    if 48 <= c as u32 && c as u32 <= 57 {
        (c as u32 - 48) as u8
    } else if 97 <= c as u32 && c as u32 <= 102 {
        (c as u32 - 87) as u8
    } else if 65 <= c as u32 && c as u32 <= 70 {
        (c as u32 - 55) as u8
    } else {
        0
    }
}

/// The lowercase digit character of one value below sixteen.
pub open spec fn hex_char_of(v: u8) -> char {
    if v < 10 {
        (48 + v) as char
    } else {
        (87 + v) as char
    }
}

/// The lowercase hexadecimal text of a byte string: two digits per byte,
/// high nibble first.
pub open spec fn hex_chars_of(bytes: Seq<u8>) -> Seq<char> {
    Seq::new(
        bytes.len() * 2,
        |i: int|
            if i % 2 == 0 {
                hex_char_of(bytes[i / 2] / 16)
            } else {
                hex_char_of(bytes[i / 2] % 16)
            },
    )
}

/// True of text that a decoder accepts: an even count of digit characters.
pub open spec fn is_hex_seq(s: Seq<char>) -> bool {
    s.len() % 2 == 0 && forall|i: int| 0 <= i < s.len() ==> is_hex_digit(#[trigger] s[i])
}

/// The byte string read from hexadecimal text, one byte per digit pair.
pub open spec fn hex_bytes_of(s: Seq<char>) -> Seq<u8> {
    Seq::new(s.len() / 2, |i: int| (hex_val(s[2 * i]) * 16 + hex_val(s[2 * i + 1])) as u8)
}

/// Encoding yields digits only, so decoding accepts every encoder output.
pub proof fn lemma_hex_chars_are_hex(bytes: Seq<u8>)
    ensures
        is_hex_seq(hex_chars_of(bytes)),
{
    assert forall|i: int| 0 <= i < hex_chars_of(bytes).len() implies is_hex_digit(
        #[trigger] hex_chars_of(bytes)[i],
    ) by {
        let b = bytes[i / 2];
        assert(b / 16 < 16 && b % 16 < 16) by (nonlinear_arith);
    }
}

/// Decoding inverts encoding: the bytes come back exactly.
pub proof fn lemma_hex_round_trip(bytes: Seq<u8>)
    ensures
        hex_bytes_of(hex_chars_of(bytes)) == bytes,
{
    let s = hex_chars_of(bytes);
    assert forall|i: int| 0 <= i < bytes.len() implies hex_bytes_of(s)[i] == bytes[i] by {
        let b = bytes[i];
        assert(b / 16 < 16 && b % 16 < 16 && b == (b / 16) * 16 + b % 16) by (nonlinear_arith);
    }
    assert(hex_bytes_of(s) =~= bytes);
}

/// The sixteen digit characters of the encoder's table, in value order.
proof fn lemma_hex_table()
    ensures
        "0123456789abcdef"@.len() == 16,
        vstd::utf8::is_ascii_chars("0123456789abcdef"@),
        forall|v: u8| v < 16 ==> "0123456789abcdef"@[v as int] == hex_char_of(v),
{
    reveal_strlit("0123456789abcdef");
}

/// Encodes bytes as lowercase hexadecimal text.
pub fn encode(data: &[u8]) -> (r: String)
    ensures
        r@ == hex_chars_of(data@),
{
    let mut out = String::new();
    let mut i: usize = 0;
    while i < data.len()
        invariant
            i <= data@.len(),
            out@ == hex_chars_of(data@.take(i as int)),
        decreases data@.len() - i,
    {
        let table = "0123456789abcdef";
        proof {
            lemma_hex_table();
        }
        let b = data[i];
        let hi = (b / 16) as usize;
        let lo = (b % 16) as usize;
        out.append(table.substring_ascii(hi, hi + 1));
        out.append(table.substring_ascii(lo, lo + 1));
        proof {
            assert(out@ =~= hex_chars_of(data@.take(i + 1)));
        }
        i = i + 1;
    }
    proof {
        assert(data@.take(data@.len() as int) =~= data@);
    }
    out
}

/// Encodes an owned byte buffer as lowercase hexadecimal text.
pub fn encode_vec(data: Vec<u8>) -> (r: String)
    ensures
        r@ == hex_chars_of(data@),
{
    encode(data.as_slice())
}

/// Reports whether text is decodable: an even count of digit characters.
pub fn is_hex(data: &str) -> (r: bool)
    ensures
        r == is_hex_seq(data@),
{
    let n = data.unicode_len();
    if n % 2 != 0 {
        return false;
    }
    let mut i: usize = 0;
    while i < n
        invariant
            i <= n,
            n == data@.len(),
            data@.len() % 2 == 0,
            forall|j: int| 0 <= j < i ==> is_hex_digit(#[trigger] data@[j]),
        decreases n - i,
    {
        let u = data.get_char(i) as u32;
        if !((48 <= u && u <= 57) || (97 <= u && u <= 102) || (65 <= u && u <= 70)) {
            return false;
        }
        i = i + 1;
    }
    true
}

/// Decodes hexadecimal text into a byte buffer.
///
/// The text must be decodable; `is_hex` tests that.
pub fn decode_vec(data: String) -> (r: Vec<u8>)
    requires
        is_hex_seq(data@),
    ensures
        r@ == hex_bytes_of(data@),
{
    let s = data.as_str();
    let n = s.unicode_len();
    let mut out: Vec<u8> = Vec::new();
    let mut i: usize = 0;
    while i + 1 < n
        invariant
            is_hex_seq(s@),
            n == s@.len(),
            i % 2 == 0,
            i <= n,
            out@ == hex_bytes_of(s@.take(i as int)),
        decreases n - i,
    {
        let a = s.get_char(i) as u32;
        let b = s.get_char(i + 1) as u32;
        proof {
            assert(is_hex_digit(s@[i as int]));
            assert(is_hex_digit(s@[i as int + 1]));
        }
        let hi = if a <= 57 {
            (a - 48) as u8
        } else if a >= 97 {
            (a - 87) as u8
        } else {
            (a - 55) as u8
        };
        let lo = if b <= 57 {
            (b - 48) as u8
        } else if b >= 97 {
            (b - 87) as u8
        } else {
            (b - 55) as u8
        };
        out.push(hi * 16 + lo);
        proof {
            assert(out@ =~= hex_bytes_of(s@.take(i + 2)));
        }
        i = i + 2;
    }
    proof {
        assert(i == n);
        assert(s@.take(n as int) =~= s@);
    }
    out
}

/// Decodes hexadecimal text into a fixed-size buffer prepared by the caller.
///
/// The text must be decodable and must hold exactly two digits per byte of
/// the buffer.
pub fn decode(data: String, out: &mut Vec<u8>)
    requires
        is_hex_seq(data@),
        data@.len() == old(out)@.len() * 2,
    ensures
        final(out)@ == hex_bytes_of(data@),
{
    let r = decode_vec(data);
    *out = r;
}

} // verus!
