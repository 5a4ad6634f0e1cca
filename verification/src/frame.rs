//! The ADB wire framing: a request is its payload's length as (at least)
//! four lowercase hex digits followed by the payload; replies carry lengths
//! in the same hex notation.
use vstd::prelude::*;
use vstd::utf8::*;
use crate::text::{chars_of, decode_lossy, trim, trim_chars, utf8_lossy};

verus! {

/// Why a hex number could not be read (the kinds of `ParseIntError` that
/// `usize::from_str_radix` reports).
#[derive(Clone, Copy, Debug, PartialEq, Eq, Structural)]
pub enum HexError {
    /// The text was empty.
    Empty,
    /// A character is not a hex digit (a lone sign counts as one).
    InvalidDigit,
    /// The value does not fit in `usize`.
    Overflow,
}

/// The value of a hex digit character, if it is one.
pub open spec fn hex_digit(c: char) -> Option<nat> {
    let u = c as u32;
    if 0x30 <= u <= 0x39 {
        Some((u - 0x30) as nat)
    } else if 0x61 <= u <= 0x66 {
        Some((u - 0x61 + 10) as nat)
    } else if 0x41 <= u <= 0x46 {
        Some((u - 0x41 + 10) as nat)
    } else {
        None
    }
}

/// Reads hex digits left to right onto `acc`; the first problem met decides the error.
pub open spec fn digits_from(s: Seq<char>, acc: nat) -> Result<nat, HexError>
    decreases s.len(),
{
    if s.len() == 0 {
        Ok(acc)
    } else {
        match hex_digit(s[0]) {
            None => Err(HexError::InvalidDigit),
            Some(d) => {
                let a = acc * 16 + d;
                if a > usize::MAX {
                    Err(HexError::Overflow)
                } else {
                    digits_from(s.drop_first(), a)
                }
            },
        }
    }
}

/// What `usize::from_str_radix(s, 16)` gives: an optional leading `'+'`,
/// then one or more hex digits.
pub open spec fn radix16(s: Seq<char>) -> Result<nat, HexError> {
    if s.len() == 0 {
        Err(HexError::Empty)
    } else if s.len() == 1 && (s[0] == '+' || s[0] == '-') {
        Err(HexError::InvalidDigit)
    } else if s[0] == '+' {
        digits_from(s.drop_first(), 0)
    } else {
        digits_from(s, 0)
    }
}

/// The length a reply announces in its four-byte length field: the field
/// decoded as text, trimmed, read as hex.
pub open spec fn length_field_value(field: Seq<u8>) -> Result<nat, HexError> {
    radix16(trim(utf8_lossy(field)))
}

/// The length a reply's length field announces. Where the field is ASCII,
/// as every well-formed field is, its text is its bytes read as characters;
/// this agrees with `length_field_value` (see `parse_length_field`).
pub open spec fn reply_length(field: Seq<u8>) -> Result<nat, HexError> {
    if all_ascii(field) {
        radix16(trim(ascii_text(field)))
    } else {
        length_field_value(field)
    }
}

/// The characters of ASCII bytes.
pub open spec fn ascii_text(b: Seq<u8>) -> Seq<char> {
    Seq::new(b.len(), |i: int| b[i] as char)
}

/// Whether every byte is ASCII.
pub open spec fn all_ascii(b: Seq<u8>) -> bool {
    forall|i: int| 0 <= i < b.len() ==> b[i] < 0x80
}

/// The lowercase hex digit byte for `d < 16`.
pub open spec fn hex_char(d: nat) -> u8 {
    if d < 10 {
        (0x30 + d) as u8
    } else {
        (0x61 + d - 10) as u8
    }
}

/// The shortest lowercase hex notation of `n`.
pub open spec fn hex_bytes(n: nat) -> Seq<u8>
    decreases n,
{
    if n < 16 {
        seq![hex_char(n)]
    } else {
        hex_bytes(n / 16).push(hex_char(n % 16))
    }
}

/// `n` in hex, zero-padded to at least four digits (`format!("{:04x}", n)`).
pub open spec fn length_prefix(n: nat) -> Seq<u8> {
    let h = hex_bytes(n);
    if h.len() < 4 {
        Seq::new((4 - h.len()) as nat, |i: int| 0x30u8) + h
    } else {
        h
    }
}

/// A request on the wire: its length prefix, then the payload.
pub open spec fn framed(payload: Seq<u8>) -> Seq<u8> {
    length_prefix(payload.len()) + payload
}

fn push_hex(n: usize, out: &mut Vec<u8>)
    ensures
        final(out)@ == old(out)@ + hex_bytes(n as nat),
    decreases n,
{
    if n >= 16 {
        push_hex(n / 16, out);
    }
    let d = n % 16;
    let c: u8 = if d < 10 {
        0x30 + d as u8
    } else {
        0x61 + (d - 10) as u8
    };
    out.push(c);
    assert(c == hex_char((n % 16) as nat));
    if n < 16 {
        assert(final(out)@ =~= old(out)@ + hex_bytes(n as nat));
    } else {
        assert(final(out)@ =~= old(out)@ + hex_bytes(n as nat));
    }
}

/// The length prefix of a payload of `n` bytes.
pub fn encode_length(n: usize) -> (out: Vec<u8>)
    ensures
        out@ == length_prefix(n as nat),
{
    let mut digits: Vec<u8> = Vec::new();
    push_hex(n, &mut digits);
    assert(digits@ =~= hex_bytes(n as nat));
    let mut out: Vec<u8> = Vec::new();
    let ghost h = hex_bytes(n as nat);
    if digits.len() < 4 {
        let pad = 4 - digits.len();
        let mut k: usize = 0;
        while k < pad
            invariant
                k <= pad,
                out@ == Seq::new(k as nat, |i: int| 0x30u8),
            decreases pad - k,
        {
            out.push(0x30u8);
            assert(out@ =~= Seq::new((k + 1) as nat, |i: int| 0x30u8));
            k = k + 1;
        }
    }
    let ghost start = out@;
    let mut j: usize = 0;
    while j < digits.len()
        invariant
            j <= digits@.len(),
            digits@ == h,
            out@ == start + digits@.take(j as int),
        decreases digits@.len() - j,
    {
        out.push(digits[j]);
        assert(out@ =~= start + digits@.take(j + 1));
        j = j + 1;
    }
    assert(digits@.take(digits@.len() as int) =~= digits@);
    out
}

/// Frames `command` as an ADB request: `format!("{:04x}{}", command.len(), command)` as bytes.
pub fn encode_request(command: &str) -> (out: Vec<u8>)
    ensures
        out@ == framed(encode_utf8(command@)),
{
    let bytes = command.as_bytes();
    let mut out = encode_length(bytes.len());
    let ghost start = out@;
    let mut j: usize = 0;
    while j < bytes.len()
        invariant
            j <= bytes@.len(),
            bytes@ == encode_utf8(command@),
            out@ == start + bytes@.take(j as int),
        decreases bytes@.len() - j,
    {
        out.push(bytes[j]);
        assert(out@ =~= start + bytes@.take(j + 1));
        j = j + 1;
    }
    assert(bytes@.take(bytes@.len() as int) =~= bytes@);
    out
}

fn digit_value(c: char) -> (d: Option<usize>)
    ensures
        match hex_digit(c) {
            Some(v) => d == Some(v as usize),
            None => d is None,
        },
{
    let u = c as u32;
    if 0x30 <= u && u <= 0x39 {
        Some((u - 0x30) as usize)
    } else if 0x61 <= u && u <= 0x66 {
        Some((u - 0x61 + 10) as usize)
    } else if 0x41 <= u && u <= 0x46 {
        Some((u - 0x41 + 10) as usize)
    } else {
        None
    }
}

/// Reads `s` as a hex number the way `usize::from_str_radix(s, 16)` does.
pub fn parse_hex(s: &[char]) -> (r: Result<usize, HexError>)
    ensures
        match r {
            Ok(x) => radix16(s@) == Ok::<nat, HexError>(x as nat),
            Err(e) => radix16(s@) == Err::<nat, HexError>(e),
        },
{
    let n = s.len();
    if n == 0 {
        return Err(HexError::Empty);
    }
    if n == 1 && (s[0] == '+' || s[0] == '-') {
        return Err(HexError::InvalidDigit);
    }
    let mut i: usize = if s[0] == '+' {
        1
    } else {
        0
    };
    let ghost body = s@.skip(i as int);
    assert(radix16(s@) == digits_from(body, 0)) by {
        if s@[0] == '+' {
            assert(body =~= s@.drop_first());
        } else {
            assert(body =~= s@);
        }
    }
    let mut acc: usize = 0;
    while i < n
        invariant
            n == s@.len(),
            i <= n,
            radix16(s@) == digits_from(s@.skip(i as int), acc as nat),
        decreases n - i,
    {
        assert(s@.skip(i as int).drop_first() =~= s@.skip(i + 1));
        match digit_value(s[i]) {
            None => {
                return Err(HexError::InvalidDigit);
            },
            Some(d) => {
                match acc.checked_mul(16) {
                    None => {
                        return Err(HexError::Overflow);
                    },
                    Some(m) => match m.checked_add(d) {
                        None => {
                            return Err(HexError::Overflow);
                        },
                        Some(a) => {
                            acc = a;
                        },
                    },
                }
            },
        }
        i = i + 1;
    }
    assert(s@.skip(n as int).len() == 0);
    Ok(acc)
}

/// Reads a reply's length field: decodes it as text, trims it, reads it as hex.
pub fn parse_length_field(field: &[u8]) -> (r: Result<usize, HexError>)
    ensures
        match r {
            Ok(x) => length_field_value(field@) == Ok::<nat, HexError>(x as nat),
            Err(e) => length_field_value(field@) == Err::<nat, HexError>(e),
        },
        length_field_value(field@) == reply_length(field@),
        all_ascii(field@) ==> utf8_lossy(field@) == ascii_text(field@),
{
    let text = decode_lossy(field);
    proof {
        if all_ascii(field@) {
            lemma_ascii_decodes(field@);
        }
    }
    let cs = chars_of(text.as_str());
    let t = trim_chars(cs.as_slice());
    parse_hex(t.as_slice())
}

/// ASCII bytes are well-formed UTF-8 and decode to their own characters.
pub proof fn lemma_ascii_decodes(b: Seq<u8>)
    requires
        all_ascii(b),
    ensures
        valid_utf8(b),
        decode_utf8(b) == ascii_text(b),
{
    let cs = ascii_text(b);
    assert(is_ascii_chars(cs)) by {
        assert forall|i| 0 <= i < cs.len() implies '\0' <= #[trigger] cs[i] <= '\u{7f}' by {
            assert(b[i] < 0x80);
        }
    }
    is_ascii_chars_encode_utf8(cs);
    assert(encode_utf8(cs) =~= b);
    encode_utf8_valid_utf8(cs);
    encode_utf8_decode_utf8(cs);
}

} // verus!
