//! The text of numbers as the listing shows them: decimal, hexadecimal and
//! binary, each stated as a sequence of ASCII bytes and written by verified
//! code.
use vstd::prelude::*;
use vstd::string::StringSliceAdditionalSpecFns;

verus! {

/// The bytes of a text made of ASCII characters only: one byte per character.
pub open spec fn ascii(text: Seq<char>) -> Seq<u8> {
    Seq::new(text.len(), |i: int| text[i] as u8)
}

/// An ASCII string is encoded as `ascii` of its characters.
pub proof fn lemma_ascii_bytes(s: &str)
    requires
        s.is_ascii(),
    ensures
        s.spec_bytes() == ascii(s@),
{
    vstd::string::is_ascii_spec_bytes(s);
    assert(s.spec_bytes() =~= ascii(s@));
}

/// The digit character of a value below ten.
pub open spec fn digit(d: int) -> u8 {
    (48 + d) as u8
}

/// The lowercase hexadecimal digit character of a value below sixteen.
pub open spec fn hex_digit(d: int) -> u8 {
    if d < 10 {
        (48 + d) as u8
    } else {
        (87 + d) as u8
    }
}

/// The decimal digits of `n`, most significant first, without leading zeros.
pub open spec fn decimal(n: nat) -> Seq<u8>
    decreases n,
{
    if n < 10 {
        seq![digit(n as int)]
    } else {
        decimal(n / 10).push(digit((n % 10) as int))
    }
}

/// A signed number in decimal: a minus sign before a negative one only.
pub open spec fn signed_decimal(v: int) -> Seq<u8> {
    if v < 0 {
        seq![45u8] + decimal((-v) as nat)
    } else {
        decimal(v as nat)
    }
}

/// A signed number in decimal with its sign always written: `+` or `-`.
pub open spec fn sign_and_decimal(v: int) -> Seq<u8> {
    if v < 0 {
        seq![45u8] + decimal((-v) as nat)
    } else {
        seq![43u8] + decimal(v as nat)
    }
}

/// The hexadecimal digits of `n`, most significant first, in lowercase and
/// without leading zeros.
pub open spec fn hexadecimal(n: nat) -> Seq<u8>
    decreases n,
{
    if n < 16 {
        seq![hex_digit(n as int)]
    } else {
        hexadecimal(n / 16).push(hex_digit((n % 16) as int))
    }
}

/// `count` zero characters.
pub open spec fn zeros(count: nat) -> Seq<u8> {
    Seq::new(count, |i: int| 48u8)
}

/// `n` in hexadecimal behind `0x`, padded with zeros to at least `digits`
/// digits.
pub open spec fn hex_literal(n: nat, digits: nat) -> Seq<u8> {
    let body = hexadecimal(n);
    let padding = if body.len() < digits {
        (digits - body.len()) as nat
    } else {
        0
    };
    seq![48u8, 120u8] + zeros(padding) + body
}

/// The eight bits of a byte, most significant first, as `0` and `1`.
pub open spec fn binary_octet(b: u8) -> Seq<u8> {
    let v = b as int;
    seq![
        digit((v / 128) % 2),
        digit((v / 64) % 2),
        digit((v / 32) % 2),
        digit((v / 16) % 2),
        digit((v / 8) % 2),
        digit((v / 4) % 2),
        digit((v / 2) % 2),
        digit(v % 2),
    ]
}

/// Appends the decimal digits of `n`.
pub fn push_decimal(out: &mut Vec<u8>, n: usize)
    ensures
        final(out)@ == old(out)@ + decimal(n as nat),
    decreases n,
{
    if n >= 10 {
        push_decimal(out, n / 10);
    }
    let d: u8 = (n % 10) as u8;
    out.push(48 + d);
    assert(out@ =~= old(out)@ + decimal(n as nat));
}

/// The absolute value of `v`.
pub fn magnitude(v: i16) -> (m: u16)
    ensures
        m == (if v < 0 {
            -(v as int)
        } else {
            v as int
        }),
{
    if v < 0 {
        (-(v as i32)) as u16
    } else {
        v as u16
    }
}

/// Appends `v` in decimal, with a minus sign if it is negative.
pub fn push_signed_decimal(out: &mut Vec<u8>, v: i16)
    ensures
        final(out)@ == old(out)@ + signed_decimal(v as int),
{
    if v < 0 {
        out.push(45);
        push_decimal(out, magnitude(v) as usize);
        assert(out@ =~= old(out)@ + signed_decimal(v as int));
    } else {
        push_decimal(out, v as usize);
    }
}

/// Appends `v` in decimal behind its sign, `+` or `-`.
pub fn push_sign_and_decimal(out: &mut Vec<u8>, v: i16)
    ensures
        final(out)@ == old(out)@ + sign_and_decimal(v as int),
{
    if v < 0 {
        out.push(45);
    } else {
        out.push(43);
    }
    push_decimal(out, magnitude(v) as usize);
    assert(out@ =~= old(out)@ + sign_and_decimal(v as int));
}

/// Appends the hexadecimal digits of `n`.
fn push_hexadecimal(out: &mut Vec<u8>, n: u16)
    ensures
        final(out)@ == old(out)@ + hexadecimal(n as nat),
    decreases n,
{
    if n >= 16 {
        push_hexadecimal(out, n / 16);
    }
    let d: u8 = (n % 16) as u8;
    if d < 10 {
        out.push(48 + d);
    } else {
        out.push(87 + d);
    }
    assert(out@ =~= old(out)@ + hexadecimal(n as nat));
}

/// The number of hexadecimal digits of `n`.
fn hexadecimal_len(n: u16) -> (len: usize)
    ensures
        len == hexadecimal(n as nat).len(),
        1 <= len <= 4,
{
    reveal_with_fuel(hexadecimal, 5);
    if n < 0x10 {
        1
    } else if n < 0x100 {
        2
    } else if n < 0x1000 {
        3
    } else {
        4
    }
}

/// Appends `n` as a hexadecimal literal of at least `digits` digits.
pub fn push_hex_literal(out: &mut Vec<u8>, n: u16, digits: usize)
    ensures
        final(out)@ == old(out)@ + hex_literal(n as nat, digits as nat),
{
    out.push(48);
    out.push(120);
    let len = hexadecimal_len(n);
    let mut padding: usize = 0;
    while padding + len < digits
        invariant
            out@ == old(out)@ + seq![48u8, 120u8] + zeros(padding as nat),
            padding + len <= digits || padding == 0,
        decreases digits - padding,
    {
        out.push(48);
        padding = padding + 1;
        assert(out@ =~= old(out)@ + seq![48u8, 120u8] + zeros(padding as nat));
    }
    push_hexadecimal(out, n);
    assert(out@ =~= old(out)@ + hex_literal(n as nat, digits as nat));
}

/// Appends the eight bits of `b`.
pub fn push_binary_octet(out: &mut Vec<u8>, b: u8)
    ensures
        final(out)@ == old(out)@ + binary_octet(b),
{
    out.push(48 + (b / 128) % 2);
    out.push(48 + (b / 64) % 2);
    out.push(48 + (b / 32) % 2);
    out.push(48 + (b / 16) % 2);
    out.push(48 + (b / 8) % 2);
    out.push(48 + (b / 4) % 2);
    out.push(48 + (b / 2) % 2);
    out.push(48 + b % 2);
    assert(out@ =~= old(out)@ + binary_octet(b));
}

} // verus!
