//! The mathematical meaning of padded Base64 (RFC 4648, section 4).
use vstd::prelude::*;

verus! {

/// The character that stands for the 6-bit value `v` in the RFC 4648 alphabet.
pub open spec fn symbol(v: int) -> char {
    if v < 26 {
        ((v + 65) as u32) as char
    } else if v < 52 {
        ((v + 71) as u32) as char
    } else if v < 62 {
        ((v - 4) as u32) as char
    } else if v == 62 {
        '+'
    } else {
        '/'
    }
}

/// The 6-bit value of an alphabet character (meaningful for alphabet characters only).
pub open spec fn symbol_value(c: char) -> int {
    let u = c as u32 as int;
    if 65 <= u <= 90 {
        u - 65
    } else if 97 <= u <= 122 {
        u - 71
    } else if 48 <= u <= 57 {
        u + 4
    } else if c == '+' {
        62
    } else {
        63
    }
}

pub proof fn lemma_symbol_value(v: int)
    requires
        0 <= v < 64,
    ensures
        symbol_value(symbol(v)) == v,
        symbol(v) != '=',
{
}

/// The four characters that encode the three bytes `b0`, `b1`, `b2`.
pub open spec fn group_of(b0: u8, b1: u8, b2: u8) -> Seq<char> {
    seq![
        symbol(b0 as int / 4),
        symbol((b0 as int % 4) * 16 + b1 as int / 16),
        symbol((b1 as int % 16) * 4 + b2 as int / 64),
        symbol(b2 as int % 64),
    ]
}

/// The padded Base64 encoding of `b`: each group of three bytes becomes four
/// characters, and a final group of one or two bytes is padded with `=`.
pub open spec fn base64_of(b: Seq<u8>) -> Seq<char>
    decreases b.len(),
{
    if b.len() == 0 {
        seq![]
    } else if b.len() == 1 {
        seq![symbol((b[0] as int) / 4), symbol(((b[0] as int) % 4) * 16), '=', '=']
    } else if b.len() == 2 {
        seq![symbol((b[0] as int) / 4), symbol(((b[0] as int) % 4) * 16 + (b[1] as int) / 16), symbol(((b[1] as int) % 16) * 4), '=']
    } else {
        group_of(b[0], b[1], b[2]) + base64_of(b.subrange(3, b.len() as int))
    }
}

/// The bytes that the four characters `s[0..4]` stand for, ignoring padding.
pub open spec fn first_group_bytes(s: Seq<char>) -> Seq<u8> {
    let v0 = symbol_value(s[0]);
    let v1 = symbol_value(s[1]);
    let v2 = symbol_value(s[2]);
    let v3 = symbol_value(s[3]);
    let b0 = (v0 * 4 + v1 / 16) as u8;
    let b1 = ((v1 % 16) * 16 + v2 / 4) as u8;
    let b2 = ((v2 % 4) * 64 + v3) as u8;
    if s[2] == '=' {
        seq![b0]
    } else if s[3] == '=' {
        seq![b0, b1]
    } else {
        seq![b0, b1, b2]
    }
}

/// The bytes that a padded Base64 string stands for, read group by group.
pub open spec fn bytes_of_base64(s: Seq<char>) -> Seq<u8>
    decreases s.len(),
{
    if s.len() < 4 {
        seq![]
    } else {
        first_group_bytes(s) + bytes_of_base64(s.subrange(4, s.len() as int))
    }
}

/// `s` is the padded Base64 encoding of some byte sequence.
pub open spec fn is_base64(s: Seq<char>) -> bool {
    exists|b: Seq<u8>| base64_of(b) == s
}

/// Reading an encoding back gives the bytes that were encoded.
pub proof fn lemma_bytes_of_base64_of(b: Seq<u8>)
    ensures
        bytes_of_base64(base64_of(b)) == b,
    decreases b.len(),
{
    let s = base64_of(b);
    if b.len() == 0 {
    } else if b.len() <= 2 {
        lemma_symbol_value((b[0] as int) / 4);
        lemma_symbol_value(((b[0] as int) % 4) * 16);
        if b.len() == 2 {
            lemma_symbol_value(((b[0] as int) % 4) * 16 + (b[1] as int) / 16);
            lemma_symbol_value(((b[1] as int) % 16) * 4);
            assert(s.subrange(4, 4) =~= Seq::<char>::empty());
            assert(first_group_bytes(s) =~= b);
        } else {
            assert(s.subrange(4, 4) =~= Seq::<char>::empty());
            assert(first_group_bytes(s) =~= b);
        }
        assert(s.len() == 4);
        assert(bytes_of_base64(s.subrange(4, 4)) =~= Seq::<u8>::empty());
        assert(bytes_of_base64(s) =~= b);
    } else {
        let rest = b.subrange(3, b.len() as int);
        lemma_symbol_value((b[0] as int) / 4);
        lemma_symbol_value(((b[0] as int) % 4) * 16 + (b[1] as int) / 16);
        lemma_symbol_value(((b[1] as int) % 16) * 4 + (b[2] as int) / 64);
        lemma_symbol_value((b[2] as int) % 64);
        lemma_bytes_of_base64_of(rest);
        let g = group_of(b[0], b[1], b[2]);
        assert(s.subrange(4, s.len() as int) =~= base64_of(rest));
        assert(first_group_bytes(s) =~= b.subrange(0, 3));
        assert(bytes_of_base64(s) =~= b);
    }
}

/// The encoding is one-to-one.
pub proof fn lemma_base64_of_injective(a: Seq<u8>, b: Seq<u8>)
    requires
        base64_of(a) == base64_of(b),
    ensures
        a == b,
{
    lemma_bytes_of_base64_of(a);
    lemma_bytes_of_base64_of(b);
}

/// An encoding has four characters for every started group of three bytes.
pub proof fn lemma_base64_len(b: Seq<u8>)
    ensures
        base64_of(b).len() == 4 * ((b.len() + 2) / 3),
        base64_of(b).len() % 4 == 0,
    decreases b.len(),
{
    if b.len() > 2 {
        lemma_base64_len(b.subrange(3, b.len() as int));
    }
}

} // verus!
