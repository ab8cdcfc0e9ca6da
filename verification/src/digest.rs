//! Byte encodings and digests of text: UTF-8, the FNV-1a checksum and the
//! multiplicative hash used to name media files.

use vstd::prelude::*;
use crate::text::{hex_char, hex_digits};

verus! {

/// The UTF-8 encoding of one character.
pub open spec fn utf8_char(c: char) -> Seq<u8> {
    let u = c as u32 as nat;
    if u < 0x80 {
        seq![u as u8]
    } else if u < 0x800 {
        seq![(0xc0 + u / 64) as u8, (0x80 + u % 64) as u8]
    } else if u < 0x10000 {
        seq![(0xe0 + u / 4096) as u8, (0x80 + (u / 64) % 64) as u8, (0x80 + u % 64) as u8]
    } else {
        seq![
            (0xf0 + u / 262144) as u8,
            (0x80 + (u / 4096) % 64) as u8,
            (0x80 + (u / 64) % 64) as u8,
            (0x80 + u % 64) as u8,
        ]
    }
}

/// The UTF-8 encoding of a string (`str::as_bytes`).
pub open spec fn utf8(s: Seq<char>) -> Seq<u8>
    decreases s.len(),
{
    if s.len() == 0 {
        seq![]
    } else {
        utf8(s.drop_last()) + utf8_char(s.last())
    }
}

/// Appends the UTF-8 encoding of `c`.
pub fn push_utf8(v: &mut Vec<u8>, c: char)
    ensures
        final(v)@ == old(v)@ + utf8_char(c),
{
    let u = c as u32;
    proof {
        assert(u <= 0x10ffff);
    }
    if u < 0x80 {
        v.push(u as u8);
    } else if u < 0x800 {
        v.push((0xc0 + u / 64) as u8);
        v.push((0x80 + u % 64) as u8);
    } else if u < 0x10000 {
        v.push((0xe0 + u / 4096) as u8);
        v.push((0x80 + (u / 64) % 64) as u8);
        v.push((0x80 + u % 64) as u8);
    } else {
        v.push((0xf0 + u / 262144) as u8);
        v.push((0x80 + (u / 4096) % 64) as u8);
        v.push((0x80 + (u / 64) % 64) as u8);
        v.push((0x80 + u % 64) as u8);
    }
    assert(final(v)@ =~= old(v)@ + utf8_char(c));
}

/// The UTF-8 bytes of `s`.
pub fn utf8_bytes(s: &str) -> (r: Vec<u8>)
    ensures
        r@ == utf8(s@),
{
    let cs = crate::text::chars_of(s);
    let mut r: Vec<u8> = Vec::new();
    let mut i: usize = 0;
    while i < cs.len()
        invariant
            i <= cs@.len(),
            cs@ == s@,
            r@ == utf8(cs@.take(i as int)),
        decreases cs@.len() - i,
    {
        assert(cs@.take(i as int + 1).drop_last() == cs@.take(i as int));
        push_utf8(&mut r, cs[i]);
        i += 1;
    }
    assert(cs@.take(cs@.len() as int) == cs@);
    r
}

/// The FNV-1a offset basis.
pub open spec fn fnv_offset() -> u64 {
    0xcbf29ce484222325
}

/// The FNV-1a prime.
pub open spec fn fnv_prime() -> u64 {
    0x100000001b3
}

/// The 64-bit FNV-1a hash of a byte sequence.
pub open spec fn fnv1a(b: Seq<u8>) -> u64
    decreases b.len(),
{
    if b.len() == 0 {
        fnv_offset()
    } else {
        vstd::wrapping::u64_specs::wrapping_mul(fnv1a(b.drop_last()) ^ (b.last() as u64), fnv_prime())
    }
}

/// The 64-bit FNV-1a hash of the UTF-8 bytes of `s`, as 16 lower-case
/// hexadecimal digits.
pub open spec fn fnv_checksum(s: Seq<char>) -> Seq<char> {
    hex_digits(fnv1a(utf8(s)) as nat, 16)
}

/// The FNV-1a checksum of a text.
pub fn checksum(content: &str) -> (r: String)
    ensures
        r@ == fnv_checksum(content@),
{
    let bytes = utf8_bytes(content);
    let mut hash: u64 = 0xcbf29ce484222325;
    let mut i: usize = 0;
    while i < bytes.len()
        invariant
            i <= bytes@.len(),
            hash == fnv1a(bytes@.take(i as int)),
        decreases bytes@.len() - i,
    {
        assert(bytes@.take(i as int + 1).drop_last() == bytes@.take(i as int));
        hash = hash ^ (bytes[i] as u64);
        hash = hash.wrapping_mul(0x100000001b3);
        i += 1;
    }
    assert(bytes@.take(bytes@.len() as int) == bytes@);
    let mut v: Vec<char> = Vec::new();
    crate::text::push_hex(&mut v, hash as u128, 16);
    assert(v@ =~= hex_digits(hash as nat, 16));
    crate::text::string_from_chars(&v)
}

/// The hash `h * 31 + byte`, wrapping, over the bytes of `b`, from 0.
pub open spec fn hash31(b: Seq<u8>) -> u64
    decreases b.len(),
{
    if b.len() == 0 {
        0
    } else {
        vstd::wrapping::u64_specs::wrapping_add(
            vstd::wrapping::u64_specs::wrapping_mul(hash31(b.drop_last()), 31),
            b.last() as u64,
        )
    }
}

/// The hexadecimal digits of `n`, with leading zeros up to `width` digits
/// (`format!("{:0width$x}", n)`).
pub open spec fn hex_padded(n: nat, width: nat) -> Seq<char>
    decreases n + width,
{
    if n < 16 && width <= 1 {
        seq![hex_char(n)]
    } else {
        hex_padded(n / 16, if width > 0 { (width - 1) as nat } else { 0 }).push(hex_char(n % 16))
    }
}

/// Appends the hexadecimal digits of `n`, padded with zeros to `width`.
pub fn push_hex_padded(v: &mut Vec<char>, n: u64, width: u32)
    ensures
        final(v)@ == old(v)@ + hex_padded(n as nat, width as nat),
    decreases n + width,
{
    if n < 16 && width <= 1 {
        v.push(crate::text::hex_digit(n as u8));
        assert(final(v)@ =~= old(v)@ + hex_padded(n as nat, width as nat));
    } else {
        let w = if width > 0 {
            width - 1
        } else {
            0
        };
        push_hex_padded(v, n / 16, w);
        v.push(crate::text::hex_digit((n % 16) as u8));
        assert(final(v)@ =~= old(v)@ + hex_padded(n as nat, width as nat));
    }
}

/// The multiplicative hash of the UTF-8 bytes of `s`, in at least eight
/// hexadecimal digits.
pub open spec fn short_hash(s: Seq<char>) -> Seq<char> {
    hex_padded(hash31(utf8(s)) as nat, 8)
}

/// The multiplicative hash of a text.
pub fn simple_hash(input: &str) -> (r: String)
    ensures
        r@ == short_hash(input@),
{
    let bytes = utf8_bytes(input);
    let mut hash: u64 = 0;
    let mut i: usize = 0;
    while i < bytes.len()
        invariant
            i <= bytes@.len(),
            hash == hash31(bytes@.take(i as int)),
        decreases bytes@.len() - i,
    {
        assert(bytes@.take(i as int + 1).drop_last() == bytes@.take(i as int));
        hash = hash.wrapping_mul(31).wrapping_add(bytes[i] as u64);
        i += 1;
    }
    assert(bytes@.take(bytes@.len() as int) == bytes@);
    let mut v: Vec<char> = Vec::new();
    push_hex_padded(&mut v, hash, 8);
    assert(v@ =~= hex_padded(hash as nat, 8));
    crate::text::string_from_chars(&v)
}

/// The number of UTF-8 bytes of a character.
pub fn utf8_len(c: char) -> (r: usize)
    ensures
        r == utf8_char(c).len(),
        r <= 4,
{
    let u = c as u32;
    if u < 0x80 {
        1
    } else if u < 0x800 {
        2
    } else if u < 0x10000 {
        3
    } else {
        4
    }
}

} // verus!
