//! Byte encodings: UTF-8 of characters, Base64 with padding, and
//! percent-encoding for SMB URLs.

use vstd::prelude::*;
use crate::text::{chars_of, string_of};

verus! {

/// The UTF-8 bytes of a character.
pub open spec fn utf8_char(c: char) -> Seq<u8> {
    let u = c as int;
    if u < 0x80 {
        seq![u as u8]
    } else if u < 0x800 {
        seq![(0xC0 + u / 64) as u8, (0x80 + u % 64) as u8]
    } else if u < 0x10000 {
        seq![(0xE0 + u / 4096) as u8, (0x80 + (u / 64) % 64) as u8, (0x80 + u % 64) as u8]
    } else {
        seq![
            (0xF0 + u / 262144) as u8,
            (0x80 + (u / 4096) % 64) as u8,
            (0x80 + (u / 64) % 64) as u8,
            (0x80 + u % 64) as u8,
        ]
    }
}

/// The UTF-8 bytes of a string.
pub open spec fn utf8(s: Seq<char>) -> Seq<u8>
    decreases s.len(),
{
    if s.len() == 0 {
        Seq::empty()
    } else {
        utf8(s.drop_last()) + utf8_char(s.last())
    }
}

fn push_utf8_char(out: &mut Vec<u8>, c: char)
    ensures
        final(out)@ == old(out)@ + utf8_char(c),
{
    let u = c as u32;
    proof {
        assert(u as int == c as int);
        assert(c as int <= 0x10FFFF);
    }
    if u < 0x80 {
        out.push(u as u8);
    } else if u < 0x800 {
        out.push((0xC0 + u / 64) as u8);
        out.push((0x80 + u % 64) as u8);
    } else if u < 0x10000 {
        out.push((0xE0 + u / 4096) as u8);
        out.push((0x80 + (u / 64) % 64) as u8);
        out.push((0x80 + u % 64) as u8);
    } else {
        out.push((0xF0 + u / 262144) as u8);
        out.push((0x80 + (u / 4096) % 64) as u8);
        out.push((0x80 + (u / 64) % 64) as u8);
        out.push((0x80 + u % 64) as u8);
    }
}

/// The UTF-8 bytes of a string slice (`str::as_bytes`).
pub fn utf8_bytes(s: &str) -> (r: Vec<u8>)
    ensures
        r@ == utf8(s@),
{
    let cs = chars_of(s);
    let mut out: Vec<u8> = Vec::new();
    let mut i: usize = 0;
    while i < cs.len()
        invariant
            i <= cs.len(),
            out@ == utf8(cs@.take(i as int)),
        decreases cs.len() - i,
    {
        assert(cs@.take(i + 1).drop_last() == cs@.take(i as int));
        push_utf8_char(&mut out, cs[i]);
        i = i + 1;
    }
    assert(cs@.take(cs.len() as int) == cs@);
    out
}

/// The Base64 digit for a six-bit value (standard alphabet).
pub open spec fn b64_digit(v: int) -> char {
    if v < 26 {
        ((65 + v) as u32) as char
    } else if v < 52 {
        ((97 + v - 26) as u32) as char
    } else if v < 62 {
        ((48 + v - 52) as u32) as char
    } else if v == 62 {
        '+'
    } else {
        '/'
    }
}

/// Base64 of bytes, three at a time; a last group of one or two bytes
/// gives two or three digits, without `=` padding.
pub open spec fn base64(bs: Seq<u8>) -> Seq<char>
    decreases bs.len(),
{
    if bs.len() == 0 {
        Seq::empty()
    } else {
        let b0 = bs[0] as int;
        if bs.len() == 1 {
            seq![b64_digit(b0 / 4), b64_digit((b0 % 4) * 16)]
        } else {
            let b1 = bs[1] as int;
            if bs.len() == 2 {
                seq![b64_digit(b0 / 4), b64_digit((b0 % 4) * 16 + b1 / 16), b64_digit((b1 % 16) * 4)]
            } else {
                let b2 = bs[2] as int;
                seq![
                    b64_digit(b0 / 4),
                    b64_digit((b0 % 4) * 16 + b1 / 16),
                    b64_digit((b1 % 16) * 4 + b2 / 64),
                    b64_digit(b2 % 64),
                ] + base64(bs.skip(3))
            }
        }
    }
}

fn b64_digit_exec(v: u8) -> (c: char)
    requires
        v < 64,
    ensures
        c == b64_digit(v as int),
{
    if v < 26 {
        ((65 + v) as u8) as char
    } else if v < 52 {
        ((97 + v - 26) as u8) as char
    } else if v < 62 {
        ((48 + v - 52) as u8) as char
    } else if v == 62 {
        '+'
    } else {
        '/'
    }
}

/// Base64 (standard alphabet, no padding) of a string's UTF-8 bytes.
pub fn base64_encode(input: &str) -> (r: String)
    ensures
        r@ == base64(utf8(input@)),
{
    let bytes = utf8_bytes(input);
    let mut out: Vec<char> = Vec::new();
    let mut i: usize = 0;
    assert(bytes@.skip(0) == bytes@);
    assert(out@ + base64(bytes@) == base64(bytes@));
    while i < bytes.len()
        invariant
            i <= bytes.len(),
            out@ + base64(bytes@.skip(i as int)) == base64(bytes@),
        decreases bytes.len() - i,
    {
        let rest = bytes.len() - i;
        let ghost r = bytes@.skip(i as int);
        assert(r[0] == bytes@[i as int]);
        let b0 = bytes[i];
        if rest == 1 {
            out.push(b64_digit_exec(b0 / 4));
            out.push(b64_digit_exec((b0 % 4) * 16));
            i = i + 1;
            assert(bytes@.skip(i as int).len() == 0);
        } else if rest == 2 {
            let b1 = bytes[i + 1];
            assert(r[1] == b1);
            out.push(b64_digit_exec(b0 / 4));
            out.push(b64_digit_exec((b0 % 4) * 16 + b1 / 16));
            out.push(b64_digit_exec((b1 % 16) * 4));
            i = i + 2;
            assert(bytes@.skip(i as int).len() == 0);
        } else {
            let b1 = bytes[i + 1];
            let b2 = bytes[i + 2];
            assert(r[1] == b1 && r[2] == b2);
            assert(r.skip(3) == bytes@.skip(i + 3));
            out.push(b64_digit_exec(b0 / 4));
            out.push(b64_digit_exec((b0 % 4) * 16 + b1 / 16));
            out.push(b64_digit_exec((b1 % 16) * 4 + b2 / 64));
            out.push(b64_digit_exec(b2 % 64));
            i = i + 3;
        }
    }
    string_of(&out)
}

/// Base64 output is four characters for every three bytes, rounded up:
/// no padding characters are added.
pub proof fn law_base64_length(bs: Seq<u8>)
    ensures
        base64(bs).len() == (4 * bs.len() + 2) / 3,
    decreases bs.len(),
{
    if bs.len() >= 3 {
        law_base64_length(bs.skip(3));
    }
}

/// Characters an SMB URL carries as they are.
pub open spec fn unreserved(c: char) -> bool {
    ('a' <= c <= 'z') || ('A' <= c <= 'Z') || ('0' <= c <= '9') || c == '-' || c == '_' || c
        == '.' || c == '~'
}

pub open spec fn hex_upper(v: int) -> char {
    if v < 10 {
        ((48 + v) as u32) as char
    } else {
        ((55 + v) as u32) as char
    }
}

/// `%XX` for each byte, upper-case hexadecimal.
pub open spec fn percent_bytes(bs: Seq<u8>) -> Seq<char>
    decreases bs.len(),
{
    if bs.len() == 0 {
        Seq::empty()
    } else {
        percent_bytes(bs.drop_last()) + seq!['%', hex_upper(bs.last() as int / 16), hex_upper(bs.last() as int % 16)]
    }
}

/// Percent-encoding: unreserved characters stay, others become the
/// `%XX` escapes of their UTF-8 bytes.
pub open spec fn percent_encode(s: Seq<char>) -> Seq<char>
    decreases s.len(),
{
    if s.len() == 0 {
        Seq::empty()
    } else {
        percent_encode(s.drop_last()) + if unreserved(s.last()) {
            seq![s.last()]
        } else {
            percent_bytes(utf8_char(s.last()))
        }
    }
}

fn hex_upper_exec(v: u8) -> (c: char)
    requires
        v < 16,
    ensures
        c == hex_upper(v as int),
{
    if v < 10 {
        ((48 + v) as u8) as char
    } else {
        ((55 + v) as u8) as char
    }
}

/// Percent-encodes a string for an SMB URL's password.
pub fn url_encode(s: &str) -> (r: String)
    ensures
        r@ == percent_encode(s@),
{
    let cs = chars_of(s);
    let mut out: Vec<char> = Vec::new();
    let mut i: usize = 0;
    while i < cs.len()
        invariant
            i <= cs.len(),
            out@ == percent_encode(cs@.take(i as int)),
        decreases cs.len() - i,
    {
        assert(cs@.take(i + 1).drop_last() == cs@.take(i as int));
        let c = cs[i];
        if ('a' <= c && c <= 'z') || ('A' <= c && c <= 'Z') || ('0' <= c && c <= '9') || c == '-'
            || c == '_' || c == '.' || c == '~' {
            out.push(c);
        } else {
            let mut bs: Vec<u8> = Vec::new();
            push_utf8_char(&mut bs, c);
            assert(bs@ == utf8_char(c));
            let ghost start = out@;
            let mut j: usize = 0;
            while j < bs.len()
                invariant
                    j <= bs.len(),
                    out@ == start + percent_bytes(bs@.take(j as int)),
                decreases bs.len() - j,
            {
                assert(bs@.take(j + 1).drop_last() == bs@.take(j as int));
                let b = bs[j];
                out.push('%');
                out.push(hex_upper_exec(b / 16));
                out.push(hex_upper_exec(b % 16));
                j = j + 1;
            }
            assert(bs@.take(bs.len() as int) == bs@);
        }
        i = i + 1;
    }
    assert(cs@.take(cs.len() as int) == cs@);
    string_of(&out)
}


pub open spec fn hex_lower(v: int) -> char {
    if v < 10 {
        ((48 + v) as u32) as char
    } else {
        ((87 + v) as u32) as char
    }
}

/// Two lower-case hexadecimal digits per byte, as `hex::encode` writes.
pub open spec fn hex_text(bs: Seq<u8>) -> Seq<char>
    decreases bs.len(),
{
    if bs.len() == 0 {
        Seq::empty()
    } else {
        hex_text(bs.drop_last()) + seq![hex_lower(bs.last() as int / 16), hex_lower(bs.last() as int % 16)]
    }
}

fn hex_lower_exec(v: u8) -> (c: char)
    requires
        v < 16,
    ensures
        c == hex_lower(v as int),
{
    if v < 10 {
        ((48 + v) as u8) as char
    } else {
        ((87 + v) as u8) as char
    }
}

/// Appends the lower-case hexadecimal text of `bytes`.
pub fn push_hex(buf: &mut Vec<char>, bytes: &Vec<u8>)
    ensures
        final(buf)@ == old(buf)@ + hex_text(bytes@),
{
    let ghost start = buf@;
    let mut i: usize = 0;
    while i < bytes.len()
        invariant
            i <= bytes.len(),
            buf@ == start + hex_text(bytes@.take(i as int)),
        decreases bytes.len() - i,
    {
        assert(bytes@.take(i + 1).drop_last() == bytes@.take(i as int));
        let b = bytes[i];
        buf.push(hex_lower_exec(b / 16));
        buf.push(hex_lower_exec(b % 16));
        i = i + 1;
        assert(buf@ == start + hex_text(bytes@.take(i as int)));
    }
    assert(bytes@.take(bytes.len() as int) == bytes@);
}

} // verus!
