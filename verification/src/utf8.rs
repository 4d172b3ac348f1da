//! A forgiving UTF-8 decoder for byte streams that may be damaged.

use vstd::prelude::*;

verus! {

/// `char::from_u32` of the standard library: the character with the given
/// code point, `None` for a surrogate or a number past the last code point.
pub assume_specification[ char::from_u32 ](i: u32) -> (c: Option<char>)
    ensures
        c is Some == is_scalar(i as int),
        c is Some ==> c->0 as u32 == i,
;

/// What a damaged sequence decodes to.
pub const REPLACEMENT: u32 = 0xFFFD;

/// Unicode scalar values.
pub open spec fn is_scalar(cp: int) -> bool {
    0 <= cp < 0xD800 || 0xE000 <= cp <= 0x10FFFF
}

/// Length of the sequence that the lead byte `b` (at least 0xC0) announces;
/// 0 for a byte that starts none.
pub open spec fn lead_len(b: u8) -> int {
    if b < 0xC0 {
        0
    } else if b < 0xE0 {
        2
    } else if b < 0xF0 {
        3
    } else if b < 0xF8 {
        4
    } else {
        0
    }
}

/// The code point bits of a lead byte.
pub open spec fn lead_bits(b: u8) -> int {
    if b < 0xE0 {
        b - 0xC0
    } else if b < 0xF0 {
        b - 0xE0
    } else {
        b - 0xF0
    }
}

pub open spec fn is_continuation(b: u8) -> bool {
    0x80 <= b < 0xC0
}

/// The code point of the lead byte at `pos` and its first `n - 1`
/// continuation bytes.
pub open spec fn code_point(buf: Seq<u8>, pos: int, n: int) -> int
    decreases n,
{
    if n <= 1 {
        lead_bits(buf[pos])
    } else {
        code_point(buf, pos, n - 1) * 64 + (buf[pos + n - 1] - 0x80)
    }
}

/// How many bytes from `pos + 1` up to `pos + n - 1` are continuation bytes
/// before the first that is not, plus one.
pub open spec fn good_prefix(buf: Seq<u8>, pos: int, n: int, k: int) -> int
    decreases n - k,
{
    if k >= n || !is_continuation(buf[pos + k]) {
        k
    } else {
        good_prefix(buf, pos, n, k + 1)
    }
}

/// The code point at `pos` and how many bytes it takes.
///
/// A stray byte is the replacement character, one byte long. So is a
/// sequence that the buffer cuts off, with the rest of the buffer, and one
/// that breaks off early, up to where it does.
pub open spec fn utf8_at(buf: Seq<u8>, pos: int) -> (int, int) {
    let b = buf[pos];
    let n = lead_len(b);
    if b < 0x80 {
        (b as int, 1)
    } else if n == 0 {
        (REPLACEMENT as int, 1)
    } else if pos + n > buf.len() {
        (REPLACEMENT as int, buf.len() - pos)
    } else {
        let good = good_prefix(buf, pos, n, 1);
        if good < n {
            (REPLACEMENT as int, good)
        } else if is_scalar(code_point(buf, pos, n)) {
            (code_point(buf, pos, n), n)
        } else {
            (REPLACEMENT as int, n)
        }
    }
}

pub proof fn lemma_good_prefix(buf: Seq<u8>, pos: int, n: int, k: int)
    requires
        k <= n,
    ensures
        k <= good_prefix(buf, pos, n, k) <= n,
        forall|j: int|
            k <= j < good_prefix(buf, pos, n, k) ==> is_continuation(#[trigger] buf[pos + j]),
    decreases n - k,
{
    if k < n && is_continuation(buf[pos + k]) {
        lemma_good_prefix(buf, pos, n, k + 1);
    }
}

/// A character takes at least one byte and stays within the buffer.
pub proof fn lemma_utf8_len(buf: Seq<u8>, pos: int)
    requires
        0 <= pos < buf.len(),
    ensures
        1 <= utf8_at(buf, pos).1 <= buf.len() - pos,
        is_scalar(utf8_at(buf, pos).0),
{
    let n = lead_len(buf[pos]);
    if n > 0 {
        lemma_good_prefix(buf, pos, n, 1);
    }
}

fn scalar(cp: u32) -> (c: char)
    ensures
        c as u32 == (if is_scalar(cp as int) {
            cp
        } else {
            REPLACEMENT
        }),
{
    match char::from_u32(cp) {
        Some(c) => c,
        None => '\u{FFFD}',
    }
}

/// Decode the character at `pos`: it and its length in bytes.
pub fn decode_utf8(buf: &[u8], pos: usize) -> (r: (char, usize))
    requires
        pos < buf@.len(),
    ensures
        (r.0 as int, r.1 as int) == utf8_at(buf@, pos as int),
        1 <= r.1 <= buf@.len() - pos,
{
    let b0: u8 = buf[pos];
    proof {
        lemma_utf8_len(buf@, pos as int);
    }
    if b0 < 0x80 {
        return (b0 as char, 1);
    }
    let (bits, expected): (u8, usize) = if b0 < 0xC0 {
        return ('\u{FFFD}', 1);
    } else if b0 < 0xE0 {
        (b0 - 0xC0, 2)
    } else if b0 < 0xF0 {
        (b0 - 0xE0, 3)
    } else if b0 < 0xF8 {
        (b0 - 0xF0, 4)
    } else {
        return ('\u{FFFD}', 1);
    };
    let left: usize = buf.len() - pos;
    if expected > left {
        return ('\u{FFFD}', left);
    }
    let mut cp: u32 = bits as u32;
    let mut i: usize = 1;
    while i < expected
        invariant
            1 <= i <= expected <= 4,
            b0 == buf@[pos as int],
            b0 >= 0xC0,
            expected == lead_len(b0),
            pos + expected <= buf@.len() <= usize::MAX,
            cp == code_point(buf@, pos as int, i as int),
            i == 1 ==> cp < 0x20,
            i == 2 ==> cp < 0x800,
            i == 3 ==> cp < 0x20000,
            i == 4 ==> cp < 0x800000,
            good_prefix(buf@, pos as int, expected as int, 1) == good_prefix(
                buf@,
                pos as int,
                expected as int,
                i as int,
            ),
        decreases expected - i,
    {
        let cont: u8 = buf[pos + i];
        if cont < 0x80 || cont >= 0xC0 {
            return ('\u{FFFD}', i);
        }
        cp = cp * 64 + (cont - 0x80) as u32;
        i = i + 1;
    }
    (scalar(cp), expected)
}

} // verus!
