//! Fitting text into a line: where to cut it, and the ellipsis behind it.

use crate::utf8;
use vstd::prelude::*;

verus! {

/// Most bytes of a text on the home card that has an ellipsis.
pub const CARD_TEXT_CAP: usize = 64;

/// A character may start at `n`: it is the end of the text, or no continuation
/// byte stands there.
pub open spec fn boundary(text: Seq<u8>, n: int) -> bool {
    n == text.len() || !(0x80 <= text[n] < 0xC0)
}

/// The last character boundary at or before `n`.
pub open spec fn boundary_before(text: Seq<u8>, n: int) -> int
    decreases n,
{
    if n <= 0 {
        0
    } else if boundary(text, n) {
        n
    } else {
        boundary_before(text, n - 1)
    }
}

/// The last space before `n`, if there is one behind the first byte.
pub open spec fn space_before(text: Seq<u8>, n: int) -> Option<int>
    decreases n,
{
    if n <= 1 {
        None
    } else if text[n - 1] == 0x20 {
        Some(n - 1)
    } else {
        space_before(text, n - 1)
    }
}

/// Characters that are white space.
pub open spec fn white(cp: int) -> bool {
    ||| 0x09 <= cp <= 0x0D
    ||| cp == 0x20
    ||| cp == 0x85
    ||| cp == 0xA0
    ||| cp == 0x1680
    ||| 0x2000 <= cp <= 0x200A
    ||| cp == 0x2028
    ||| cp == 0x2029
    ||| cp == 0x202F
    ||| cp == 0x205F
    ||| cp == 0x3000
}

/// Where the text from `pos` on starts, without leading white space.
pub open spec fn unspaced(text: Seq<u8>, pos: int) -> int
    decreases text.len() - pos,
{
    if pos < 0 || pos >= text.len() {
        pos
    } else {
        let (cp, len) = utf8::utf8_at(text, pos);
        if white(cp) && 1 <= len <= text.len() - pos {
            unspaced(text, pos + len)
        } else {
            pos
        }
    }
}

/// Where the first line of a title ends and the second starts, if `cut` bytes
/// fit on a line: at the last space that fits, or at the last character.
pub open spec fn title_split(text: Seq<u8>, cut: int) -> (int, int) {
    let n = boundary_before(text, cut);
    if cut >= text.len() {
        (text.len() as int, text.len() as int)
    } else {
        match space_before(text, n) {
            Some(sp) => (sp, unspaced(text, sp + 1)),
            None => (n, n),
        }
    }
}

fn is_boundary(text: &[u8], n: usize) -> (b: bool)
    requires
        n <= text@.len(),
    ensures
        b == boundary(text@, n as int),
{
    n == text.len() || !(0x80 <= text[n] && text[n] < 0xC0)
}

fn back_to_boundary(text: &[u8], n: usize) -> (m: usize)
    requires
        n <= text@.len(),
    ensures
        m == boundary_before(text@, n as int),
        m <= n,
{
    let mut m: usize = n;
    while m > 0 && !is_boundary(text, m)
        invariant
            m <= n <= text@.len(),
            boundary_before(text@, m as int) == boundary_before(text@, n as int),
        decreases m,
    {
        m = m - 1;
    }
    m
}

fn is_white(cp: u32) -> (b: bool)
    ensures
        b == white(cp as int),
{
    (0x09 <= cp && cp <= 0x0D) || cp == 0x20 || cp == 0x85 || cp == 0xA0 || cp == 0x1680 || (0x2000
        <= cp && cp <= 0x200A) || cp == 0x2028 || cp == 0x2029 || cp == 0x202F || cp == 0x205F
        || cp == 0x3000
}

fn skip_white(text: &[u8], pos: usize) -> (p: usize)
    requires
        pos <= text@.len(),
    ensures
        p == unspaced(text@, pos as int),
        pos <= p <= text@.len(),
{
    let mut p: usize = pos;
    loop
        invariant_except_break
            unspaced(text@, p as int) == unspaced(text@, pos as int),
        invariant
            pos <= p <= text@.len(),
        ensures
            p == unspaced(text@, pos as int),
        decreases text@.len() - p,
    {
        if p >= text.len() {
            break;
        }
        let (ch, len): (char, usize) = utf8::decode_utf8(text, p);
        if !is_white(ch as u32) {
            break;
        }
        p = p + len;
    }
    p
}

/// Split a title that may wrap once: where its first line ends, and where the
/// rest of it starts. `cut` bytes of it fit on the line.
pub fn split_title_line(text: &[u8], cut: usize) -> (r: (usize, usize))
    ensures
        (r.0 as int, r.1 as int) == title_split(text@, cut as int),
        r.0 <= r.1 <= text@.len(),
{
    if cut >= text.len() {
        return (text.len(), text.len());
    }
    let n: usize = back_to_boundary(text, cut);
    let mut m: usize = n;
    while m > 1
        invariant
            m <= n <= text@.len(),
            cut < text@.len(),
            n == boundary_before(text@, cut as int),
            space_before(text@, m as int) == space_before(text@, n as int),
        decreases m,
    {
        if text[m - 1] == 0x20 {
            return (m - 1, skip_white(text, m));
        }
        m = m - 1;
    }
    (n, n)
}

/// The text with an ellipsis behind what fits of it: `cut` bytes of it do, and
/// at most `cap` are kept.
pub open spec fn ellipsized(text: Seq<u8>, cut: int, cap: int) -> Seq<u8> {
    if cut >= text.len() {
        text
    } else {
        let n = boundary_before(
            text,
            if cut < cap {
                cut
            } else {
                cap
            },
        );
        text.take(n) + seq![0xE2u8, 0x80, 0xA6]
    }
}

/// Text of which `cut` bytes fit, with an ellipsis where that is not all.
pub fn truncated_text(text: &[u8], cut: usize, cap: usize) -> (out: Vec<u8>)
    ensures
        out@ == ellipsized(text@, cut as int, cap as int),
{
    let whole: bool = cut >= text.len();
    let n: usize = if whole {
        text.len()
    } else {
        back_to_boundary(
            text,
            if cut < cap {
                cut
            } else {
                cap
            },
        )
    };
    let mut out: Vec<u8> = Vec::new();
    let mut i: usize = 0;
    while i < n
        invariant
            i <= n <= text@.len(),
            out@ =~= text@.take(i as int),
        decreases n - i,
    {
        out.push(text[i]);
        i = i + 1;
    }
    if !whole {
        out.push(0xE2);
        out.push(0x80);
        out.push(0xA6);
    }
    proof {
        if whole {
            assert(out@ =~= text@);
        } else {
            assert(out@ =~= ellipsized(text@, cut as int, cap as int));
        }
    }
    out
}

/// Text of the home card of which `cut` bytes fit: with an ellipsis behind at
/// most `CARD_TEXT_CAP` bytes, or whole where that would split a character.
pub fn draw_truncated(text: &[u8], cut: usize) -> (out: Vec<u8>)
    ensures
        out@ == (if cut < text@.len() && boundary(
            text@,
            if cut < CARD_TEXT_CAP {
                cut as int
            } else {
                CARD_TEXT_CAP as int
            },
        ) {
            ellipsized(text@, cut as int, CARD_TEXT_CAP as int)
        } else {
            text@
        }),
{
    let n: usize = if cut < CARD_TEXT_CAP {
        cut
    } else {
        CARD_TEXT_CAP
    };
    if cut < text.len() && !(0x80 <= text[n] && text[n] < 0xC0) {
        truncated_text(text, cut, CARD_TEXT_CAP)
    } else {
        truncated_text(text, text.len(), CARD_TEXT_CAP)
    }
}

/// The two lines of a title are its text in order, and only white space
/// between them is left out.
pub proof fn law_title_lines_lose_only_space(text: Seq<u8>, cut: int)
    requires
        0 <= cut,
    ensures
        ({
            let (end, rest) = title_split(text, cut);
            &&& 0 <= end <= rest <= text.len()
            &&& end < rest ==> text[end] == 0x20 && rest == unspaced(text, end + 1)
        }),
{
    if cut < text.len() {
        lemma_boundary_before(text, cut);
        let n = boundary_before(text, cut);
        lemma_space_before(text, n);
        if let Some(sp) = space_before(text, n) {
            lemma_unspaced(text, sp + 1);
        }
    }
}

proof fn lemma_boundary_before(text: Seq<u8>, n: int)
    requires
        0 <= n,
    ensures
        0 <= boundary_before(text, n) <= n,
    decreases n,
{
    if n > 0 && !boundary(text, n) {
        lemma_boundary_before(text, n - 1);
    }
}

proof fn lemma_space_before(text: Seq<u8>, n: int)
    ensures
        space_before(text, n) matches Some(sp) ==> 0 < sp < n && text[sp] == 0x20,
    decreases n,
{
    if n > 1 && text[n - 1] != 0x20 {
        lemma_space_before(text, n - 1);
    }
}

proof fn lemma_unspaced(text: Seq<u8>, pos: int)
    requires
        0 <= pos <= text.len(),
    ensures
        pos <= unspaced(text, pos) <= text.len(),
    decreases text.len() - pos,
{
    if pos < text.len() {
        let (cp, len) = utf8::utf8_at(text, pos);
        if white(cp) && 1 <= len <= text.len() - pos {
            lemma_unspaced(text, pos + len);
        }
    }
}

} // verus!
