//! Widths of text and the spacing of justified lines.

use crate::fonts;
use crate::layout::pipeline;
use crate::layout::pipeline::FaceAdvance;
use crate::reader::span::LineSpan;
use crate::utf8;
use vstd::prelude::*;

verus! {

/// First character that the fonts have.
pub const FIRST_CHAR: u8 = 0x20;

/// Pen position behind the text from `pos` on, starting at `acc`, the first
/// character behind `prev`. Control and stray bytes take no room; they, a
/// space and a soft hyphen end a kerning pair, and a soft hyphen takes no room
/// either.
pub open spec fn text_pen(
    adv: FaceAdvance,
    bytes: Seq<u8>,
    face: fonts::Style,
    pos: int,
    prev: Option<char>,
    acc: int,
) -> int
    decreases bytes.len() - pos,
{
    if pos < 0 || pos >= bytes.len() {
        acc
    } else {
        let b = bytes[pos];
        let (cp, len) = utf8::utf8_at(bytes, pos);
        if b < FIRST_CHAR || 0x80 <= b < 0xC0 {
            text_pen(adv, bytes, face, pos + 1, None, acc)
        } else if len < 1 || pos + len > bytes.len() {
            acc
        } else if cp == 0xAD {
            text_pen(adv, bytes, face, pos + len, None, acc)
        } else if cp == 0x20 {
            text_pen(adv, bytes, face, pos + len, None, acc + adv(None, ' ', face))
        } else {
            let ch = cp as char;
            text_pen(adv, bytes, face, pos + len, Some(ch), acc + adv(prev, ch, face))
        }
    }
}

/// Natural width of `bytes` in a face; never negative.
pub open spec fn text_width(adv: FaceAdvance, bytes: Seq<u8>, face: fonts::Style) -> int {
    let w = text_pen(adv, bytes, face, 0, None, 0);
    if w < 0 {
        0
    } else {
        w
    }
}

/// Natural width of a word's bytes, kerning between its characters included.
pub fn measure_bytes<F: Fn(Option<char>, char, fonts::Style) -> i16>(
    bytes: &[u8],
    advance: &F,
    face: fonts::Style,
) -> (w: u32)
    requires
        bytes@.len() <= 65535,
        pipeline::face_callable(*advance),
    ensures
        forall|adv: FaceAdvance| #[trigger]
            pipeline::face_measures(*advance, adv) ==> w == text_width(adv, bytes@, face),
        w <= 32767 * bytes@.len(),
{
    let mut w: i32 = 0;
    let mut prev: Option<char> = None;
    let mut j: usize = 0;
    while j < bytes.len()
        invariant
            j <= bytes@.len() <= 65535,
            pipeline::face_callable(*advance),
            -32768 * j <= w <= 32767 * j,
            forall|adv: FaceAdvance| #[trigger]
                pipeline::face_measures(*advance, adv) ==> text_pen(
                    adv,
                    bytes@,
                    face,
                    j as int,
                    prev,
                    w as int,
                ) == text_pen(adv, bytes@, face, 0, None, 0),
        decreases bytes@.len() - j,
    {
        let b: u8 = bytes[j];
        if b < FIRST_CHAR || (0x80 <= b && b < 0xC0) {
            prev = None;
            j = j + 1;
        } else {
            let (ch, len): (char, usize) = utf8::decode_utf8(bytes, j);
            if ch == '\u{00AD}' {
                prev = None;
            } else if ch == ' ' {
                let a: i16 = advance(None, ' ', face);
                w = w + a as i32;
                prev = None;
            } else {
                let a: i16 = advance(prev, ch, face);
                w = w + a as i32;
                prev = Some(ch);
            }
            j = j + len;
        }
    }
    if w < 0 {
        0
    } else {
        w as u32
    }
}

/// Width of a space; never negative.
pub open spec fn space_width(adv: FaceAdvance, face: fonts::Style) -> int {
    let a = adv(None, ' ', face);
    if a < 0 {
        0
    } else {
        a as int
    }
}

pub fn measure_space<F: Fn(Option<char>, char, fonts::Style) -> i16>(
    advance: &F,
    face: fonts::Style,
) -> (w: u32)
    requires
        pipeline::face_callable(*advance),
    ensures
        forall|adv: FaceAdvance| #[trigger]
            pipeline::face_measures(*advance, adv) ==> w == space_width(adv, face),
        w <= 32767,
{
    let a: i16 = advance(None, ' ', face);
    if a < 0 {
        0
    } else {
        a as u32
    }
}

// ── justification ─────────────────────────────────────────────────

/// What measuring a line gives: its width without trailing spaces, and its
/// stretchable gaps.
#[derive(Clone, Copy, Debug, PartialEq, Eq, Structural)]
pub struct LineMeasure {
    pub width: u32,
    pub gaps: u16,
}

/// Quotient rounded toward zero.
pub open spec fn div_trunc(a: int, b: int) -> int {
    if a >= 0 {
        a / b
    } else {
        -((-a) / b)
    }
}

/// Pixels added to every gap of a line (negative to shrink), and how many
/// leading gaps take one more (or fewer) to spread the remainder.
///
/// Stretch is for wrapped lines of justified text, and only as far as it looks
/// good; shrink is what the breaker decided, up to half a space per gap.
/// Headings and lines with an alignment of their own get neither.
pub open spec fn justify(
    text_alignment: u8,
    span: LineSpan,
    m: LineMeasure,
    avail: int,
    space_w: int,
) -> (int, int) {
    let free = !span.heading() && span.align_code() == 0;
    let can_stretch = text_alignment == 1 && span.soft_wrap() && free;
    let can_shrink = span.shrinks() && free;
    let spare = avail - m.width;
    let per = div_trunc(spare, m.gaps as int);
    let rest = spare - per * m.gaps;
    if m.gaps < 2 {
        (0, 0)
    } else if can_stretch && spare >= 3 && spare * 5 < avail * 2 {
        if per <= space_w * 3 {
            (per, rest)
        } else {
            (0, 0)
        }
    } else if can_shrink && spare <= -1 {
        let floor = if space_w / 2 > 1 {
            -(space_w / 2)
        } else {
            -1
        };
        if per >= floor {
            (per, rest)
        } else {
            (0, 0)
        }
    } else {
        (0, 0)
    }
}

pub fn justify_params(
    text_alignment: u8,
    span: &LineSpan,
    m: LineMeasure,
    avail: i32,
    space_w: i32,
) -> (r: (i32, i32))
    requires
        0 <= avail <= 0x0fff_ffff,
        m.width <= 0x7fff_ffff,
        0 <= space_w <= 0x7fff,
    ensures
        (r.0 as int, r.1 as int) == justify(
            text_alignment,
            *span,
            m,
            avail as int,
            space_w as int,
        ),
{
    let free: bool = !span.is_heading() && !span.is_explicit_align();
    let can_stretch: bool = text_alignment == 1 && span.is_soft_wrap() && free;
    let can_shrink: bool = span.extra_is_shrink() && free;
    if m.gaps < 2 {
        return (0, 0);
    }
    let gaps: i32 = m.gaps as i32;
    let spare: i32 = avail - m.width as i32;
    if can_stretch && spare >= 3 && (spare as i64) * 5 < (avail as i64) * 2 {
        let per: i32 = spare / gaps;
        proof {
            assert(0 <= spare - per * gaps < gaps) by (nonlinear_arith)
                requires
                    per == spare as int / gaps as int,
                    gaps >= 1,
                    spare >= 0,
            ;
            assert(0 <= per * gaps) by (nonlinear_arith)
                requires
                    per >= 0,
                    gaps >= 1,
            ;
        }
        if per <= space_w * 3 {
            (per, spare - per * gaps)
        } else {
            (0, 0)
        }
    } else if can_shrink && spare <= -1 {
        let lack: i32 = -spare;
        let each: i32 = lack / gaps;
        proof {
            assert(0 <= lack - each * gaps < gaps) by (nonlinear_arith)
                requires
                    each == lack as int / gaps as int,
                    gaps >= 1,
                    lack >= 0,
            ;
            assert(0 <= each * gaps) by (nonlinear_arith)
                requires
                    each >= 0,
                    gaps >= 1,
            ;
            assert(spare - (-each) * gaps == -(lack - each * gaps)) by (nonlinear_arith)
                requires
                    spare == -lack,
            ;
        }
        let floor: i32 = if space_w / 2 > 1 {
            -(space_w / 2)
        } else {
            -1
        };
        if -each >= floor {
            (-each, -(lack - each * gaps))
        } else {
            (0, 0)
        }
    } else {
        (0, 0)
    }
}

/// A justified line comes out exactly as wide as the column: what the gaps
/// take up in all is the spare, and it differs by at most one pixel from gap
/// to gap.
pub proof fn law_justified_lines_fill_the_column(
    text_alignment: u8,
    span: LineSpan,
    m: LineMeasure,
    avail: int,
    space_w: int,
)
    requires
        avail >= 0,
        space_w >= 0,
        justify(text_alignment, span, m, avail, space_w) != (0int, 0int),
    ensures
        ({
            let (per, rest) = justify(text_alignment, span, m, avail, space_w);
            &&& m.width + per * m.gaps + rest == avail
            &&& -(m.gaps as int) < rest < m.gaps
        }),
{
    let spare = avail - m.width;
    let g = m.gaps as int;
    if spare >= 0 {
        let per = spare / g;
        assert(0 <= spare - per * g < g) by (nonlinear_arith)
            requires
                per == spare / g,
                g >= 1,
        ;
    } else {
        let each = (-spare) / g;
        assert(0 <= (-spare) - each * g < g) by (nonlinear_arith)
            requires
                each == (-spare) / g,
                g >= 1,
        ;
        assert((-each) * g == -(each * g)) by (nonlinear_arith);
    }
}

} // verus!
