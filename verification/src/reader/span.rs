//! Lines of the page on screen.

use crate::fonts;
use crate::layout::table;
use crate::layout::table::LineLayout;
use crate::markup::Style as MarkupStyle;
use vstd::prelude::*;

verus! {

/// One line of the page buffer: `len` bytes from `start`.
///
/// `flags` holds bold, italic, heading and image in bits 0 to 3, the way the
/// line ended in bits 4-5 and the heading tier in bits 6-7. `indent`, `align`
/// and `extra` are those of `LineLayout`.
#[derive(Clone, Copy, Debug, PartialEq, Eq, Structural)]
pub struct LineSpan {
    pub start: u16,
    pub len: u16,
    pub flags: u8,
    pub indent: u8,
    pub align: u8,
    pub extra: u8,
}

impl LineSpan {
    pub const EXTRA_SIGN_SHRINK: u8 = 128;

    pub const FLAG_BOLD: u8 = 1;

    pub const FLAG_ITALIC: u8 = 2;

    pub const FLAG_HEADING: u8 = 4;

    pub const FLAG_IMAGE: u8 = 8;

    pub const ALIGN_DEFAULT: u8 = 0;

    pub const ALIGN_CENTER: u8 = 2;

    pub const ALIGN_RIGHT: u8 = 3;

    pub const END_MASK: u8 = 48;

    /// end of the page buffer or of the chapter
    pub const END_BUFFER: u8 = 0;

    /// the line ended at a newline
    pub const END_HARD: u8 = 16;

    /// the line was wrapped
    pub const END_SOFT: u8 = 32;

    pub const HLEVEL_MASK: u8 = 192;

    pub const HLEVEL_H3: u8 = 0;

    pub const HLEVEL_H2: u8 = 64;

    pub const HLEVEL_H1: u8 = 128;

    pub open spec fn spec_empty() -> LineSpan {
        LineSpan { start: 0, len: 0, flags: 0, indent: 0, align: 0, extra: 0 }
    }

    pub fn empty() -> (s: LineSpan)
        ensures
            s == LineSpan::spec_empty(),
    {
        LineSpan { start: 0, len: 0, flags: 0, indent: 0, align: 0, extra: 0 }
    }

    pub open spec fn image(self) -> bool {
        (self.flags / 8) % 2 == 1
    }

    pub open spec fn heading(self) -> bool {
        (self.flags / 4) % 2 == 1
    }

    pub open spec fn soft_wrap(self) -> bool {
        (self.flags / 16) % 4 == 2
    }

    pub open spec fn shrinks(self) -> bool {
        self.extra / 128 == 1
    }

    pub open spec fn align_code(self) -> int {
        (self.align % 4) as int
    }

    /// The heading level of the tier bits; 4 stands for h4 to h6.
    pub open spec fn level(self) -> u8 {
        let tier = (self.flags / 64) * 64;
        if tier == 128 {
            1
        } else if tier == 64 {
            2
        } else if tier == 0 {
            3
        } else {
            4
        }
    }

    pub open spec fn heading_level(self) -> u8 {
        if self.heading() {
            self.level()
        } else {
            0
        }
    }

    pub open spec fn spec_start_style(self) -> MarkupStyle {
        MarkupStyle {
            bold: self.flags % 2 == 1,
            italic: (self.flags / 2) % 2 == 1,
            underline: (self.align / 4) % 2 == 1,
            strike: (self.align / 8) % 2 == 1,
            heading: self.heading_level(),
        }
    }

    pub fn extra_is_shrink(&self) -> (b: bool)
        ensures
            b == self.shrinks(),
    {
        proof {
            table::lemma_byte_bits(self.extra);
        }
        self.extra & Self::EXTRA_SIGN_SHRINK != 0
    }

    pub fn left_levels(&self) -> (n: u8)
        ensures
            n == self.indent % 16,
    {
        proof {
            table::lemma_byte_bits(self.indent);
        }
        self.indent & LineLayout::LEFT_MASK
    }

    pub fn first_indent_qem(&self) -> (n: u8)
        ensures
            n == self.indent / 16,
    {
        proof {
            table::lemma_byte_bits(self.indent);
        }
        self.indent >> 4
    }

    pub fn align(&self) -> (n: u8)
        ensures
            n == self.align_code(),
    {
        proof {
            table::lemma_byte_bits(self.align);
        }
        self.align & LineLayout::ALIGN_MASK
    }

    pub fn gap_qem(&self) -> (n: u8)
        ensures
            n == self.align / 16,
    {
        proof {
            table::lemma_byte_bits(self.align);
        }
        self.align >> 4
    }

    pub fn is_heading(&self) -> (b: bool)
        ensures
            b == self.heading(),
    {
        proof {
            table::lemma_byte_bits(self.flags);
        }
        self.flags & Self::FLAG_HEADING != 0
    }

    pub fn is_soft_wrap(&self) -> (b: bool)
        ensures
            b == self.soft_wrap(),
    {
        proof {
            table::lemma_byte_bits(self.flags);
        }
        (self.flags & Self::END_MASK) == Self::END_SOFT
    }

    pub fn is_image(&self) -> (b: bool)
        ensures
            b == self.image(),
    {
        proof {
            table::lemma_byte_bits(self.flags);
        }
        self.flags & Self::FLAG_IMAGE != 0
    }

    /// Whether the line is the first of an image block.
    pub fn is_image_origin(&self) -> (b: bool)
        ensures
            b == (self.image() && self.len > 0),
    {
        self.is_image() && self.len > 0
    }

    /// Heading level of the tier bits, 1 to 4.
    pub fn start_hlevel(&self) -> (n: u8)
        ensures
            n == self.level(),
    {
        proof {
            table::lemma_byte_bits(self.flags);
        }
        let tier: u8 = self.flags & Self::HLEVEL_MASK;
        if tier == Self::HLEVEL_H1 {
            1
        } else if tier == Self::HLEVEL_H2 {
            2
        } else if tier == Self::HLEVEL_H3 {
            3
        } else {
            4
        }
    }

    /// The inline style at the line's first byte.
    pub fn start_style(&self) -> (s: MarkupStyle)
        ensures
            s == self.spec_start_style(),
    {
        proof {
            table::lemma_byte_bits(self.flags);
            table::lemma_byte_bits(self.align);
        }
        let heading: u8 = if self.is_heading() {
            self.start_hlevel()
        } else {
            0
        };
        MarkupStyle {
            bold: self.flags & Self::FLAG_BOLD != 0,
            italic: self.flags & Self::FLAG_ITALIC != 0,
            underline: self.align & LineLayout::START_UNDERLINE != 0,
            strike: self.align & LineLayout::START_STRIKE != 0,
            heading,
        }
    }

    /// Flags of a line whose first byte is drawn in `style` and that ends as
    /// `end` says.
    pub fn flags_for(style: MarkupStyle, end: u8) -> (f: u8)
        requires
            end == Self::END_BUFFER || end == Self::END_HARD || end == Self::END_SOFT,
        ensures
            f == table::style_flag_bits(style) + end,
    {
        LineLayout::style_flags(style) + end
    }

    /// The face at the line's first byte.
    pub fn style(&self) -> (s: fonts::Style)
        ensures
            s == fonts::face(
                self.flags % 2 == 1,
                (self.flags / 2) % 2 == 1,
                self.heading(),
                self.heading_level(),
            ),
    {
        proof {
            table::lemma_byte_bits(self.flags);
        }
        let heading: bool = self.is_heading();
        let hlevel: u8 = if heading {
            self.start_hlevel()
        } else {
            0
        };
        fonts::Style::from_flags(
            self.flags & Self::FLAG_BOLD != 0,
            self.flags & Self::FLAG_ITALIC != 0,
            heading,
            hlevel,
        )
    }

    pub fn is_centered(&self) -> (b: bool)
        ensures
            b == (self.align_code() == 2),
    {
        self.align() == Self::ALIGN_CENTER
    }

    pub fn is_right_aligned(&self) -> (b: bool)
        ensures
            b == (self.align_code() == 3),
    {
        self.align() == Self::ALIGN_RIGHT
    }

    pub fn is_explicit_align(&self) -> (b: bool)
        ensures
            b == (self.align_code() != 0),
    {
        self.align() != Self::ALIGN_DEFAULT
    }
}

/// The flags of a line on the page: those of its record, with the end of a
/// paragraph as a hard break and anything else as a soft one.
pub open spec fn span_flags(ll: LineLayout) -> int {
    (ll.flags % 4) + (if ll.heading() {
        4 + (ll.flags / 64) * 64
    } else {
        0
    }) + (if ll.image() {
        8int
    } else {
        0
    }) + (if ll.paragraph_end() {
        16int
    } else {
        32
    })
}

pub open spec fn min_int(a: int, b: int) -> int {
    if a <= b {
        a
    } else {
        b
    }
}

pub open spec fn sub_floor(a: int, b: int) -> int {
    if a >= b {
        a - b
    } else {
        0
    }
}

/// A line record as a line of a page buffer that holds `buf_len` bytes from
/// `page_start` on.
pub open spec fn span_of(ll: LineLayout, page_start: u32, buf_len: u32) -> LineSpan {
    let start = min_int(sub_floor(ll.start_byte as int, page_start as int), buf_len as int);
    LineSpan {
        start: start as u16,
        len: min_int(sub_floor(ll.end_byte as int, ll.start_byte as int), buf_len - start) as u16,
        flags: span_flags(ll) as u8,
        indent: ll.indent,
        align: ll.align,
        extra: ll.extra,
    }
}

pub fn linelayout_to_span(ll: &LineLayout, page_start_byte: u32, buf_len: u32) -> (s: LineSpan)
    requires
        buf_len <= 65535,
    ensures
        s == span_of(*ll, page_start_byte, buf_len),
{
    let raw_start: u32 = ll.start_byte.saturating_sub(page_start_byte);
    let raw_len: u32 = ll.end_byte.saturating_sub(ll.start_byte);
    let start: u32 = if raw_start < buf_len {
        raw_start
    } else {
        buf_len
    };
    let left: u32 = buf_len - start;
    let len: u32 = if raw_len < left {
        raw_len
    } else {
        left
    };
    proof {
        table::lemma_byte_bits(ll.flags);
    }
    // bold and italic
    let mut flags: u8 = ll.flags & 3;
    if ll.is_heading() {
        flags = flags + LineSpan::FLAG_HEADING;
        flags = flags + ll.hlevel();
    }
    if ll.is_image() {
        flags = flags + LineSpan::FLAG_IMAGE;
    }
    if ll.is_paragraph_end() {
        flags = flags + LineSpan::END_HARD;
    } else {
        flags = flags + LineSpan::END_SOFT;
    }
    LineSpan {
        start: start as u16,
        len: len as u16,
        flags,
        indent: ll.indent,
        align: ll.align,
        extra: ll.extra,
    }
}

/// A page line reads the same as the record it came from: start style,
/// indents, alignment and gap, image, and whether it may be stretched. It
/// lies within the page buffer.
pub proof fn law_spans_keep_their_records(ll: LineLayout, page_start: u32, buf_len: u32)
    requires
        buf_len <= 65535,
    ensures
        ({
            let s = span_of(ll, page_start, buf_len);
            &&& s.spec_start_style() == ll.spec_start_style()
            &&& s.image() == ll.image()
            &&& s.heading() == ll.heading()
            &&& s.soft_wrap() == !ll.paragraph_end()
            &&& s.indent == ll.indent && s.align == ll.align && s.extra == ll.extra
            &&& s.start + s.len <= buf_len
        }),
{
}

} // verus!
