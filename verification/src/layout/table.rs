//! In-memory records of a chapter's layout, and the key that says for which
//! settings they hold.

use crate::hash;
use crate::markup;
use crate::markup::{Align, Style};
use vstd::prelude::*;

verus! {

/// Pixels of first-line indent for `qem` quarter-em at the given em size.
/// Shared by the item builder and the renderer, so the box that the breaker
/// measured is what the page shows.
pub fn indent_px(qem: u8, em_px: u16) -> (px: u16)
    ensures
        px == spec_indent_px(qem, em_px),
{
    proof {
        assert(0 <= qem * em_px <= 255 * 65535) by (nonlinear_arith)
            requires
                0 <= qem <= 255,
                0 <= em_px <= 65535,
        ;
    }
    let px: u32 = (qem as u32 * em_px as u32) / 4;
    #[verifier::truncate]
    (px as u16)
}

/// A quarter of `qem * em_px`, in 16 bits.
pub open spec fn spec_indent_px(qem: u8, em_px: u16) -> u16 {
    ((qem * em_px) / 4) as u16
}

/// Vertical space, in quarter-lines, of a gap of `qem` quarter-em: rounded
/// to the nearest and at most two lines.
pub fn gap_quarters(qem: u8, em_px: u16, line_h: u16) -> (q: u16)
    ensures
        q == spec_gap_quarters(qem, em_px, line_h),
{
    let lh: u32 = if line_h > 1 {
        line_h as u32
    } else {
        1
    };
    proof {
        assert(0 <= qem * em_px <= 255 * 65535) by (nonlinear_arith)
            requires
                0 <= qem <= 255,
                0 <= em_px <= 65535,
        ;
    }
    let px4: u32 = qem as u32 * em_px as u32;
    let q: u32 = (px4 + lh / 2) / lh;
    if q < 8 {
        q as u16
    } else {
        8
    }
}

pub open spec fn spec_gap_quarters(qem: u8, em_px: u16, line_h: u16) -> int {
    let lh: int = if line_h > 1 {
        line_h as int
    } else {
        1
    };
    let q = (qem * em_px + lh / 2) / lh;
    if q < 8 {
        q
    } else {
        8
    }
}

/// Most lines that a chapter's table holds.
pub const MAX_LINES_PER_CHAPTER: usize = 4096;

/// Most pages that a chapter's table holds.
pub const MAX_PAGES: usize = 512;

pub const PAGEIDX_FORMAT_VERSION: u8 = 3;

pub const LAYOUT_ALGO_VERSION: u8 = 18;

/// Cache key of a persisted layout. The typeset fields (versions, font,
/// family, content format, text width) gate the line table; `line_h` and
/// `max_lines` gate the page table only, since line breaks do not depend on
/// spacing.
#[derive(Clone, Copy, Debug, PartialEq, Eq, Structural)]
pub struct LayoutKey {
    pub format_version: u8,
    pub algo_version: u8,
    pub font_idx: u8,
    pub font_family: u8,
    pub content_fmt: u8,
    pub text_w: u16,
    pub line_h: u16,
    pub max_lines: u8,
}

/// Header of a book's layout index.
#[derive(Clone, Copy, Debug, PartialEq, Eq, Structural)]
pub struct LayoutIdxHeader {
    pub format_version: u8,
    pub algo_version: u8,
    pub font_idx: u8,
    pub content_fmt: u8,
    pub text_w: u16,
    pub line_h: u16,
    pub max_lines: u8,
    pub flags: u8,
    pub font_family: u8,
    pub total_pages: u32,
}

impl LayoutKey {
    pub open spec fn spec_current(
        font_idx: u8,
        font_family: u8,
        content_fmt: u8,
        text_w: u16,
        line_h: u16,
        max_lines: u8,
    ) -> LayoutKey {
        LayoutKey {
            format_version: PAGEIDX_FORMAT_VERSION,
            algo_version: LAYOUT_ALGO_VERSION,
            font_idx,
            font_family,
            content_fmt,
            text_w,
            line_h,
            max_lines,
        }
    }

    /// A key with the current format and algorithm versions.
    pub fn current(
        font_idx: u8,
        font_family: u8,
        content_fmt: u8,
        text_w: u16,
        line_h: u16,
        max_lines: u8,
    ) -> (key: LayoutKey)
        ensures
            key == LayoutKey::spec_current(
                font_idx,
                font_family,
                content_fmt,
                text_w,
                line_h,
                max_lines,
            ),
    {
        LayoutKey {
            format_version: PAGEIDX_FORMAT_VERSION,
            algo_version: LAYOUT_ALGO_VERSION,
            font_idx,
            font_family,
            content_fmt,
            text_w,
            line_h,
            max_lines,
        }
    }

    /// The key as bytes, the 16-bit fields low byte first.
    pub open spec fn bytes(self) -> Seq<u8> {
        seq![
            self.format_version,
            self.algo_version,
            self.font_idx,
            self.font_family,
            self.content_fmt,
            (self.text_w % 256) as u8,
            (self.text_w / 256) as u8,
            (self.line_h % 256) as u8,
            (self.line_h / 256) as u8,
            self.max_lines,
        ]
    }

    /// One number for the whole key, stored with a page hint so that the
    /// hint is trusted only under the layout it was counted under.
    pub fn hash(&self) -> (h: u32)
        ensures
            h == hash::fnv(self.bytes()),
    {
        let bytes: [u8; 10] = [
            self.format_version,
            self.algo_version,
            self.font_idx,
            self.font_family,
            self.content_fmt,
            (self.text_w % 256) as u8,
            (self.text_w / 256) as u8,
            (self.line_h % 256) as u8,
            (self.line_h / 256) as u8,
            self.max_lines,
        ];
        proof {
            assert(bytes@ =~= self.bytes());
        }
        hash::fnv1a(bytes.as_slice())
    }

    pub open spec fn spec_lines_match(self, h: LayoutIdxHeader) -> bool {
        &&& h.format_version == self.format_version
        &&& h.algo_version == self.algo_version
        &&& h.font_idx == self.font_idx
        &&& h.font_family == self.font_family
        &&& h.content_fmt == self.content_fmt
        &&& h.text_w == self.text_w
    }

    /// Whether a stored line table can be used: every typeset input is the
    /// same. The spacing fields do not count.
    pub fn lines_match(&self, h: &LayoutIdxHeader) -> (m: bool)
        ensures
            m == self.spec_lines_match(*h),
    {
        h.format_version == self.format_version && h.algo_version == self.algo_version
            && h.font_idx == self.font_idx && h.font_family == self.font_family && h.content_fmt
            == self.content_fmt && h.text_w == self.text_w
    }

    pub open spec fn spec_header(self, total_pages: u32) -> LayoutIdxHeader {
        LayoutIdxHeader {
            format_version: self.format_version,
            algo_version: self.algo_version,
            font_idx: self.font_idx,
            content_fmt: self.content_fmt,
            text_w: self.text_w,
            line_h: self.line_h,
            max_lines: self.max_lines,
            flags: 0,
            font_family: self.font_family,
            total_pages,
        }
    }

    /// A header with this key's dimensions.
    pub fn to_header(&self, total_pages: u32) -> (h: LayoutIdxHeader)
        ensures
            h == self.spec_header(total_pages),
    {
        LayoutIdxHeader {
            format_version: self.format_version,
            algo_version: self.algo_version,
            font_idx: self.font_idx,
            content_fmt: self.content_fmt,
            text_w: self.text_w,
            line_h: self.line_h,
            max_lines: self.max_lines,
            flags: 0,
            font_family: self.font_family,
            total_pages,
        }
    }
}

/// Line breaks do not depend on spacing: a key that differs from the stored
/// one in line height and page capacity alone still finds its lines, and
/// one that differs in any typeset field does not.
pub proof fn law_lines_survive_spacing(key: LayoutKey, stored: LayoutKey, total_pages: u32)
    ensures
        key.spec_lines_match(stored.spec_header(total_pages)) <==> key == (LayoutKey {
            line_h: key.line_h,
            max_lines: key.max_lines,
            ..stored
        }),
{
}

/// One page of a chapter.
#[derive(Clone, Copy, Debug, PartialEq, Eq, Structural)]
pub struct PageLayout {
    pub first_line: u16,
    pub line_count: u8,
    pub flags: u8,
    pub start_byte: u32,
    pub end_byte: u32,
}

/// Stored form of a page.
#[derive(Clone, Copy, Debug, PartialEq, Eq, Structural)]
pub struct PageRecord {
    pub first_line: u16,
    pub line_count: u8,
    pub flags: u8,
    pub start_byte: u32,
    pub end_byte: u32,
}

impl PageLayout {
    pub open spec fn spec_empty() -> PageLayout {
        PageLayout { first_line: 0, line_count: 0, flags: 0, start_byte: 0, end_byte: 0 }
    }

    /// A page without lines.
    pub fn empty() -> (p: PageLayout)
        ensures
            p == PageLayout::spec_empty(),
    {
        PageLayout { first_line: 0, line_count: 0, flags: 0, start_byte: 0, end_byte: 0 }
    }

    pub open spec fn spec_record(self) -> PageRecord {
        PageRecord {
            first_line: self.first_line,
            line_count: self.line_count,
            flags: self.flags,
            start_byte: self.start_byte,
            end_byte: self.end_byte,
        }
    }

    pub open spec fn of_record(r: PageRecord) -> PageLayout {
        PageLayout {
            first_line: r.first_line,
            line_count: r.line_count,
            flags: r.flags,
            start_byte: r.start_byte,
            end_byte: r.end_byte,
        }
    }

    pub fn to_record(&self) -> (r: PageRecord)
        ensures
            r == self.spec_record(),
    {
        PageRecord {
            first_line: self.first_line,
            line_count: self.line_count,
            flags: self.flags,
            start_byte: self.start_byte,
            end_byte: self.end_byte,
        }
    }

    pub fn from_record(r: &PageRecord) -> (p: PageLayout)
        ensures
            p == PageLayout::of_record(*r),
    {
        PageLayout {
            first_line: r.first_line,
            line_count: r.line_count,
            flags: r.flags,
            start_byte: r.start_byte,
            end_byte: r.end_byte,
        }
    }
}

/// One line of a chapter.
///
/// `flags` byte:
///   bit 0    bold at the line's first byte
///   bit 1    italic
///   bit 2    heading
///   bit 3    image line
///   bit 4    page break before this line
///   bit 5    last line of its paragraph
///   bits 6-7 heading tier (only meaningful with bit 2)
///
/// `indent` byte: low nibble left indent levels, high nibble first-line
/// indent in quarter-em on a paragraph's first line, else 0.
///
/// `align` byte: bits 0-1 alignment, bit 2 the line starts underlined, bit 3
/// struck through, high nibble the space above in quarter-em on a paragraph's
/// first line, else 0.
///
/// `extra` byte: bit 7 sign (1 is shrink), bits 0-6 pixels per gap. On the
/// origin line of an image it holds the reserved height in units of four
/// pixels (0 is unknown).
#[derive(Clone, Copy, Debug, PartialEq, Eq, Structural)]
pub struct LineLayout {
    pub start_byte: u32,
    pub end_byte: u32,
    pub flags: u8,
    pub indent: u8,
    pub align: u8,
    pub extra: u8,
}

/// Stored form of a line.
#[derive(Clone, Copy, Debug, PartialEq, Eq, Structural)]
pub struct LineRecord {
    pub start_byte: u32,
    pub end_byte: u32,
    pub flags: u8,
    pub indent: u8,
    pub align: u8,
    pub extra: u8,
}

/// Reading single bits and nibbles of a byte.
pub proof fn lemma_byte_bits(b: u8)
    by (bit_vector)
    ensures
        (b & 1 != 0) == (b % 2 == 1),
        (b & 2 != 0) == ((b / 2) % 2 == 1),
        (b & 4 != 0) == ((b / 4) % 2 == 1),
        (b & 8 != 0) == ((b / 8) % 2 == 1),
        (b & 16 != 0) == ((b / 16) % 2 == 1),
        (b & 32 != 0) == ((b / 32) % 2 == 1),
        (b & 128 != 0) == (b / 128 == 1),
        b & 3 == b % 4,
        b & 15 == b % 16,
        b & 127 == b % 128,
        b >> 4 == b / 16,
        b & 192 == (b / 64) * 64,
        b & 48 == ((b / 16) % 4) * 16,
{
}

/// Two nibbles in one byte.
proof fn lemma_nibbles(lo: u8, hi: u8)
    by (bit_vector)
    requires
        lo <= 15,
        hi <= 15,
    ensures
        lo | (hi << 4) == lo + 16 * hi,
{
}

pub open spec fn min15(x: u8) -> int {
    if x < 15 {
        x as int
    } else {
        15
    }
}

/// The byte with `lo` and `hi`, each at most 15, as its nibbles.
pub open spec fn nibbles(lo: int, hi: int) -> u8 {
    (lo + 16 * hi) as u8
}

/// The tier bits of a heading level.
pub open spec fn tier_bits(heading: u8) -> int {
    if heading == 1 {
        128
    } else if heading == 2 {
        64
    } else if heading == 3 {
        0
    } else {
        192
    }
}

/// Style bits of a line that starts in `s`.
pub open spec fn style_flag_bits(s: Style) -> int {
    (if s.bold {
        1int
    } else {
        0
    }) + (if s.italic {
        2int
    } else {
        0
    }) + (if s.heading != 0 {
        4 + tier_bits(s.heading)
    } else {
        0
    })
}

/// Low nibble of the `align` byte.
pub open spec fn align_bits(align: Align, s: Style) -> int {
    markup::align_code(align) + (if s.underline {
        4int
    } else {
        0
    }) + (if s.strike {
        8int
    } else {
        0
    })
}

impl LineLayout {
    pub const FLAG_BOLD: u8 = 1;

    pub const FLAG_ITALIC: u8 = 2;

    pub const FLAG_HEADING: u8 = 4;

    pub const FLAG_IMAGE: u8 = 8;

    pub const FLAG_PAGE_BREAK_BEFORE: u8 = 16;

    pub const FLAG_PARAGRAPH_END: u8 = 32;

    pub const HLEVEL_SHIFT: u8 = 6;

    pub const HLEVEL_MASK: u8 = 192;

    pub const HLEVEL_H3: u8 = 0;

    pub const HLEVEL_H2: u8 = 64;

    pub const HLEVEL_H1: u8 = 128;

    /// h4 to h6: set in the bold body face
    pub const HLEVEL_H4: u8 = 192;

    pub const ALIGN_DEFAULT: u8 = 0;

    pub const ALIGN_LEFT: u8 = 1;

    pub const ALIGN_CENTER: u8 = 2;

    pub const ALIGN_RIGHT: u8 = 3;

    pub const ALIGN_MASK: u8 = 3;

    pub const START_UNDERLINE: u8 = 4;

    pub const START_STRIKE: u8 = 8;

    pub const GAP_SHIFT: u8 = 4;

    pub const LEFT_MASK: u8 = 15;

    pub const FIRST_INDENT_SHIFT: u8 = 4;

    /// largest quarter-em value that a nibble holds
    pub const NIBBLE_MAX: u8 = 15;

    pub const EXTRA_SIGN_SHRINK: u8 = 128;

    pub const EXTRA_MAG_MASK: u8 = 127;

    pub open spec fn spec_empty() -> LineLayout {
        LineLayout { start_byte: 0, end_byte: 0, flags: 0, indent: 0, align: 0, extra: 0 }
    }

    /// A line without content.
    pub fn empty() -> (l: LineLayout)
        ensures
            l == LineLayout::spec_empty(),
    {
        LineLayout { start_byte: 0, end_byte: 0, flags: 0, indent: 0, align: 0, extra: 0 }
    }

    pub open spec fn image(self) -> bool {
        (self.flags / 8) % 2 == 1
    }

    pub open spec fn paragraph_end(self) -> bool {
        (self.flags / 32) % 2 == 1
    }

    pub open spec fn page_break_before(self) -> bool {
        (self.flags / 16) % 2 == 1
    }

    pub open spec fn heading(self) -> bool {
        (self.flags / 4) % 2 == 1
    }

    pub open spec fn gap(self) -> u8 {
        self.align / 16
    }

    pub fn is_image(&self) -> (b: bool)
        ensures
            b == self.image(),
    {
        proof {
            lemma_byte_bits(self.flags);
        }
        self.flags & Self::FLAG_IMAGE != 0
    }

    pub fn is_paragraph_end(&self) -> (b: bool)
        ensures
            b == self.paragraph_end(),
    {
        proof {
            lemma_byte_bits(self.flags);
        }
        self.flags & Self::FLAG_PARAGRAPH_END != 0
    }

    pub fn is_page_break_before(&self) -> (b: bool)
        ensures
            b == self.page_break_before(),
    {
        proof {
            lemma_byte_bits(self.flags);
        }
        self.flags & Self::FLAG_PAGE_BREAK_BEFORE != 0
    }

    pub fn is_heading(&self) -> (b: bool)
        ensures
            b == self.heading(),
    {
        proof {
            lemma_byte_bits(self.flags);
        }
        self.flags & Self::FLAG_HEADING != 0
    }

    /// Left indent levels.
    pub fn left_levels(&self) -> (n: u8)
        ensures
            n == self.indent % 16,
    {
        proof {
            lemma_byte_bits(self.indent);
        }
        self.indent & Self::LEFT_MASK
    }

    /// First-line indent in quarter-em.
    pub fn first_indent_qem(&self) -> (n: u8)
        ensures
            n == self.indent / 16,
    {
        proof {
            lemma_byte_bits(self.indent);
        }
        self.indent >> 4
    }

    /// Alignment code.
    pub fn align(&self) -> (n: u8)
        ensures
            n == self.align % 4,
    {
        proof {
            lemma_byte_bits(self.align);
        }
        self.align & Self::ALIGN_MASK
    }

    /// Space above in quarter-em.
    pub fn gap_qem(&self) -> (n: u8)
        ensures
            n == self.gap(),
    {
        proof {
            lemma_byte_bits(self.align);
        }
        self.align >> 4
    }

    pub fn starts_underline(&self) -> (b: bool)
        ensures
            b == ((self.align / 4) % 2 == 1),
    {
        proof {
            lemma_byte_bits(self.align);
        }
        self.align & Self::START_UNDERLINE != 0
    }

    pub fn starts_strike(&self) -> (b: bool)
        ensures
            b == ((self.align / 8) % 2 == 1),
    {
        proof {
            lemma_byte_bits(self.align);
        }
        self.align & Self::START_STRIKE != 0
    }

    /// Heading tier bits.
    pub fn hlevel(&self) -> (n: u8)
        ensures
            n == (self.flags / 64) * 64,
    {
        proof {
            lemma_byte_bits(self.flags);
        }
        self.flags & Self::HLEVEL_MASK
    }

    /// Whether the renderer may spread the spare of `extra` over the gaps.
    pub fn may_justify(&self) -> (b: bool)
        ensures
            b == (!self.paragraph_end() && !self.heading() && !self.image()),
    {
        !self.is_paragraph_end() && !self.is_heading() && !self.is_image()
    }

    /// The `indent` byte: left levels and first-line indent, each at most 15.
    pub fn pack_indent(left: u8, first_qem: u8) -> (b: u8)
        ensures
            b == nibbles(min15(left), min15(first_qem)),
    {
        let lo: u8 = if left < Self::LEFT_MASK {
            left
        } else {
            Self::LEFT_MASK
        };
        let hi: u8 = if first_qem < Self::NIBBLE_MAX {
            first_qem
        } else {
            Self::NIBBLE_MAX
        };
        proof {
            lemma_nibbles(lo, hi);
        }
        lo | (hi << 4)
    }

    /// The `align` byte: alignment, decorations at the line's first byte and
    /// the gap above, at most 15.
    pub fn pack_align(align: Align, gap_qem: u8, style: Style) -> (b: u8)
        ensures
            b == nibbles(align_bits(align, style), min15(gap_qem)),
    {
        let mut lo: u8 = align.code();
        if style.underline {
            lo = lo + Self::START_UNDERLINE;
        }
        if style.strike {
            lo = lo + Self::START_STRIKE;
        }
        let hi: u8 = if gap_qem < Self::NIBBLE_MAX {
            gap_qem
        } else {
            Self::NIBBLE_MAX
        };
        proof {
            lemma_nibbles(lo, hi);
        }
        lo | (hi << 4)
    }

    /// The style bits of a line whose first byte is drawn in `style`: bold,
    /// italic and the heading tier.
    pub fn style_flags(style: Style) -> (f: u8)
        ensures
            f == style_flag_bits(style),
    {
        let mut f: u8 = 0;
        if style.bold {
            f = f + Self::FLAG_BOLD;
        }
        if style.italic {
            f = f + Self::FLAG_ITALIC;
        }
        if style.heading != 0 {
            f = f + Self::FLAG_HEADING;
            f = f + match style.heading {
                1 => Self::HLEVEL_H1,
                2 => Self::HLEVEL_H2,
                3 => Self::HLEVEL_H3,
                _ => Self::HLEVEL_H4,
            };
        }
        f
    }

    /// The inline style in force at the line's first byte.
    pub open spec fn spec_start_style(self) -> Style {
        let tier = (self.flags / 64) * 64;
        Style {
            bold: self.flags % 2 == 1,
            italic: (self.flags / 2) % 2 == 1,
            underline: (self.align / 4) % 2 == 1,
            strike: (self.align / 8) % 2 == 1,
            heading: if !self.heading() {
                0
            } else if tier == 128 {
                1
            } else if tier == 64 {
                2
            } else if tier == 0 {
                3
            } else {
                4
            },
        }
    }

    /// The inline style in force at the line's first byte; the renderer
    /// seeds its decoder with it.
    pub fn start_style(&self) -> (s: Style)
        ensures
            s == self.spec_start_style(),
    {
        let heading: u8 = if self.is_heading() {
            let tier: u8 = self.hlevel();
            if tier == Self::HLEVEL_H1 {
                1
            } else if tier == Self::HLEVEL_H2 {
                2
            } else if tier == Self::HLEVEL_H3 {
                3
            } else {
                4
            }
        } else {
            0
        };
        proof {
            lemma_byte_bits(self.flags);
        }
        Style {
            bold: self.flags & Self::FLAG_BOLD != 0,
            italic: self.flags & Self::FLAG_ITALIC != 0,
            underline: self.starts_underline(),
            strike: self.starts_strike(),
            heading,
        }
    }

    pub open spec fn spec_record(self) -> LineRecord {
        LineRecord {
            start_byte: self.start_byte,
            end_byte: self.end_byte,
            flags: self.flags,
            indent: self.indent,
            align: self.align,
            extra: self.extra,
        }
    }

    pub open spec fn of_record(r: LineRecord) -> LineLayout {
        LineLayout {
            start_byte: r.start_byte,
            end_byte: r.end_byte,
            flags: r.flags,
            indent: r.indent,
            align: r.align,
            extra: r.extra,
        }
    }

    pub fn to_record(&self) -> (r: LineRecord)
        ensures
            r == self.spec_record(),
    {
        LineRecord {
            start_byte: self.start_byte,
            end_byte: self.end_byte,
            flags: self.flags,
            indent: self.indent,
            align: self.align,
            extra: self.extra,
        }
    }

    pub fn from_record(r: &LineRecord) -> (l: LineLayout)
        ensures
            l == LineLayout::of_record(*r),
    {
        LineLayout {
            start_byte: r.start_byte,
            end_byte: r.end_byte,
            flags: r.flags,
            indent: r.indent,
            align: r.align,
            extra: r.extra,
        }
    }
}

/// Storing a page or a line and reading it back changes nothing.
pub proof fn law_records_round_trip(p: PageLayout, l: LineLayout)
    ensures
        PageLayout::of_record(p.spec_record()) == p,
        LineLayout::of_record(l.spec_record()) == l,
{
}

/// A line gives back the style it was packed from, with h5 and h6 read as
/// h4, and the other bits of its flags do not disturb it.
pub proof fn law_start_style_round_trip(l: LineLayout, s: Style, a: Align, gap: u8, others: int)
    requires
        0 <= others < 8,
        l.flags == style_flag_bits(s) + 8 * others,
        l.align == nibbles(align_bits(a, s), min15(gap)),
    ensures
        l.spec_start_style() == (Style {
            heading: if s.heading < 4 {
                s.heading
            } else {
                4
            },
            ..s
        }),
        l.align % 4 == markup::align_code(a),
        l.gap() == min15(gap),
{
}

/// A packed indent byte gives back both of its parts, each capped at 15.
pub proof fn law_indent_round_trip(left: u8, first_qem: u8)
    ensures
        nibbles(min15(left), min15(first_qem)) % 16 == min15(left),
        nibbles(min15(left), min15(first_qem)) / 16 == min15(first_qem),
{
}

/// Whether a layout stays within the per-chapter caps.
pub fn fits_in_caps(pages: usize, lines: usize) -> (ok: bool)
    ensures
        ok == (pages <= MAX_PAGES && lines <= MAX_LINES_PER_CHAPTER),
{
    pages <= MAX_PAGES && lines <= MAX_LINES_PER_CHAPTER
}

} // verus!
