//! Values that the chapter markup carries: inline style, block properties and
//! image references.

use crate::layout::scan::MARKER;
use vstd::prelude::*;

verus! {

/// Inline style of a run of text. `heading` is 0 for body text, 1 to 6 for
/// the heading level.
#[derive(Clone, Copy, Debug, PartialEq, Eq, Structural)]
pub struct Style {
    pub bold: bool,
    pub italic: bool,
    pub underline: bool,
    pub strike: bool,
    pub heading: u8,
}

/// Low nibble of a packed style: one bit per inline attribute.
pub open spec fn style_bits(s: Style) -> int {
    (if s.bold { 1int } else { 0 }) + (if s.italic { 2int } else { 0 }) + (if s.underline {
        4int
    } else {
        0
    }) + (if s.strike { 8int } else { 0 })
}

/// The byte that `Style::pack` gives for `s`.
pub open spec fn packed_style(s: Style) -> int {
    style_bits(s) + 16 * (if s.heading < 15 { s.heading as int } else { 15 })
}

/// The style that the byte `b` stands for.
pub open spec fn unpacked_style(b: u8) -> Style {
    Style {
        bold: b % 2 == 1,
        italic: (b / 2) % 2 == 1,
        underline: (b / 4) % 2 == 1,
        strike: (b / 8) % 2 == 1,
        heading: b / 16,
    }
}

impl Style {
    pub open spec fn spec_plain() -> Style {
        Style { bold: false, italic: false, underline: false, strike: false, heading: 0 }
    }

    /// Body text without any attribute.
    pub fn plain() -> (s: Style)
        ensures
            s == Style::spec_plain(),
    {
        Style { bold: false, italic: false, underline: false, strike: false, heading: 0 }
    }

    /// One byte for the whole style: the attributes in the low nibble, the
    /// heading level (at most 15) in the high one.
    pub fn pack(self) -> (b: u8)
        ensures
            b == packed_style(self),
    {
        let mut b: u8 = if self.heading < 15 { self.heading * 16 } else { 240 };
        if self.bold {
            b = b + 1;
        }
        if self.italic {
            b = b + 2;
        }
        if self.underline {
            b = b + 4;
        }
        if self.strike {
            b = b + 8;
        }
        b
    }

    /// The style a packed byte stands for.
    pub fn unpack(b: u8) -> (s: Style)
        ensures
            s == unpacked_style(b),
    {
        Style {
            bold: b % 2 == 1,
            italic: (b / 2) % 2 == 1,
            underline: (b / 4) % 2 == 1,
            strike: (b / 8) % 2 == 1,
            heading: b / 16,
        }
    }
}

/// Unpacking gives back what was packed, for every heading level that the
/// high nibble can hold.
pub proof fn law_style_round_trip(s: Style)
    requires
        s.heading <= 15,
    ensures
        unpacked_style(packed_style(s) as u8) == s,
{
    let b = packed_style(s);
    assert(0 <= style_bits(s) < 16);
    assert(b / 16 == s.heading);
    assert(b % 16 == style_bits(s));
}

/// Alignment of a block. `Default` honours the reader's setting.
#[derive(Clone, Copy, Debug, PartialEq, Eq, Structural)]
pub enum Align {
    Default,
    Left,
    Center,
    Right,
}

/// The two-bit code of an alignment.
pub open spec fn align_code(a: Align) -> int {
    match a {
        Align::Default => 0,
        Align::Left => 1,
        Align::Center => 2,
        Align::Right => 3,
    }
}

impl Align {
    pub fn code(self) -> (c: u8)
        ensures
            c == align_code(self),
    {
        match self {
            Align::Default => 0,
            Align::Left => 1,
            Align::Center => 2,
            Align::Right => 3,
        }
    }
}

/// Properties of a block of text: alignment, left indent levels, first-line
/// indent and space above, the last two in quarter-em.
#[derive(Clone, Copy, Debug, PartialEq, Eq, Structural)]
pub struct BlockProps {
    pub align: Align,
    pub left: u8,
    pub text_indent_qem: u8,
    pub space_above_qem: u8,
}

impl BlockProps {
    pub open spec fn spec_default() -> BlockProps {
        BlockProps { align: Align::Default, left: 0, text_indent_qem: 0, space_above_qem: 0 }
    }
}

/// Bytes of a block record: marker, tag, alignment and levels, first-line indent,
/// space above.
pub const BLOCK_RECORD_LEN: usize = 5;

/// The tag of a block record.
pub const BLOCK_RECORD: u8 = 0x4B;

pub open spec fn at_most(n: u8, most: int) -> int {
    if n < most {
        n as int
    } else {
        most
    }
}

/// The record of a block. What it says is in bytes from 0x80 on, so that none of
/// them is taken for a marker; levels are kept up to 31, indent and space up to
/// 127.
pub open spec fn block_bytes(p: BlockProps) -> Seq<u8> {
    seq![
        MARKER,
        BLOCK_RECORD,
        (0x80 + align_code(p.align) + 4 * at_most(p.left, 31)) as u8,
        (0x80 + at_most(p.text_indent_qem, 127)) as u8,
        (0x80 + at_most(p.space_above_qem, 127)) as u8,
    ]
}

/// The alignment of a two-bit code.
pub open spec fn align_of(code: int) -> Align {
    if code == 1 {
        Align::Left
    } else if code == 2 {
        Align::Center
    } else if code == 3 {
        Align::Right
    } else {
        Align::Default
    }
}

/// The block record at `i`, if there is a whole one.
pub open spec fn block_at(buf: Seq<u8>, i: int) -> Option<BlockProps> {
    if i + BLOCK_RECORD_LEN > buf.len() || buf[i] != MARKER || buf[i + 1] != BLOCK_RECORD
        || buf[i + 2] < 0x80 || buf[i + 3] < 0x80 || buf[i + 4] < 0x80 {
        None
    } else {
        let b = buf[i + 2] - 0x80;
        Some(
            BlockProps {
                align: align_of(b % 4),
                left: (b / 4) as u8,
                text_indent_qem: (buf[i + 3] - 0x80) as u8,
                space_above_qem: (buf[i + 4] - 0x80) as u8,
            },
        )
    }
}

fn capped(n: u8, most: u8) -> (r: u8)
    ensures
        r == at_most(n, most as int),
{
    if n < most {
        n
    } else {
        most
    }
}

impl BlockProps {
    /// The block's record.
    pub fn encode(&self) -> (r: [u8; 5])
        ensures
            r@ == block_bytes(*self),
    {
        let r: [u8; 5] = [
            MARKER,
            BLOCK_RECORD,
            0x80 + self.align.code() + 4 * capped(self.left, 31),
            0x80 + capped(self.text_indent_qem, 127),
            0x80 + capped(self.space_above_qem, 127),
        ];
        proof {
            assert(r@ =~= block_bytes(*self));
        }
        r
    }

    /// The block record at `i`, if there is a whole one.
    pub fn decode(buf: &[u8], i: usize) -> (r: Option<BlockProps>)
        requires
            i <= buf@.len(),
        ensures
            r == block_at(buf@, i as int),
    {
        let len: usize = buf.len();
        if len - i < BLOCK_RECORD_LEN || buf[i] != MARKER || buf[i + 1] != BLOCK_RECORD || buf[i
            + 2] < 0x80 || buf[i + 3] < 0x80 || buf[i + 4] < 0x80 {
            return None;
        }
        let b: u8 = buf[i + 2] - 0x80;
        let code: u8 = b % 4;
        Some(
            BlockProps {
                align: if code == 1 {
                    Align::Left
                } else if code == 2 {
                    Align::Center
                } else if code == 3 {
                    Align::Right
                } else {
                    Align::Default
                },
                left: b / 4,
                text_indent_qem: buf[i + 3] - 0x80,
                space_above_qem: buf[i + 4] - 0x80,
            },
        )
    }
}

/// A block record reads back as the block that it was made of, wherever it
/// stands, as far as its bytes can hold it.
pub proof fn law_block_records_read_back(p: BlockProps, buf: Seq<u8>, i: int)
    requires
        p.left <= 31,
        p.text_indent_qem <= 127,
        p.space_above_qem <= 127,
        0 <= i,
        i + BLOCK_RECORD_LEN <= buf.len(),
        buf.subrange(i, i + BLOCK_RECORD_LEN) == block_bytes(p),
    ensures
        block_at(buf, i) == Some(p),
{
    let r = block_bytes(p);
    assert forall|k: int| 0 <= k < 5 implies #[trigger] buf[i + k] == r[k] by {
        assert(buf.subrange(i, i + BLOCK_RECORD_LEN)[k] == buf[i + k]);
    }
    assert(buf[i + 0] == r[0]);
    assert(buf[i + 1] == r[1]);
    assert(buf[i + 2] == r[2]);
    assert(buf[i + 3] == r[3]);
    assert(buf[i + 4] == r[4]);
}

impl Default for BlockProps {
    fn default() -> (b: BlockProps)
        ensures
            b == BlockProps::spec_default(),
    {
        BlockProps { align: Align::Default, left: 0, text_indent_qem: 0, space_above_qem: 0 }
    }
}

/// A place in a chapter that outlives a change of its stored form: the word of
/// a paragraph.
#[derive(Clone, Copy, Debug, PartialEq, Eq, Structural)]
pub struct Anchor {
    pub para: u32,
    pub word: u32,
}

} // verus!
