//! Scanner for the chapter byte stream.
//!
//! Walks the raw bytes and gives a flat sequence of `Token`s with byte spans
//! and the text style in force. Style markers are consumed inside; a block
//! marker gives a `BlockChanged` token when it changes something. Contiguous
//! bytes of one style that are neither white space nor markers are one
//! `Word`; a non-breaking space or a soft hyphen splits a word.
//!
//! The tags of the markers are a format of this library. The scanner follows the
//! markers for alignment, indent and captions; to it the mark of a block record,
//! which carries a whole set of properties, is an unknown one.

use crate::utf8;
use vstd::prelude::*;

verus! {

// ── marker bytes ──────────────────────────────────────────────────

/// Introduces a marker; the next byte is its tag.
pub const MARKER: u8 = 0x01;

pub const BOLD_ON: u8 = 0x42;

pub const BOLD_OFF: u8 = 0x62;

pub const ITALIC_ON: u8 = 0x49;

pub const ITALIC_OFF: u8 = 0x69;

pub const UNDERLINE_ON: u8 = 0x55;

pub const UNDERLINE_OFF: u8 = 0x75;

pub const STRIKE_ON: u8 = 0x53;

pub const STRIKE_OFF: u8 = 0x73;

/// heading marker without a level
pub const HEADING_ON: u8 = 0x48;

pub const HEADING_OFF: u8 = 0x68;

pub const H1_ON: u8 = 0x31;

pub const H2_ON: u8 = 0x32;

pub const H3_ON: u8 = 0x33;

pub const H4_ON: u8 = 0x34;

pub const H5_ON: u8 = 0x35;

pub const H6_ON: u8 = 0x36;

pub const H1_OFF: u8 = 0x21;

pub const H2_OFF: u8 = 0x22;

pub const H3_OFF: u8 = 0x23;

pub const H4_OFF: u8 = 0x24;

pub const H5_OFF: u8 = 0x25;

pub const H6_OFF: u8 = 0x26;

pub const QUOTE_ON: u8 = 0x51;

pub const QUOTE_OFF: u8 = 0x71;

pub const FIGCAPTION_ON: u8 = 0x46;

pub const FIGCAPTION_OFF: u8 = 0x66;

pub const ALIGN_LEFT: u8 = 0x4C;

pub const ALIGN_CENTER: u8 = 0x43;

pub const ALIGN_RIGHT: u8 = 0x52;

pub const ALIGN_JUSTIFY: u8 = 0x4A;

pub const ALIGN_RESET: u8 = 0x41;

/// thematic break
pub const BREAK: u8 = 0x2D;

pub const PAGE_BREAK: u8 = 0x50;

pub const IMG_REF: u8 = 0x47;

/// Bytes of an image record before its alt text and path: marker, tag,
/// flags, width and height (low byte first), alt length, path length.
pub const IMG_HEADER_LEN: usize = 9;

// ── tokens ────────────────────────────────────────────────────────

/// Font-relevant style of a token.
#[derive(Clone, Copy, Debug, PartialEq, Eq, Structural)]
pub struct TextStyle {
    pub bold: bool,
    pub italic: bool,
    pub heading: bool,
    /// 1 to 6 when `heading`, else 0
    pub hlevel: u8,
    pub underline: bool,
    pub strike: bool,
}

impl TextStyle {
    pub open spec fn spec_plain() -> TextStyle {
        TextStyle {
            bold: false,
            italic: false,
            heading: false,
            hlevel: 0,
            underline: false,
            strike: false,
        }
    }

    /// Whether the run is a heading that is set in the bold body face.
    pub fn is_h4_h6_bold(&self) -> (b: bool)
        ensures
            b == (self.heading && self.hlevel >= 4),
    {
        self.heading && self.hlevel >= 4
    }
}

impl Default for TextStyle {
    fn default() -> (s: TextStyle)
        ensures
            s == TextStyle::spec_plain(),
    {
        TextStyle {
            bold: false,
            italic: false,
            heading: false,
            hlevel: 0,
            underline: false,
            strike: false,
        }
    }
}

/// Alignment of a block, as its markers set it.
#[derive(Clone, Copy, Debug, PartialEq, Eq, Structural)]
pub enum BlockAlign {
    Default,
    Left,
    Center,
    Right,
    Justify,
}

impl Default for BlockAlign {
    fn default() -> (a: BlockAlign)
        ensures
            a == BlockAlign::Default,
    {
        BlockAlign::Default
    }
}

/// Block-level state, apart from the inline style.
#[derive(Clone, Copy, Debug, PartialEq, Eq, Structural)]
pub struct BlockState {
    pub align: BlockAlign,
    pub indent: u8,
    pub figcaption: bool,
}

impl BlockState {
    pub open spec fn spec_plain() -> BlockState {
        BlockState { align: BlockAlign::Default, indent: 0, figcaption: false }
    }
}

impl Default for BlockState {
    fn default() -> (b: BlockState)
        ensures
            b == BlockState::spec_plain(),
    {
        BlockState { align: BlockAlign::Default, indent: 0, figcaption: false }
    }
}

/// An image record. Offsets count from the start of the chapter.
#[derive(Clone, Copy, Debug, PartialEq, Eq, Structural)]
pub struct ImageRef {
    /// the leading marker byte
    pub start: u32,
    pub alt_start: u32,
    pub path_start: u32,
    /// one past the last path byte
    pub end: u32,
    pub flags: u8,
    pub attr_w: u16,
    pub attr_h: u16,
    pub alt_len: u8,
    pub path_len: u8,
}

#[derive(Clone, Copy, Debug, PartialEq, Eq, Structural)]
pub enum Token {
    /// run of printable bytes of one style
    Word { start: u32, end: u32, style: TextStyle },
    /// one ASCII space
    Space { start: u32, end: u32, style: TextStyle },
    /// U+00A0
    Nbsp { start: u32, end: u32, style: TextStyle },
    /// U+00AD
    SoftHyphen { start: u32, end: u32, style: TextStyle },
    /// one newline
    HardBreak { start: u32, end: u32 },
    /// two newlines or more
    ParagraphBreak { start: u32, end: u32 },
    PageBreak { start: u32, end: u32 },
    ThematicBreak { start: u32, end: u32 },
    Image(ImageRef),
    /// the block state changed; `at` is one past the marker
    BlockChanged { at: u32, block: BlockState },
    /// a marker with an unknown tag, or a damaged image record
    UnknownMarker { start: u32, end: u32, tag: u8 },
}

// ── what the stream means ─────────────────────────────────────────

/// The style after the inline marker `tag`; `None` for any other tag.
pub open spec fn style_after(tag: u8, s: TextStyle) -> Option<TextStyle> {
    if tag == BOLD_ON {
        Some(TextStyle { bold: true, ..s })
    } else if tag == BOLD_OFF {
        Some(TextStyle { bold: false, ..s })
    } else if tag == ITALIC_ON {
        Some(TextStyle { italic: true, ..s })
    } else if tag == ITALIC_OFF {
        Some(TextStyle { italic: false, ..s })
    } else if tag == UNDERLINE_ON {
        Some(TextStyle { underline: true, ..s })
    } else if tag == UNDERLINE_OFF {
        Some(TextStyle { underline: false, ..s })
    } else if tag == STRIKE_ON {
        Some(TextStyle { strike: true, ..s })
    } else if tag == STRIKE_OFF {
        Some(TextStyle { strike: false, ..s })
    } else if tag == HEADING_ON {
        Some(TextStyle { heading: true, hlevel: 2, ..s })
    } else if H1_ON <= tag <= H6_ON {
        Some(TextStyle { heading: true, hlevel: (tag - H1_ON + 1) as u8, ..s })
    } else if tag == HEADING_OFF || H1_OFF <= tag <= H6_OFF {
        Some(TextStyle { heading: false, hlevel: 0, ..s })
    } else {
        None
    }
}

/// The block state after the block marker `tag`; `None` for any other tag.
pub open spec fn block_after(tag: u8, b: BlockState) -> Option<BlockState> {
    if tag == QUOTE_ON {
        Some(
            BlockState {
                indent: if b.indent < 255 {
                    (b.indent + 1) as u8
                } else {
                    255
                },
                ..b
            },
        )
    } else if tag == QUOTE_OFF {
        Some(
            BlockState {
                indent: if b.indent > 0 {
                    (b.indent - 1) as u8
                } else {
                    0
                },
                ..b
            },
        )
    } else if tag == ALIGN_LEFT {
        Some(BlockState { align: BlockAlign::Left, ..b })
    } else if tag == ALIGN_CENTER {
        Some(BlockState { align: BlockAlign::Center, ..b })
    } else if tag == ALIGN_RIGHT {
        Some(BlockState { align: BlockAlign::Right, ..b })
    } else if tag == ALIGN_JUSTIFY {
        Some(BlockState { align: BlockAlign::Justify, ..b })
    } else if tag == ALIGN_RESET {
        Some(BlockState { align: BlockAlign::Default, ..b })
    } else if tag == FIGCAPTION_ON {
        Some(BlockState { figcaption: true, ..b })
    } else if tag == FIGCAPTION_OFF {
        Some(BlockState { figcaption: false, ..b })
    } else {
        None
    }
}

/// The image record at `pos`; `None` if it is cut off or has no path.
pub open spec fn image_at(buf: Seq<u8>, pos: int) -> Option<ImageRef> {
    if pos + 9 > buf.len() {
        None
    } else {
        let alt_len = buf[pos + 7];
        let path_len = buf[pos + 8];
        let path_start = pos + 9 + alt_len;
        let end = path_start + path_len;
        if end > buf.len() || path_len == 0 {
            None
        } else {
            Some(
                ImageRef {
                    start: pos as u32,
                    alt_start: (pos + 9) as u32,
                    path_start: path_start as u32,
                    end: end as u32,
                    flags: buf[pos + 2],
                    attr_w: (buf[pos + 3] + 256 * buf[pos + 4]) as u16,
                    attr_h: (buf[pos + 5] + 256 * buf[pos + 6]) as u16,
                    alt_len,
                    path_len,
                },
            )
        }
    }
}

/// Where the run of newlines from `p` ends.
pub open spec fn newlines_end(buf: Seq<u8>, p: int) -> int
    decreases buf.len() - p,
{
    if p < buf.len() && buf[p] == 0x0A {
        newlines_end(buf, p + 1)
    } else {
        p
    }
}

pub open spec fn is_nbsp(cp: int) -> bool {
    cp == 0xA0
}

pub open spec fn is_shy(cp: int) -> bool {
    cp == 0xAD
}

/// A byte that ends a word: marker, control byte or space.
pub open spec fn ends_word(c: u8) -> bool {
    c == MARKER || c <= 0x20
}

/// Where a word that runs on at `p` ends.
pub open spec fn word_end(buf: Seq<u8>, p: int) -> int
    decreases buf.len() - p,
{
    if p < 0 || p >= buf.len() || ends_word(buf[p]) {
        p
    } else if buf[p] >= 0xC0 {
        let (cp, len) = utf8::utf8_at(buf, p);
        if is_nbsp(cp) || is_shy(cp) || len < 1 || p + len > buf.len() {
            p
        } else {
            word_end(buf, p + len)
        }
    } else {
        word_end(buf, p + 1)
    }
}

/// Where the scanner is and what is in force there.
pub struct ScanState {
    pub pos: int,
    pub style: TextStyle,
    pub block: BlockState,
}

/// What the marker at `s.pos` does: the token it gives, if any, and the state
/// behind it.
pub open spec fn marker_step(buf: Seq<u8>, s: ScanState) -> (Option<Token>, ScanState) {
    let tag = buf[s.pos + 1];
    let start = s.pos as u32;
    let end = (s.pos + 2) as u32;
    let behind = ScanState { pos: s.pos + 2, ..s };
    if tag == IMG_REF {
        match image_at(buf, s.pos) {
            Some(img) => (Some(Token::Image(img)), ScanState { pos: img.end as int, ..s }),
            None => (Some(Token::UnknownMarker { start, end, tag }), behind),
        }
    } else if tag == PAGE_BREAK {
        (Some(Token::PageBreak { start, end }), behind)
    } else if tag == BREAK {
        (Some(Token::ThematicBreak { start, end }), behind)
    } else if style_after(tag, s.style) is Some {
        (None, ScanState { style: style_after(tag, s.style)->0, ..behind })
    } else if block_after(tag, s.block) is Some {
        let block = block_after(tag, s.block)->0;
        (
            if block != s.block {
                Some(Token::BlockChanged { at: end, block })
            } else {
                None
            },
            ScanState { block, ..behind },
        )
    } else {
        (Some(Token::UnknownMarker { start, end, tag }), behind)
    }
}

/// What the bytes at `s.pos` give: a token, or nothing but a step forward.
pub open spec fn scan_step(buf: Seq<u8>, s: ScanState) -> (Option<Token>, ScanState) {
    let b = buf[s.pos];
    let start = s.pos as u32;
    let style = s.style;
    if b == MARKER {
        if s.pos + 1 >= buf.len() {
            (None, ScanState { pos: s.pos + 1, ..s })
        } else {
            marker_step(buf, s)
        }
    } else if b == 0x0A {
        let end = newlines_end(buf, s.pos);
        (
            Some(
                if end > s.pos + 1 {
                    Token::ParagraphBreak { start, end: end as u32 }
                } else {
                    Token::HardBreak { start, end: end as u32 }
                },
            ),
            ScanState { pos: end, ..s },
        )
    } else if b < 0x20 {
        (None, ScanState { pos: s.pos + 1, ..s })
    } else if b == 0x20 {
        (
            Some(Token::Space { start, end: (s.pos + 1) as u32, style }),
            ScanState { pos: s.pos + 1, ..s },
        )
    } else if b >= 0xC0 {
        let (cp, len) = utf8::utf8_at(buf, s.pos);
        let end = s.pos + len;
        if is_nbsp(cp) {
            (Some(Token::Nbsp { start, end: end as u32, style }), ScanState { pos: end, ..s })
        } else if is_shy(cp) {
            (Some(Token::SoftHyphen { start, end: end as u32, style }), ScanState { pos: end, ..s })
        } else {
            let e = word_end(buf, end);
            (Some(Token::Word { start, end: e as u32, style }), ScanState { pos: e, ..s })
        }
    } else if b >= 0x80 {
        (None, ScanState { pos: s.pos + 1, ..s })
    } else {
        let e = word_end(buf, s.pos + 1);
        (Some(Token::Word { start, end: e as u32, style }), ScanState { pos: e, ..s })
    }
}

/// The next token from `s` and the state behind it; `None` at the end.
pub open spec fn next_token(buf: Seq<u8>, s: ScanState) -> (Option<Token>, ScanState)
    decreases buf.len() - s.pos,
{
    if s.pos < 0 || s.pos >= buf.len() {
        (None, s)
    } else {
        let (tok, after) = scan_step(buf, s);
        if tok is Some || after.pos <= s.pos || after.pos > buf.len() {
            (tok, after)
        } else {
            next_token(buf, after)
        }
    }
}

// ── progress ──────────────────────────────────────────────────────

pub proof fn lemma_newlines_end(buf: Seq<u8>, p: int)
    requires
        0 <= p <= buf.len(),
    ensures
        p <= newlines_end(buf, p) <= buf.len(),
        forall|j: int| p <= j < newlines_end(buf, p) ==> #[trigger] buf[j] == 0x0A,
    decreases buf.len() - p,
{
    if p < buf.len() && buf[p] == 0x0A {
        lemma_newlines_end(buf, p + 1);
    }
}

pub proof fn lemma_word_end(buf: Seq<u8>, p: int)
    requires
        0 <= p <= buf.len(),
    ensures
        p <= word_end(buf, p) <= buf.len(),
    decreases buf.len() - p,
{
    if p < buf.len() && !ends_word(buf[p]) {
        if buf[p] >= 0xC0 {
            utf8::lemma_utf8_len(buf, p);
            let (cp, len) = utf8::utf8_at(buf, p);
            if !is_nbsp(cp) && !is_shy(cp) {
                lemma_word_end(buf, p + len);
            }
        } else {
            lemma_word_end(buf, p + 1);
        }
    }
}

/// Every step moves forward and stays within the buffer.
pub proof fn lemma_scan_step(buf: Seq<u8>, s: ScanState)
    requires
        0 <= s.pos < buf.len() <= u32::MAX,
    ensures
        s.pos < scan_step(buf, s).1.pos <= buf.len(),
{
    let b = buf[s.pos];
    if b == 0x0A {
        lemma_newlines_end(buf, s.pos);
        lemma_newlines_end(buf, s.pos + 1);
    } else if b >= 0xC0 {
        utf8::lemma_utf8_len(buf, s.pos);
        lemma_word_end(buf, s.pos + utf8::utf8_at(buf, s.pos).1);
    } else if b > 0x20 && b < 0x80 {
        lemma_word_end(buf, s.pos + 1);
    }
}

// ── scanner ───────────────────────────────────────────────────────

pub struct MarkupScanner<'a> {
    pub buf: &'a [u8],
    pub pos: usize,
    pub style: TextStyle,
    pub block: BlockState,
}

impl<'a> MarkupScanner<'a> {
    /// Offsets fit 32 bits and the position lies in the buffer.
    pub open spec fn wf(self) -> bool {
        &&& self.buf@.len() <= u32::MAX
        &&& self.pos <= self.buf@.len()
    }

    pub open spec fn state(self) -> ScanState {
        ScanState { pos: self.pos as int, style: self.style, block: self.block }
    }

    /// A scanner at the start of `buf`.
    pub fn new(buf: &'a [u8]) -> (s: MarkupScanner<'a>)
        requires
            buf@.len() <= u32::MAX,
        ensures
            s.wf(),
            s.buf@ == buf@,
            s.state() == (ScanState {
                pos: 0,
                style: TextStyle::spec_plain(),
                block: BlockState::spec_plain(),
            }),
    {
        MarkupScanner { buf, pos: 0, style: TextStyle::default(), block: BlockState::default() }
    }

    /// A scanner that goes on in the middle of `buf`.
    pub fn resume(buf: &'a [u8], pos: usize, style: TextStyle, block: BlockState) -> (s:
        MarkupScanner<'a>)
        requires
            buf@.len() <= u32::MAX,
            pos <= buf@.len(),
        ensures
            s.wf(),
            s.buf@ == buf@,
            s.state() == (ScanState { pos: pos as int, style, block }),
    {
        MarkupScanner { buf, pos, style, block }
    }

    pub fn position(&self) -> (p: u32)
        requires
            self.wf(),
        ensures
            p == self.pos,
    {
        self.pos as u32
    }

    pub fn buffer_len(&self) -> (n: u32)
        requires
            self.wf(),
        ensures
            n == self.buf@.len(),
    {
        self.buf.len() as u32
    }

    pub fn text_style(&self) -> (s: TextStyle)
        ensures
            s == self.style,
    {
        self.style
    }

    pub fn block_state(&self) -> (b: BlockState)
        ensures
            b == self.block,
    {
        self.block
    }

    /// Whether the whole buffer has been consumed.
    pub fn is_eof(&self) -> (b: bool)
        requires
            self.wf(),
        ensures
            b == (self.pos == self.buf@.len()),
    {
        self.pos >= self.buf.len()
    }

    /// Pull the next token; `None` once the buffer is exhausted, and from
    /// then on.
    pub fn next(&mut self) -> (tok: Option<Token>)
        requires
            old(self).wf(),
        ensures
            final(self).wf(),
            final(self).buf@ == old(self).buf@,
            (tok, final(self).state()) == next_token(old(self).buf@, old(self).state()),
            tok is Some ==> final(self).pos > old(self).pos,
            tok is None ==> final(self).pos == final(self).buf@.len(),
    {
        while self.pos < self.buf.len()
            invariant
                self.wf(),
                self.buf@ == old(self).buf@,
                self.pos >= old(self).pos,
                next_token(self.buf@, self.state()) == next_token(
                    old(self).buf@,
                    old(self).state(),
                ),
            decreases self.buf@.len() - self.pos,
        {
            proof {
                lemma_scan_step(self.buf@, self.state());
            }
            let tok = self.step();
            if tok.is_some() {
                return tok;
            }
        }
        None
    }

    /// Consume what stands at the position: a token, or one unit of skipped
    /// bytes.
    fn step(&mut self) -> (tok: Option<Token>)
        requires
            old(self).wf(),
            old(self).pos < old(self).buf@.len(),
        ensures
            final(self).wf(),
            final(self).buf@ == old(self).buf@,
            (tok, final(self).state()) == scan_step(old(self).buf@, old(self).state()),
    {
        proof {
            lemma_scan_step(self.buf@, self.state());
        }
        let start: usize = self.pos;
        let b: u8 = self.buf[start];
        if b == MARKER {
            if start + 1 >= self.buf.len() {
                self.pos = start + 1;
                return None;
            }
            return self.consume_marker();
        }
        if b == 0x0A {
            return self.consume_newlines();
        }
        if b < 0x20 {
            self.pos = start + 1;
            return None;
        }
        if b == 0x20 {
            self.pos = start + 1;
            return Some(
                Token::Space { start: start as u32, end: self.pos as u32, style: self.style },
            );
        }
        if b >= 0xC0 {
            let (ch, len): (char, usize) = utf8::decode_utf8(self.buf, start);
            self.pos = start + len;
            if ch == '\u{00A0}' {
                return Some(
                    Token::Nbsp { start: start as u32, end: self.pos as u32, style: self.style },
                );
            }
            if ch == '\u{00AD}' {
                return Some(
                    Token::SoftHyphen {
                        start: start as u32,
                        end: self.pos as u32,
                        style: self.style,
                    },
                );
            }
            return Some(self.consume_word(start));
        }
        self.pos = start + 1;
        if b >= 0x80 {
            return None;
        }
        Some(self.consume_word(start))
    }

    fn consume_newlines(&mut self) -> (tok: Option<Token>)
        requires
            old(self).wf(),
            old(self).pos < old(self).buf@.len(),
            old(self).buf@[old(self).pos as int] == 0x0A,
        ensures
            final(self).wf(),
            final(self).buf@ == old(self).buf@,
            (tok, final(self).state()) == scan_step(old(self).buf@, old(self).state()),
    {
        let start: usize = self.pos;
        while self.pos < self.buf.len() && self.buf[self.pos] == 0x0A
            invariant
                self.wf(),
                start <= self.pos,
                self.buf@ == old(self).buf@,
                self.style == old(self).style,
                self.block == old(self).block,
                newlines_end(self.buf@, start as int) == newlines_end(
                    self.buf@,
                    self.pos as int,
                ),
            decreases self.buf@.len() - self.pos,
        {
            self.pos = self.pos + 1;
        }
        let end: usize = self.pos;
        if end - start > 1 {
            Some(Token::ParagraphBreak { start: start as u32, end: end as u32 })
        } else {
            Some(Token::HardBreak { start: start as u32, end: end as u32 })
        }
    }

    /// Extend a word that began at `start` from the position to its end.
    fn consume_word(&mut self, start: usize) -> (tok: Token)
        requires
            old(self).wf(),
            start < old(self).pos,
        ensures
            final(self).wf(),
            final(self).buf@ == old(self).buf@,
            final(self).style == old(self).style,
            final(self).block == old(self).block,
            final(self).pos == word_end(old(self).buf@, old(self).pos as int),
            tok == (Token::Word {
                start: start as u32,
                end: final(self).pos as u32,
                style: old(self).style,
            }),
    {
        let mut p: usize = self.pos;
        let ghost from = p as int;
        while p < self.buf.len()
            invariant_except_break
                word_end(self.buf@, from) == word_end(self.buf@, p as int),
            invariant
                *self == *old(self),
                self.wf(),
                p <= self.buf@.len(),
            ensures
                p == word_end(self.buf@, from),
            decreases self.buf@.len() - p,
        {
            let c: u8 = self.buf[p];
            if c == MARKER || c <= 0x20 {
                break;
            }
            if c >= 0xC0 {
                let (ch, len): (char, usize) = utf8::decode_utf8(self.buf, p);
                if ch == '\u{00A0}' || ch == '\u{00AD}' {
                    break;
                }
                p = p + len;
            } else {
                p = p + 1;
            }
        }
        self.pos = p;
        Token::Word { start: start as u32, end: p as u32, style: self.style }
    }

    /// Consume the marker at the position, which has a tag.
    fn consume_marker(&mut self) -> (tok: Option<Token>)
        requires
            old(self).wf(),
            old(self).pos + 1 < old(self).buf@.len(),
        ensures
            final(self).wf(),
            final(self).buf@ == old(self).buf@,
            (tok, final(self).state()) == marker_step(old(self).buf@, old(self).state()),
    {
        let start: usize = self.pos;
        let tag: u8 = self.buf[start + 1];
        if tag == IMG_REF {
            return self.consume_img_ref();
        }
        self.pos = start + 2;
        if tag == PAGE_BREAK {
            return Some(Token::PageBreak { start: start as u32, end: self.pos as u32 });
        }
        if tag == BREAK {
            return Some(Token::ThematicBreak { start: start as u32, end: self.pos as u32 });
        }
        if self.toggle_style(tag) {
            return None;
        }
        let prev: BlockState = self.block;
        if self.change_block(tag) {
            if self.block != prev {
                return Some(Token::BlockChanged { at: self.pos as u32, block: self.block });
            }
            return None;
        }
        Some(Token::UnknownMarker { start: start as u32, end: self.pos as u32, tag })
    }

    /// Apply an inline marker; `false` for any other tag.
    fn toggle_style(&mut self, tag: u8) -> (known: bool)
        ensures
            known == style_after(tag, old(self).style) is Some,
            *final(self) == (MarkupScanner {
                style: if known {
                    style_after(tag, old(self).style)->0
                } else {
                    old(self).style
                },
                ..*old(self)
            }),
    {
        if tag == BOLD_ON {
            self.style.bold = true;
        } else if tag == BOLD_OFF {
            self.style.bold = false;
        } else if tag == ITALIC_ON {
            self.style.italic = true;
        } else if tag == ITALIC_OFF {
            self.style.italic = false;
        } else if tag == UNDERLINE_ON {
            self.style.underline = true;
        } else if tag == UNDERLINE_OFF {
            self.style.underline = false;
        } else if tag == STRIKE_ON {
            self.style.strike = true;
        } else if tag == STRIKE_OFF {
            self.style.strike = false;
        } else if tag == HEADING_ON {
            self.style.heading = true;
            self.style.hlevel = 2;
        } else if H1_ON <= tag && tag <= H6_ON {
            self.style.heading = true;
            self.style.hlevel = tag - H1_ON + 1;
        } else if tag == HEADING_OFF || (H1_OFF <= tag && tag <= H6_OFF) {
            self.style.heading = false;
            self.style.hlevel = 0;
        } else {
            return false;
        }
        true
    }

    /// Apply a block marker; `false` for any other tag.
    fn change_block(&mut self, tag: u8) -> (known: bool)
        ensures
            known == block_after(tag, old(self).block) is Some,
            *final(self) == (MarkupScanner {
                block: if known {
                    block_after(tag, old(self).block)->0
                } else {
                    old(self).block
                },
                ..*old(self)
            }),
    {
        if tag == QUOTE_ON {
            self.block.indent = self.block.indent.saturating_add(1);
        } else if tag == QUOTE_OFF {
            self.block.indent = self.block.indent.saturating_sub(1);
        } else if tag == ALIGN_LEFT {
            self.set_align(BlockAlign::Left);
        } else if tag == ALIGN_CENTER {
            self.set_align(BlockAlign::Center);
        } else if tag == ALIGN_RIGHT {
            self.set_align(BlockAlign::Right);
        } else if tag == ALIGN_JUSTIFY {
            self.set_align(BlockAlign::Justify);
        } else if tag == ALIGN_RESET {
            self.set_align(BlockAlign::Default);
        } else if tag == FIGCAPTION_ON {
            self.block.figcaption = true;
        } else if tag == FIGCAPTION_OFF {
            self.block.figcaption = false;
        } else {
            return false;
        }
        true
    }

    fn set_align(&mut self, align: BlockAlign)
        ensures
            *final(self) == (MarkupScanner {
                block: BlockState { align, ..old(self).block },
                ..*old(self)
            }),
    {
        self.block.align = align;
    }

    /// Consume the image record at the position. Of a damaged record only
    /// the marker and the tag are consumed.
    fn consume_img_ref(&mut self) -> (tok: Option<Token>)
        requires
            old(self).wf(),
            old(self).pos + 1 < old(self).buf@.len(),
            old(self).buf@[old(self).pos + 1] == IMG_REF,
        ensures
            final(self).wf(),
            final(self).buf@ == old(self).buf@,
            (tok, final(self).state()) == marker_step(old(self).buf@, old(self).state()),
    {
        let start: usize = self.pos;
        match parse_image(self.buf, start) {
            Some(img) => {
                self.pos = img.end as usize;
                Some(Token::Image(img))
            },
            None => {
                self.pos = start + 2;
                Some(
                    Token::UnknownMarker {
                        start: start as u32,
                        end: self.pos as u32,
                        tag: IMG_REF,
                    },
                )
            },
        }
    }

    /// Copy the bytes from `pos` on into `dst`, as many as there are; how
    /// many were copied.
    pub fn read_into(&self, pos: u32, dst: &mut Vec<u8>, want: usize) -> (n: usize)
        requires
            self.wf(),
        ensures
            n == copy_len(self.buf@.len() as int, pos as int, want as int),
            final(dst)@ == self.buf@.subrange(
                clip(self.buf@.len() as int, pos as int),
                clip(self.buf@.len() as int, pos as int) + n,
            ),
    {
        dst.clear();
        let len: usize = self.buf.len();
        let from: usize = if (pos as usize) < len {
            pos as usize
        } else {
            len
        };
        let n: usize = if want < len - from {
            want
        } else {
            len - from
        };
        let mut k: usize = 0;
        while k < n
            invariant
                k <= n,
                from + n <= self.buf@.len() <= usize::MAX,
                dst@ == self.buf@.subrange(from as int, from + k),
            decreases n - k,
        {
            dst.push(self.buf[from + k]);
            proof {
                assert(dst@ =~= self.buf@.subrange(from as int, from + k + 1));
            }
            k = k + 1;
        }
        n
    }
}

/// `pos` kept within a buffer of `len` bytes.
pub open spec fn clip(len: int, pos: int) -> int {
    if pos < len {
        pos
    } else {
        len
    }
}

/// How many of `want` bytes from `pos` on a buffer of `len` bytes has.
pub open spec fn copy_len(len: int, pos: int, want: int) -> int {
    if want < len - clip(len, pos) {
        want
    } else {
        len - clip(len, pos)
    }
}

/// Parse the image record whose marker stands at `pos`.
pub fn parse_image(buf: &[u8], pos: usize) -> (img: Option<ImageRef>)
    requires
        buf@.len() <= u32::MAX,
        pos < buf@.len(),
    ensures
        img == image_at(buf@, pos as int),
        img matches Some(r) ==> pos < r.end <= buf@.len(),
{
    let left: usize = buf.len() - pos;
    if left < IMG_HEADER_LEN {
        return None;
    }
    let alt_len: u8 = buf[pos + 7];
    let path_len: u8 = buf[pos + 8];
    let need: usize = IMG_HEADER_LEN + alt_len as usize + path_len as usize;
    if need > left || path_len == 0 {
        return None;
    }
    let alt_start: usize = pos + IMG_HEADER_LEN;
    let path_start: usize = alt_start + alt_len as usize;
    Some(
        ImageRef {
            start: pos as u32,
            alt_start: alt_start as u32,
            path_start: path_start as u32,
            end: (path_start + path_len as usize) as u32,
            flags: buf[pos + 2],
            attr_w: buf[pos + 3] as u16 + 256 * (buf[pos + 4] as u16),
            attr_h: buf[pos + 5] as u16 + 256 * (buf[pos + 6] as u16),
            alt_len,
            path_len,
        },
    )
}

} // verus!
