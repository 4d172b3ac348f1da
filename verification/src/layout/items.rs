//! Knuth-Plass items: the boxes, glue and penalties that a paragraph is made
//! of, and the builder that makes them from the event stream.
//!
//! A paragraph ends at a paragraph, hard, page or thematic break, at an
//! image, at a block change after the first item, and at the end of the
//! buffer. Its first-line indent goes in as a box ahead of the first item.

use crate::layout::breaker_spec;
use crate::layout::events;
use crate::layout::events::{Event, Events, EventState};
use crate::layout::scan::ImageRef;
use crate::layout::table;
use crate::markup;
use crate::markup::{BlockProps, Style};
use crate::utf8;
use vstd::prelude::*;

verus! {

#[derive(Clone, Copy, Debug, PartialEq, Eq, Structural)]
pub enum ItemKind {
    Box,
    Glue,
    Penalty,
}

/// Knuth-Plass item.
///
/// `flags` byte layout:
///   bits 0-1  kind (Box = 0, Glue = 1, Penalty = 2)
///   bit 2     `flagged` (informs the double-hyphen demerit)
///   bit 3     `forced`  (forces a break here)
///
/// `style` is the packed inline style the item was measured in.
///
/// For a `Penalty`, `width` carries the penalty cost as `i16`
/// (bit-reinterpreted); `i16::MAX` means "forbidden break", `i16::MIN` means
/// "forced break". A penalty takes no room on a line. For `Box` and `Glue`,
/// `width` is plain pixels.
#[derive(Clone, Copy, Debug, PartialEq, Eq, Structural)]
pub struct Item {
    pub width: u16,
    pub stretch: u16,
    pub shrink: u8,
    pub flags: u8,
    pub style: u8,
    pub byte_offset: u32,
}

pub const KIND_MASK: u8 = 3;

pub const FLAG_FLAGGED: u8 = 4;

pub const FLAG_FORCED: u8 = 8;

proof fn lemma_flag_bits()
    by (bit_vector)
    ensures
        0u8 & 3 == 0,
        1u8 & 3 == 1,
        2u8 & 3 == 2,
        0u8 & 4 == 0,
        1u8 & 4 == 0,
        2u8 & 4 == 0,
        0u8 & 8 == 0,
        1u8 & 8 == 0,
        2u8 & 8 == 0,
        6u8 & 3 == 2,
        6u8 & 4 != 0,
        6u8 & 8 == 0,
        10u8 & 3 == 2,
        10u8 & 4 == 0,
        10u8 & 8 != 0,
        14u8 & 3 == 2,
        14u8 & 4 != 0,
        14u8 & 8 != 0,
{
}

proof fn lemma_penalty_bits(p: i16)
    by (bit_vector)
    ensures
        (p as u16) as i16 == p,
{
}

/// What the flags of an item say, whatever its style.
pub proof fn lemma_kinds(width: u16, stretch: u16, shrink: u8, at: u32, style: Style)
    ensures
        Item::spec_boxed(width, at).spec_kind() == ItemKind::Box,
        Item::spec_boxed(width, at).spec_with_style(style).spec_kind() == ItemKind::Box,
        Item::spec_glue(width, stretch, shrink, at).spec_kind() == ItemKind::Glue,
        Item::spec_glue(width, stretch, shrink, at).spec_with_style(style).spec_kind()
            == ItemKind::Glue,
{
    lemma_flag_bits();
}

/// What the flags of a penalty say of it.
pub proof fn lemma_penalty_bits_of(p: i16, flagged: bool, forced: bool, at: u32)
    ensures
        Item::spec_penalty_item(p, flagged, forced, at).spec_flagged() == flagged,
        Item::spec_penalty_item(p, flagged, forced, at).spec_forced() == forced,
{
    lemma_flag_bits();
}

pub proof fn lemma_penalty_kind(p: i16, flagged: bool, forced: bool, at: u32)
    ensures
        Item::spec_penalty_item(p, flagged, forced, at).spec_kind() == ItemKind::Penalty,
        Item::spec_penalty_item(p, flagged, forced, at).spec_penalty() == p,
{
    lemma_flag_bits();
    lemma_penalty_bits(p);
}

impl Item {
    /// "+infinity" penalty: forbids a break here.
    pub const PENALTY_FORBIDDEN: i16 = 32767;

    /// "-infinity" penalty: forces a break here.
    pub const PENALTY_FORCE: i16 = -32768;

    pub open spec fn spec_kind(self) -> ItemKind {
        if self.flags & KIND_MASK == 0 {
            ItemKind::Box
        } else if self.flags & KIND_MASK == 1 {
            ItemKind::Glue
        } else {
            ItemKind::Penalty
        }
    }

    pub open spec fn spec_flagged(self) -> bool {
        self.flags & FLAG_FLAGGED != 0
    }

    pub open spec fn spec_forced(self) -> bool {
        self.flags & FLAG_FORCED != 0
    }

    /// The penalty cost that the bits of `width` spell.
    pub open spec fn spec_penalty(self) -> i16 {
        self.width as i16
    }

    pub open spec fn spec_boxed(width: u16, byte_offset: u32) -> Item {
        Item { width, stretch: 0, shrink: 0, flags: 0, style: 0, byte_offset }
    }

    pub open spec fn spec_glue(width: u16, stretch: u16, shrink: u8, byte_offset: u32) -> Item {
        Item { width, stretch, shrink, flags: 1, style: 0, byte_offset }
    }

    pub open spec fn spec_penalty_item(
        p: i16,
        flagged: bool,
        forced: bool,
        byte_offset: u32,
    ) -> Item {
        Item {
            width: p as u16,
            stretch: 0,
            shrink: 0,
            flags: if flagged && forced {
                14
            } else if flagged {
                6
            } else if forced {
                10
            } else {
                2
            },
            style: 0,
            byte_offset,
        }
    }

    pub open spec fn spec_with_style(self, style: Style) -> Item {
        Item { style: markup::packed_style(style) as u8, ..self }
    }

    pub fn boxed(width: u16, byte_offset: u32) -> (it: Item)
        ensures
            it == Item::spec_boxed(width, byte_offset),
            it.spec_kind() == ItemKind::Box,
            it.width == width,
            it.stretch == 0,
            it.shrink == 0,
            it.style == 0,
            it.byte_offset == byte_offset,
            !it.spec_flagged(),
            !it.spec_forced(),
    {
        proof {
            lemma_flag_bits();
        }
        Item { width, stretch: 0, shrink: 0, flags: 0, style: 0, byte_offset }
    }

    pub fn glue(width: u16, stretch: u16, shrink: u8, byte_offset: u32) -> (it: Item)
        ensures
            it == Item::spec_glue(width, stretch, shrink, byte_offset),
            it.spec_kind() == ItemKind::Glue,
            it.width == width,
            it.stretch == stretch,
            it.shrink == shrink,
            it.style == 0,
            it.byte_offset == byte_offset,
            !it.spec_flagged(),
            !it.spec_forced(),
    {
        proof {
            lemma_flag_bits();
        }
        Item { width, stretch, shrink, flags: 1, style: 0, byte_offset }
    }

    pub fn penalty(p: i16, flagged: bool, forced: bool, byte_offset: u32) -> (it: Item)
        ensures
            it == Item::spec_penalty_item(p, flagged, forced, byte_offset),
            it.spec_kind() == ItemKind::Penalty,
            it.spec_penalty() == p,
            it.spec_flagged() == flagged,
            it.spec_forced() == forced,
            it.stretch == 0,
            it.shrink == 0,
            it.style == 0,
            it.byte_offset == byte_offset,
    {
        proof {
            lemma_flag_bits();
            lemma_penalty_bits(p);
        }
        let flags: u8 = if flagged {
            if forced {
                14
            } else {
                6
            }
        } else if forced {
            10
        } else {
            2
        };
        Item { width: p as u16, stretch: 0, shrink: 0, flags, style: 0, byte_offset }
    }

    pub fn kind(&self) -> (k: ItemKind)
        ensures
            k == self.spec_kind(),
    {
        let bits: u8 = self.flags & KIND_MASK;
        if bits == 0 {
            ItemKind::Box
        } else if bits == 1 {
            ItemKind::Glue
        } else {
            ItemKind::Penalty
        }
    }

    pub fn is_flagged(&self) -> (b: bool)
        ensures
            b == self.spec_flagged(),
    {
        self.flags & FLAG_FLAGGED != 0
    }

    pub fn is_forced(&self) -> (b: bool)
        ensures
            b == self.spec_forced(),
    {
        self.flags & FLAG_FORCED != 0
    }

    /// Penalty cost, reinterpreting `width` as `i16`. Only meaningful for a
    /// `Penalty`.
    pub fn penalty_value(&self) -> (p: i16)
        ensures
            p == self.spec_penalty(),
    {
        self.width as i16
    }

    /// Stamp the inline style the item was measured in.
    pub fn with_style(self, style: Style) -> (it: Item)
        ensures
            it == self.spec_with_style(style),
    {
        Item { style: style.pack(), ..self }
    }

    pub fn style(&self) -> (s: Style)
        ensures
            s == markup::unpacked_style(self.style),
    {
        Style::unpack(self.style)
    }
}

// ── measuring ─────────────────────────────────────────────────────

/// Pen movement for a character after another one (or at a word start) in a
/// style.
pub type Advance = spec_fn(Option<char>, char, Style) -> i16;

/// `f` always moves the pen as `adv` says.
pub open spec fn measures<F: Fn(Option<char>, char, Style) -> i16>(f: F, adv: Advance) -> bool {
    forall|p: Option<char>, c: char, s: Style, r: i16| #[trigger]
        f.ensures((p, c, s), r) ==> r == adv(p, c, s)
}

/// `f` may be called on anything.
pub open spec fn callable<F: Fn(Option<char>, char, Style) -> i16>(f: F) -> bool {
    forall|p: Option<char>, c: char, s: Style| #[trigger] f.requires((p, c, s))
}

pub open spec fn sat32(x: int) -> int {
    if x > 0x7fff_ffff {
        0x7fff_ffff
    } else if x < -0x8000_0000 {
        -0x8000_0000
    } else {
        x
    }
}

/// Pen position behind the characters from `pos` on, starting at `acc`, the
/// first of them behind `prev`.
pub open spec fn pen_after(
    adv: Advance,
    bytes: Seq<u8>,
    style: Style,
    pos: int,
    prev: Option<char>,
    acc: int,
) -> int
    decreases bytes.len() - pos,
{
    if pos < 0 || pos >= bytes.len() {
        acc
    } else {
        let (cp, len) = utf8::utf8_at(bytes, pos);
        if len < 1 || pos + len > bytes.len() {
            acc
        } else {
            let ch = cp as char;
            pen_after(adv, bytes, style, pos + len, Some(ch), sat32(acc + adv(prev, ch, style)))
        }
    }
}

/// `x` kept within 16 unsigned bits.
pub open spec fn clamp_u16(x: int) -> u16 {
    if x < 0 {
        0
    } else if x > 65535 {
        65535
    } else {
        x as u16
    }
}

/// Natural width of a word.
pub open spec fn word_width(adv: Advance, bytes: Seq<u8>, style: Style) -> u16 {
    clamp_u16(pen_after(adv, bytes, style, 0, None, 0))
}

/// Most bytes of a word that are measured.
pub const WORD_MEASURE_BUF: usize = 256;

/// The bytes of a word that are measured.
pub open spec fn measured_part(word: Seq<u8>) -> Seq<u8> {
    word.take(if word.len() < WORD_MEASURE_BUF {
        word.len() as int
    } else {
        WORD_MEASURE_BUF as int
    })
}

fn add_sat(a: i32, b: i16) -> (c: i32)
    ensures
        c == sat32(a + b),
{
    let s: i64 = a as i64 + b as i64;
    if s > 2147483647 {
        2147483647
    } else if s < -2147483648 {
        -2147483648
    } else {
        s as i32
    }
}

/// Natural width of the first `n` bytes of `bytes`, which are whole words as
/// far as measuring goes. Kerning applies between consecutive characters.
fn measure_word<F: Fn(Option<char>, char, Style) -> i16>(
    bytes: &[u8],
    style: Style,
    advance: &F,
) -> (w: u16)
    requires
        callable(*advance),
    ensures
        forall|adv: Advance|
            #![trigger measures(*advance, adv)]
            measures(*advance, adv) ==> w == word_width(adv, bytes@, style),
{
    let mut prev: Option<char> = None;
    let mut width: i32 = 0;
    let mut i: usize = 0;
    while i < bytes.len()
        invariant
            i <= bytes@.len(),
            callable(*advance),
            forall|adv: Advance|
                #![trigger measures(*advance, adv)]
                measures(*advance, adv) ==> pen_after(
                    adv,
                    bytes@,
                    style,
                    i as int,
                    prev,
                    width as int,
                ) == pen_after(adv, bytes@, style, 0, None, 0),
        decreases bytes@.len() - i,
    {
        let (ch, len): (char, usize) = utf8::decode_utf8(bytes, i);
        let a: i16 = advance(prev, ch, style);
        width = add_sat(width, a);
        prev = Some(ch);
        i = i + len;
    }
    if width < 0 {
        0
    } else if width > 65535 {
        65535
    } else {
        width as u16
    }
}

// ── paragraphs ────────────────────────────────────────────────────

#[derive(Clone, Copy, Debug, PartialEq, Eq, Structural)]
pub enum ParagraphEnd {
    EndOfBuffer,
    ParagraphBreak,
    /// the next paragraph starts a page
    PageBreakAfter,
    /// an image follows
    ImageBlock,
    ThematicBreak,
    /// the block properties changed behind the first item
    BlockChanged,
}

#[derive(Clone, Copy, Debug, PartialEq, Eq, Structural)]
pub struct ParagraphMeta {
    pub block: BlockProps,
    pub style_at_start: Style,
    pub end_kind: ParagraphEnd,
    pub byte_start: u32,
    pub byte_end: u32,
    /// set when `end_kind` is `ImageBlock`
    pub image: Option<ImageRef>,
}

/// Cost of a break at a soft hyphen.
pub const HYPHEN_PENALTY: i16 = 50;

/// A paragraph that is being built: where it began, what is in force, and
/// whether its first-line indent is still to come.
#[derive(Clone, Copy, Debug, PartialEq, Eq, Structural)]
pub struct ParagraphBuilder {
    pub block: BlockProps,
    pub style_at_start: Style,
    pub byte_start: u32,
    pub last_end: u32,
    pub indent_pending: bool,
}

/// The items that end a paragraph: no break, all the stretch there is, and a
/// forced break.
pub open spec fn forced_triple(at: u32) -> Seq<Item> {
    seq![
        Item::spec_penalty_item(Item::PENALTY_FORBIDDEN, false, false, at),
        Item::spec_glue(0, 65535, 0, at),
        Item::spec_penalty_item(Item::PENALTY_FORCE, false, true, at),
    ]
}

/// `items` with the first-line indent, if it is still to come.
pub open spec fn led_in(
    b: ParagraphBuilder,
    items: Seq<Item>,
    em_px: u16,
    at: u32,
    style: Style,
) -> Seq<Item> {
    let w = table::spec_indent_px(b.block.text_indent_qem, em_px);
    if b.indent_pending && w > 0 {
        items.push(Item::spec_boxed(w, at).spec_with_style(style))
    } else {
        items
    }
}

/// Width of a space; never negative.
pub open spec fn space_width(adv: Advance, style: Style) -> int {
    let a = adv(None, ' ', style);
    if a < 0 {
        0
    } else {
        a as int
    }
}

/// The glue of a space: its width, half of it as stretch, a third (at most
/// 255) as shrink.
pub open spec fn space_glue(width: int, at: u32, style: Style) -> Item {
    Item::spec_glue(
        width as u16,
        (width / 2) as u16,
        (if width / 3 < 255 {
            width / 3
        } else {
            255
        }) as u8,
        at,
    ).spec_with_style(style)
}

impl ParagraphBuilder {
    pub open spec fn meta(
        self,
        end_kind: ParagraphEnd,
        byte_end: u32,
        image: Option<ImageRef>,
    ) -> ParagraphMeta {
        ParagraphMeta {
            block: self.block,
            style_at_start: self.style_at_start,
            end_kind,
            byte_start: self.byte_start,
            byte_end,
            image,
        }
    }

    /// The builder behind text that ends at `end`.
    pub open spec fn behind(self, end: u32) -> ParagraphBuilder {
        ParagraphBuilder { last_end: end, indent_pending: false, ..self }
    }
}

/// What one event does to a paragraph: the items so far, the builder, and the
/// paragraph's description if the event ends it. `word` is the text of a
/// `Word` event.
pub open spec fn fed(
    adv: Advance,
    em_px: u16,
    ev: Event,
    word: Seq<u8>,
    b: ParagraphBuilder,
    items: Seq<Item>,
) -> (Seq<Item>, ParagraphBuilder, Option<ParagraphMeta>) {
    let closed = |at: u32|
        if items.len() > 0 {
            items + forced_triple(at)
        } else {
            items
        };
    match ev {
        Event::Word { start, end, style } => {
            let w = word_width(adv, measured_part(word), style);
            (
                led_in(b, items, em_px, start, style).push(
                    Item::spec_boxed(w, start).spec_with_style(style),
                ),
                b.behind(end),
                None,
            )
        },
        Event::Space { start, end, style } => (
            led_in(b, items, em_px, start, style).push(
                space_glue(space_width(adv, style), start, style),
            ),
            b.behind(end),
            None,
        ),
        Event::Nbsp { start, end, style } => (
            led_in(b, items, em_px, start, style).push(
                Item::spec_boxed(space_width(adv, style) as u16, start).spec_with_style(style),
            ),
            b.behind(end),
            None,
        ),
        Event::SoftHyphen { start, end, .. } => (
            items.push(Item::spec_penalty_item(HYPHEN_PENALTY, true, false, start)),
            ParagraphBuilder { last_end: end, ..b },
            None,
        ),
        Event::HardBreak { start, end } => (
            items + forced_triple(start),
            b,
            Some(b.meta(ParagraphEnd::ParagraphBreak, end, None)),
        ),
        Event::ParagraphBreak { start, end } => (
            items + forced_triple(start),
            b,
            Some(b.meta(ParagraphEnd::ParagraphBreak, end, None)),
        ),
        Event::PageBreak { start, end } => (
            closed(start),
            b,
            Some(b.meta(ParagraphEnd::PageBreakAfter, end, None)),
        ),
        Event::ThematicBreak { start, end } => (
            closed(start),
            b,
            Some(b.meta(ParagraphEnd::ThematicBreak, end, None)),
        ),
        Event::Image(img) => (
            closed(img.start),
            b,
            Some(b.meta(ParagraphEnd::ImageBlock, img.end, Some(img))),
        ),
        Event::Block { at, block } => if items.len() == 0 {
            (items, ParagraphBuilder { block, last_end: at, ..b }, None)
        } else {
            (
                items + forced_triple(at),
                b,
                Some(b.meta(ParagraphEnd::BlockChanged, at, None)),
            )
        },
        Event::Unknown { end, .. } => (items, ParagraphBuilder { last_end: end, ..b }, None),
    }
}

/// Append the items that end a paragraph.
fn push_forced_break_triple(out: &mut Vec<Item>, byte_offset: u32)
    ensures
        final(out)@ == old(out)@ + forced_triple(byte_offset),
        breaker_spec::shrinks_within_width(old(out)@) ==> breaker_spec::shrinks_within_width(
            final(out)@,
        ),
{
    out.push(Item::penalty(Item::PENALTY_FORBIDDEN, false, false, byte_offset));
    out.push(Item::glue(0, 65535, 0, byte_offset));
    out.push(Item::penalty(Item::PENALTY_FORCE, false, true, byte_offset));
    proof {
        assert(out@ =~= old(out)@ + forced_triple(byte_offset));
    }
}

fn close(out: &mut Vec<Item>, byte_offset: u32)
    ensures
        final(out)@ == (if old(out)@.len() > 0 {
            old(out)@ + forced_triple(byte_offset)
        } else {
            old(out)@
        }),
        breaker_spec::shrinks_within_width(old(out)@) ==> breaker_spec::shrinks_within_width(
            final(out)@,
        ),
{
    if out.len() > 0 {
        push_forced_break_triple(out, byte_offset);
    }
}

fn space_of<F: Fn(Option<char>, char, Style) -> i16>(advance: &F, style: Style) -> (w: u16)
    requires
        callable(*advance),
    ensures
        w <= 32767,
        forall|adv: Advance|
            #![trigger measures(*advance, adv)]
            measures(*advance, adv) ==> w == space_width(adv, style),
{
    let a: i16 = advance(None, ' ', style);
    if a < 0 {
        0
    } else {
        a as u16
    }
}

impl ParagraphBuilder {
    pub fn new(block: BlockProps, style: Style, at: u32) -> (b: ParagraphBuilder)
        ensures
            b == (ParagraphBuilder {
                block,
                style_at_start: style,
                byte_start: at,
                last_end: at,
                indent_pending: true,
            }),
    {
        ParagraphBuilder {
            block,
            style_at_start: style,
            byte_start: at,
            last_end: at,
            indent_pending: true,
        }
    }

    fn finish(&self, end_kind: ParagraphEnd, byte_end: u32, image: Option<ImageRef>) -> (m:
        ParagraphMeta)
        ensures
            m == self.meta(end_kind, byte_end, image),
    {
        ParagraphMeta {
            block: self.block,
            style_at_start: self.style_at_start,
            end_kind,
            byte_start: self.byte_start,
            byte_end,
            image,
        }
    }

    /// The description of a paragraph that the end of the buffer ends.
    pub fn end_of_buffer(&self) -> (m: ParagraphMeta)
        ensures
            m == self.meta(ParagraphEnd::EndOfBuffer, self.last_end, None),
    {
        self.finish(ParagraphEnd::EndOfBuffer, self.last_end, None)
    }

    fn lead_in(&mut self, out: &mut Vec<Item>, em_px: u16, at: u32, style: Style)
        ensures
            *final(self) == (ParagraphBuilder { indent_pending: false, ..*old(self) }),
            final(out)@ == led_in(*old(self), old(out)@, em_px, at, style),
            breaker_spec::shrinks_within_width(old(out)@)
                ==> breaker_spec::shrinks_within_width(final(out)@),
    {
        if self.indent_pending {
            self.indent_pending = false;
            let w: u16 = table::indent_px(self.block.text_indent_qem, em_px);
            if w > 0 {
                out.push(Item::boxed(w, at).with_style(style));
            }
        }
    }

    /// Take one event; the paragraph's description if the event ends it.
    ///
    /// `word` is the text of a `Word` event. `advance` gives the pen movement
    /// of a character behind another one, or at the start of a word.
    pub fn feed<F: Fn(Option<char>, char, Style) -> i16>(
        &mut self,
        ev: Event,
        word: &[u8],
        advance: &F,
        em_px: u16,
        out: &mut Vec<Item>,
    ) -> (m: Option<ParagraphMeta>)
        requires
            callable(*advance),
        ensures
            forall|adv: Advance|
                #![trigger measures(*advance, adv)]
                measures(*advance, adv) ==> (final(out)@, *final(self), m) == fed(
                    adv,
                    em_px,
                    ev,
                    word@,
                    *old(self),
                    old(out)@,
                ),
            breaker_spec::shrinks_within_width(old(out)@)
                ==> breaker_spec::shrinks_within_width(final(out)@),
            final(self).byte_start == old(self).byte_start,
            final(self).style_at_start == old(self).style_at_start,
            m matches Some(x) ==> (x.end_kind == ParagraphEnd::ImageBlock <==> x.image is Some),
    {
        match ev {
            Event::Word { start, end, style } => {
                self.lead_in(out, em_px, start, style);
                let n: usize = if word.len() < WORD_MEASURE_BUF {
                    word.len()
                } else {
                    WORD_MEASURE_BUF
                };
                let part: &[u8] = vstd::slice::slice_subrange(word, 0, n);
                proof {
                    assert(part@ =~= measured_part(word@));
                }
                let width: u16 = measure_word(part, style, advance);
                out.push(Item::boxed(width, start).with_style(style));
                self.last_end = end;
                None
            },
            Event::Space { start, end, style } => {
                self.lead_in(out, em_px, start, style);
                let space: u16 = space_of(advance, style);
                let third: u16 = space / 3;
                let shrink: u8 = if third < 255 {
                    third as u8
                } else {
                    255
                };
                out.push(Item::glue(space, space / 2, shrink, start).with_style(style));
                self.last_end = end;
                None
            },
            Event::Nbsp { start, end, style } => {
                self.lead_in(out, em_px, start, style);
                let space: u16 = space_of(advance, style);
                out.push(Item::boxed(space, start).with_style(style));
                self.last_end = end;
                None
            },
            Event::SoftHyphen { start, end, .. } => {
                out.push(Item::penalty(HYPHEN_PENALTY, true, false, start));
                self.last_end = end;
                None
            },
            Event::HardBreak { start, end } => {
                push_forced_break_triple(out, start);
                Some(self.finish(ParagraphEnd::ParagraphBreak, end, None))
            },
            Event::ParagraphBreak { start, end } => {
                push_forced_break_triple(out, start);
                Some(self.finish(ParagraphEnd::ParagraphBreak, end, None))
            },
            Event::PageBreak { start, end } => {
                close(out, start);
                Some(self.finish(ParagraphEnd::PageBreakAfter, end, None))
            },
            Event::ThematicBreak { start, end } => {
                close(out, start);
                Some(self.finish(ParagraphEnd::ThematicBreak, end, None))
            },
            Event::Image(img) => {
                close(out, img.start);
                Some(self.finish(ParagraphEnd::ImageBlock, img.end, Some(img)))
            },
            Event::Block { at, block } => {
                if out.len() == 0 {
                    self.block = block;
                    self.last_end = at;
                    None
                } else {
                    push_forced_break_triple(out, at);
                    Some(self.finish(ParagraphEnd::BlockChanged, at, None))
                }
            },
            Event::Unknown { end, .. } => {
                self.last_end = end;
                None
            },
        }
    }
}

/// The text of a `Word` event.
pub open spec fn word_of(buf: Seq<u8>, ev: Event) -> Seq<u8> {
    match ev {
        Event::Word { start, end, .. } => buf.subrange(start as int, end as int),
        _ => Seq::empty(),
    }
}

/// The paragraph that goes on at `s`: its items, its description and the
/// state behind it.
pub open spec fn paragraph(
    adv: Advance,
    buf: Seq<u8>,
    em_px: u16,
    s: EventState,
    b: ParagraphBuilder,
    items: Seq<Item>,
) -> (Seq<Item>, ParagraphMeta, EventState)
    decreases buf.len() - s.pos,
{
    let (ev, after) = events::next_event(buf, s);
    match ev {
        None => (items, b.meta(ParagraphEnd::EndOfBuffer, b.last_end, None), after),
        Some(e) => {
            let (more, b2, m) = fed(adv, em_px, e, word_of(buf, e), b, items);
            if m is Some || after.pos <= s.pos || after.pos > buf.len() {
                (more, m->0, after)
            } else {
                paragraph(adv, buf, em_px, after, b2, more)
            }
        },
    }
}

/// The builder that a paragraph from `s` on starts with.
pub open spec fn builder_at(s: EventState) -> ParagraphBuilder {
    ParagraphBuilder {
        block: s.props(),
        style_at_start: events::spec_style(s.style),
        byte_start: s.pos as u32,
        last_end: s.pos as u32,
        indent_pending: true,
    }
}

/// Consume one paragraph of the stream and append its items to `out`, which
/// the caller has cleared. `em_px` sizes the first-line indent.
pub fn build_paragraph<F: Fn(Option<char>, char, Style) -> i16>(
    events: &mut Events<'_>,
    advance: &F,
    em_px: u16,
    out: &mut Vec<Item>,
) -> (meta: ParagraphMeta)
    requires
        old(events).wf(),
        callable(*advance),
    ensures
        final(events).wf(),
        final(events).bytes() == old(events).bytes(),
        forall|adv: Advance|
            #![trigger measures(*advance, adv)]
            measures(*advance, adv) ==> (final(out)@, meta, final(events).state()) == paragraph(
                adv,
                old(events).bytes(),
                em_px,
                old(events).state(),
                builder_at(old(events).state()),
                old(out)@,
            ),
        breaker_spec::shrinks_within_width(old(out)@) ==> breaker_spec::shrinks_within_width(
            final(out)@,
        ),
        meta.end_kind == ParagraphEnd::ImageBlock <==> meta.image is Some,
        old(events).state().pos < old(events).bytes().len() ==> final(events).state().pos > old(events).state().pos,
{
    let buf: &[u8] = events.scanner.buf;
    let mut b = ParagraphBuilder::new(events.block(), events.style(), events.offset());
    loop
        invariant
            events.wf(),
            events.bytes() == old(events).bytes(),
            buf@ == events.bytes(),
            callable(*advance),
            events.state().pos >= old(events).state().pos,
            forall|adv: Advance|
                #![trigger measures(*advance, adv)]
                measures(*advance, adv) ==> paragraph(
                    adv,
                    buf@,
                    em_px,
                    events.state(),
                    b,
                    out@,
                ) == paragraph(
                    adv,
                    buf@,
                    em_px,
                    old(events).state(),
                    builder_at(old(events).state()),
                    old(out)@,
                ),
            breaker_spec::shrinks_within_width(old(out)@) ==> breaker_spec::shrinks_within_width(
                out@,
            ),
        decreases events.bytes().len() - events.state().pos,
    {
        let ghost before = events.state();
        proof {
            events::law_events_advance(buf@, before);
        }
        let ev: Event = match events.next_event() {
            None => {
                return b.end_of_buffer();
            },
            Some(e) => e,
        };
        let word: &[u8] = match ev {
            Event::Word { start, end, .. } => vstd::slice::slice_subrange(
                buf,
                start as usize,
                end as usize,
            ),
            _ => vstd::slice::slice_subrange(buf, 0, 0),
        };
        proof {
            assert(word@ =~= word_of(buf@, ev));
        }
        if let Some(m) = b.feed(ev, word, advance, em_px, out) {
            return m;
        }
    }
}

} // verus!
