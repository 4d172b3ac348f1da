//! The event stream that typesetting runs on: scanned tokens with their style
//! and block properties resolved.
//!
//! The properties of a block are those of its record. Without one they are what
//! the markers before it say: its alignment and its levels of indent. A record
//! holds until its block ends; behind a hard break the block goes on with its
//! alignment and its levels, but without indent and space. The form of a record
//! (`markup::block_bytes`) is one of this library.

use crate::layout::scan;
use crate::layout::scan::{BlockAlign, BlockState, ImageRef, MarkupScanner, ScanState, TextStyle, Token};
use crate::layout::scan_laws;
use crate::markup;
use crate::markup::{Align, BlockProps, Style, BLOCK_RECORD, BLOCK_RECORD_LEN};
use vstd::prelude::*;

verus! {

#[derive(Clone, Copy, Debug, PartialEq, Eq, Structural)]
pub enum Event {
    Word { start: u32, end: u32, style: Style },
    Space { start: u32, end: u32, style: Style },
    Nbsp { start: u32, end: u32, style: Style },
    SoftHyphen { start: u32, end: u32, style: Style },
    HardBreak { start: u32, end: u32 },
    ParagraphBreak { start: u32, end: u32 },
    PageBreak { start: u32, end: u32 },
    ThematicBreak { start: u32, end: u32 },
    Image(ImageRef),
    /// the block properties from `at` on
    Block { at: u32, block: BlockProps },
    Unknown { start: u32, end: u32 },
}

/// The inline style of a token's style.
pub open spec fn spec_style(s: TextStyle) -> Style {
    Style {
        bold: s.bold,
        italic: s.italic,
        underline: s.underline,
        strike: s.strike,
        heading: if s.heading {
            s.hlevel
        } else {
            0
        },
    }
}

/// The text style of an inline style.
pub open spec fn spec_text_style(s: Style) -> TextStyle {
    TextStyle {
        bold: s.bold,
        italic: s.italic,
        heading: s.heading != 0,
        hlevel: s.heading,
        underline: s.underline,
        strike: s.strike,
    }
}

/// The block properties of a block state. Justified text is what the reader's
/// setting decides.
pub open spec fn spec_props(b: BlockState) -> BlockProps {
    BlockProps {
        align: match b.align {
            BlockAlign::Left => Align::Left,
            BlockAlign::Center => Align::Center,
            BlockAlign::Right => Align::Right,
            BlockAlign::Default => Align::Default,
            BlockAlign::Justify => Align::Default,
        },
        left: b.indent,
        text_indent_qem: 0,
        space_above_qem: 0,
    }
}

/// The event of a token.
pub open spec fn spec_event(t: Token) -> Event {
    match t {
        Token::Word { start, end, style } => Event::Word { start, end, style: spec_style(style) },
        Token::Space { start, end, style } => Event::Space { start, end, style: spec_style(style) },
        Token::Nbsp { start, end, style } => Event::Nbsp { start, end, style: spec_style(style) },
        Token::SoftHyphen { start, end, style } => Event::SoftHyphen {
            start,
            end,
            style: spec_style(style),
        },
        Token::HardBreak { start, end } => Event::HardBreak { start, end },
        Token::ParagraphBreak { start, end } => Event::ParagraphBreak { start, end },
        Token::PageBreak { start, end } => Event::PageBreak { start, end },
        Token::ThematicBreak { start, end } => Event::ThematicBreak { start, end },
        Token::Image(img) => Event::Image(img),
        Token::BlockChanged { at, block } => Event::Block { at, block: spec_props(block) },
        Token::UnknownMarker { start, end, .. } => Event::Unknown { start, end },
    }
}

pub fn style_of(s: TextStyle) -> (r: Style)
    ensures
        r == spec_style(s),
{
    Style {
        bold: s.bold,
        italic: s.italic,
        underline: s.underline,
        strike: s.strike,
        heading: if s.heading {
            s.hlevel
        } else {
            0
        },
    }
}

pub fn text_style_of(s: Style) -> (r: TextStyle)
    ensures
        r == spec_text_style(s),
{
    TextStyle {
        bold: s.bold,
        italic: s.italic,
        heading: s.heading != 0,
        hlevel: s.heading,
        underline: s.underline,
        strike: s.strike,
    }
}

/// An inline style survives the way to a text style and back.
pub proof fn law_styles_convert_back(s: Style)
    ensures
        spec_style(spec_text_style(s)) == s,
{
}

pub fn props_of(b: BlockState) -> (r: BlockProps)
    ensures
        r == spec_props(b),
{
    BlockProps {
        align: match b.align {
            BlockAlign::Left => Align::Left,
            BlockAlign::Center => Align::Center,
            BlockAlign::Right => Align::Right,
            BlockAlign::Default => Align::Default,
            BlockAlign::Justify => Align::Default,
        },
        left: b.indent,
        text_indent_qem: 0,
        space_above_qem: 0,
    }
}

pub fn event_of(t: Token) -> (e: Event)
    ensures
        e == spec_event(t),
{
    match t {
        Token::Word { start, end, style } => Event::Word { start, end, style: style_of(style) },
        Token::Space { start, end, style } => Event::Space { start, end, style: style_of(style) },
        Token::Nbsp { start, end, style } => Event::Nbsp { start, end, style: style_of(style) },
        Token::SoftHyphen { start, end, style } => Event::SoftHyphen {
            start,
            end,
            style: style_of(style),
        },
        Token::HardBreak { start, end } => Event::HardBreak { start, end },
        Token::ParagraphBreak { start, end } => Event::ParagraphBreak { start, end },
        Token::PageBreak { start, end } => Event::PageBreak { start, end },
        Token::ThematicBreak { start, end } => Event::ThematicBreak { start, end },
        Token::Image(img) => Event::Image(img),
        Token::BlockChanged { at, block } => Event::Block { at, block: props_of(block) },
        Token::UnknownMarker { start, end, .. } => Event::Unknown { start, end },
    }
}

/// Where a stream of events stands: the scanner, and the properties of the block
/// as its record gave them.
pub struct EventState {
    pub pos: int,
    pub style: TextStyle,
    pub block: BlockState,
    pub record: Option<BlockProps>,
}

impl EventState {
    pub open spec fn scan(self) -> ScanState {
        ScanState { pos: self.pos, style: self.style, block: self.block }
    }

    /// The block properties in force.
    pub open spec fn props(self) -> BlockProps {
        match self.record {
            Some(p) => p,
            None => spec_props(self.block),
        }
    }
}

/// A stream at `pos`, outside any block.
pub open spec fn state_at(pos: int, style: TextStyle) -> EventState {
    EventState { pos, style, block: BlockState::spec_plain(), record: None }
}

pub open spec fn with_scan(s: ScanState, record: Option<BlockProps>) -> EventState {
    EventState { pos: s.pos, style: s.style, block: s.block, record }
}

/// A block behind a hard break: it goes on, without a first line of its own.
pub open spec fn continued(p: BlockProps) -> BlockProps {
    BlockProps { text_indent_qem: 0, space_above_qem: 0, ..p }
}

/// What a token leaves of the block's record.
pub open spec fn record_behind(t: Token, record: Option<BlockProps>) -> Option<BlockProps> {
    match t {
        Token::HardBreak { .. } => match record {
            Some(p) => Some(continued(p)),
            None => None,
        },
        Token::ParagraphBreak { .. } => None,
        Token::PageBreak { .. } => None,
        Token::ThematicBreak { .. } => None,
        Token::Image(_) => None,
        Token::BlockChanged { .. } => None,
        _ => record,
    }
}

/// The block record that a token stands for, if it does.
pub open spec fn record_of(buf: Seq<u8>, t: Token) -> Option<(int, BlockProps)> {
    match t {
        Token::UnknownMarker { start, tag, .. } => if tag == BLOCK_RECORD {
            match markup::block_at(buf, start as int) {
                Some(p) => Some((start + BLOCK_RECORD_LEN, p)),
                None => None,
            }
        } else {
            None
        },
        _ => None,
    }
}

/// The next event and the state behind it.
pub open spec fn next_event(buf: Seq<u8>, s: EventState) -> (Option<Event>, EventState) {
    let (tok, after) = scan::next_token(buf, s.scan());
    match tok {
        None => (None, with_scan(after, s.record)),
        Some(t) => match record_of(buf, t) {
            Some((end, p)) => (
                Some(Event::Block { at: end as u32, block: p }),
                EventState { pos: end, style: after.style, block: after.block, record: Some(p) },
            ),
            None => (Some(spec_event(t)), with_scan(after, record_behind(t, s.record))),
        },
    }
}

/// The bytes an event stands for; of a change of block, the last two.
pub open spec fn span(e: Event) -> (int, int) {
    match e {
        Event::Word { start, end, .. } => (start as int, end as int),
        Event::Space { start, end, .. } => (start as int, end as int),
        Event::Nbsp { start, end, .. } => (start as int, end as int),
        Event::SoftHyphen { start, end, .. } => (start as int, end as int),
        Event::HardBreak { start, end } => (start as int, end as int),
        Event::ParagraphBreak { start, end } => (start as int, end as int),
        Event::PageBreak { start, end } => (start as int, end as int),
        Event::ThematicBreak { start, end } => (start as int, end as int),
        Event::Image(img) => (img.start as int, img.end as int),
        Event::Block { at, .. } => (at - 2, at as int),
        Event::Unknown { start, end } => (start as int, end as int),
    }
}

/// Events come in order and do not overlap: each begins at or behind where the
/// stream stood, is not empty, lies within the buffer, and ends where the stream
/// stands afterwards. Without an event the buffer is at its end.
pub proof fn law_events_advance(buf: Seq<u8>, s: EventState)
    requires
        0 <= s.pos <= buf.len() <= u32::MAX,
    ensures
        ({
            let (ev, after) = next_event(buf, s);
            &&& s.pos <= after.pos <= buf.len()
            &&& ev matches Some(e) ==> s.pos <= span(e).0 < span(e).1 == after.pos
            &&& ev is None ==> after.pos == buf.len()
        }),
{
    scan_laws::law_tokens_are_disjoint(buf, s.scan());
}

/// A block record in front of the stream gives the block that it was made of,
/// and the properties are in force behind it.
pub proof fn law_block_records_are_given(buf: Seq<u8>, s: EventState, p: BlockProps)
    requires
        0 <= s.pos,
        s.pos + BLOCK_RECORD_LEN <= buf.len() <= u32::MAX,
        p.left <= 31,
        p.text_indent_qem <= 127,
        p.space_above_qem <= 127,
        buf.subrange(s.pos, s.pos + BLOCK_RECORD_LEN) == markup::block_bytes(p),
    ensures
        ({
            let (ev, after) = next_event(buf, s);
            &&& ev == Some(Event::Block { at: (s.pos + BLOCK_RECORD_LEN) as u32, block: p })
            &&& after.pos == s.pos + BLOCK_RECORD_LEN
            &&& after.style == s.style
            &&& after.props() == p
        }),
{
    markup::law_block_records_read_back(p, buf, s.pos);
    let r = buf.subrange(s.pos, s.pos + BLOCK_RECORD_LEN);
    assert(r[0] == buf[s.pos] && r[1] == buf[s.pos + 1]);
}

/// Events of a chapter's bytes.
pub struct Events<'a> {
    pub scanner: MarkupScanner<'a>,
    /// the block's properties, as its record gave them
    pub record: Option<BlockProps>,
}

impl<'a> Events<'a> {
    pub open spec fn wf(self) -> bool {
        self.scanner.wf()
    }

    pub open spec fn bytes(self) -> Seq<u8> {
        self.scanner.buf@
    }

    pub open spec fn state(self) -> EventState {
        with_scan(self.scanner.state(), self.record)
    }

    pub fn new(buf: &'a [u8]) -> (e: Events<'a>)
        requires
            buf@.len() <= u32::MAX,
        ensures
            e.wf(),
            e.bytes() == buf@,
            e.state() == state_at(0, TextStyle::spec_plain()),
    {
        Events { scanner: MarkupScanner::new(buf), record: None }
    }

    /// Events from the middle of `buf`, in `style` and outside any block.
    pub fn resume(buf: &'a [u8], pos: usize, style: Style) -> (e: Events<'a>)
        requires
            buf@.len() <= u32::MAX,
            pos <= buf@.len(),
        ensures
            e.wf(),
            e.bytes() == buf@,
            e.state() == state_at(pos as int, spec_text_style(style)),
    {
        Events {
            scanner: MarkupScanner::resume(buf, pos, text_style_of(style), BlockState::default()),
            record: None,
        }
    }

    pub fn next_event(&mut self) -> (ev: Option<Event>)
        requires
            old(self).wf(),
        ensures
            final(self).wf(),
            final(self).bytes() == old(self).bytes(),
            (ev, final(self).state()) == next_event(old(self).bytes(), old(self).state()),
            ev is Some ==> final(self).state().pos > old(self).state().pos,
            ev is None ==> final(self).state().pos == old(self).bytes().len(),
    {
        proof {
            law_events_advance(self.bytes(), self.state());
        }
        let t: Token = match self.scanner.next() {
            Some(t) => t,
            None => return None,
        };
        if let Token::UnknownMarker { start, tag, .. } = t {
            if tag == BLOCK_RECORD {
                if let Some(p) = BlockProps::decode(self.scanner.buf, start as usize) {
                    self.scanner.pos = start as usize + BLOCK_RECORD_LEN;
                    self.record = Some(p);
                    return Some(Event::Block { at: self.scanner.pos as u32, block: p });
                }
            }
        }
        match t {
            Token::HardBreak { .. } => {
                if let Some(p) = self.record {
                    self.record = Some(
                        BlockProps { text_indent_qem: 0, space_above_qem: 0, ..p },
                    );
                }
            },
            Token::ParagraphBreak { .. } => {
                self.record = None;
            },
            Token::PageBreak { .. } => {
                self.record = None;
            },
            Token::ThematicBreak { .. } => {
                self.record = None;
            },
            Token::Image(_) => {
                self.record = None;
            },
            Token::BlockChanged { .. } => {
                self.record = None;
            },
            _ => {},
        }
        Some(event_of(t))
    }

    /// The inline style in force.
    pub fn style(&self) -> (s: Style)
        ensures
            s == spec_style(self.state().style),
    {
        style_of(self.scanner.style)
    }

    /// The block properties in force.
    pub fn block(&self) -> (b: BlockProps)
        ensures
            b == self.state().props(),
    {
        match self.record {
            Some(p) => p,
            None => props_of(self.scanner.block),
        }
    }

    /// Where the next event is looked for.
    pub fn offset(&self) -> (n: u32)
        requires
            self.wf(),
        ensures
            n == self.state().pos,
    {
        self.scanner.position()
    }

    pub fn is_eof(&self) -> (b: bool)
        requires
            self.wf(),
        ensures
            b == (self.state().pos == self.bytes().len()),
    {
        self.scanner.is_eof()
    }
}

} // verus!
