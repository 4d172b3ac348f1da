//! First-fit wrapping of marked-up text: plain text files, and chapters that
//! were not typeset.

use crate::fonts;
use crate::layout::events;
use crate::layout::events::{Event, Events, EventState};
use crate::layout::items;
use crate::layout::pipeline;
use crate::layout::pipeline::{FaceAdvance, DEFAULT_IMG_H, INDENT_PX};
use crate::layout::scan::TextStyle;
use crate::layout::table;
use crate::layout::table::LineLayout;
use crate::markup::{BlockProps, Style};
use crate::reader::measure;
use crate::reader::span::LineSpan;
use vstd::prelude::*;

verus! {

/// The page that text flows onto.
#[derive(Clone, Copy, Debug, PartialEq, Eq, Structural)]
pub struct FlowPage {
    pub max_lines: usize,
    pub max_width: u32,
    pub line_h: u16,
    pub em_px: u16,
}

/// A place where the open line may end.
#[derive(Clone, Copy, Debug, PartialEq, Eq, Structural)]
pub struct BreakPoint {
    pub line_end: usize,
    pub next_start: usize,
    /// width of the line up to `next_start`
    pub cursor: u32,
    pub next_style: Style,
}

/// The line that is being filled.
#[derive(Clone, Copy, Debug, PartialEq, Eq, Structural)]
pub struct OpenLine {
    pub start: usize,
    pub style: Style,
    pub cursor: u32,
    pub brk: Option<BreakPoint>,
    pub block: BlockProps,
    /// whether it is the first of its paragraph
    pub first: bool,
    /// images so far
    pub images: usize,
    /// end of the text so far
    pub last_end: usize,
}

/// The room that a line of the block has.
pub open spec fn room(page: FlowPage, block: BlockProps, first: bool) -> int {
    let taken = INDENT_PX * block.left + (if first {
        table::spec_indent_px(block.text_indent_qem, page.em_px) as int
    } else {
        0
    });
    if page.max_width > taken {
        page.max_width - taken
    } else {
        0
    }
}

/// The finished line `start..end` under the open line's style and block.
pub open spec fn flow_line(o: OpenLine, start: int, end: int, kind: u8, first: bool) -> LineSpan {
    LineSpan {
        start: start as u16,
        len: (if end > start {
            end - start
        } else {
            0
        }) as u16,
        flags: (table::style_flag_bits(o.style) + kind) as u8,
        indent: table::nibbles(
            table::min15(o.block.left),
            table::min15(
                if first {
                    o.block.text_indent_qem
                } else {
                    0
                },
            ),
        ),
        align: table::nibbles(table::align_bits(o.block.align, o.style), table::min15(0)),
        extra: 0,
    }
}

pub open spec fn image_span(start: int, end: int) -> LineSpan {
    LineSpan {
        start: start as u16,
        len: (end - start) as u16,
        flags: LineSpan::FLAG_IMAGE,
        indent: 0,
        align: 0,
        extra: 0,
    }
}

/// Lines that the next image takes: from its scanned height where there is
/// one.
pub open spec fn image_rows(page: FlowPage, heights: Seq<u16>, images: int) -> int {
    let h = if images < heights.len() && heights[images] > 0 {
        heights[images]
    } else {
        DEFAULT_IMG_H
    };
    pipeline::max_int(
        pipeline::ceil_div(h as int, pipeline::max_int(page.line_h as int, 1)),
        1,
    )
}

/// Lines of an image block that fit behind `lines`.
pub open spec fn with_rows(
    lines: Seq<LineSpan>,
    rows: int,
    max: int,
    start: int,
    end: int,
) -> Seq<LineSpan> {
    let left = if max > lines.len() {
        max - lines.len()
    } else {
        0
    };
    let k = if rows < left {
        rows
    } else {
        left
    };
    lines + Seq::new(
        k as nat,
        |j: int|
            if j == 0 {
                image_span(start, end)
            } else {
                image_span(0, 0)
            },
    )
}

/// A step's outcome: the open line, the lines, and the byte where the next
/// page starts once this one is full.
pub struct Flowed {
    pub open: OpenLine,
    pub lines: Seq<LineSpan>,
    pub stop: Option<int>,
}

pub open spec fn flow_on(open: OpenLine, lines: Seq<LineSpan>) -> Flowed {
    Flowed { open, lines, stop: None }
}

pub open spec fn flow_stop(open: OpenLine, lines: Seq<LineSpan>, at: int) -> Flowed {
    Flowed { open, lines, stop: Some(at) }
}

/// Text of width `w` at `start..end`: it joins the open line, or the line
/// breaks at its last break point, or ahead of the text.
pub open spec fn flow_text(
    page: FlowPage,
    w: int,
    start: int,
    end: int,
    style: Style,
    o: OpenLine,
    lines: Seq<LineSpan>,
) -> Flowed {
    if o.cursor + w > room(page, o.block, o.first) && o.cursor > 0 {
        let b = match o.brk {
            Some(b) => b,
            None => BreakPoint {
                line_end: start as usize,
                next_start: start as usize,
                cursor: o.cursor,
                next_style: style,
            },
        };
        let more = lines.push(
            flow_line(o, o.start as int, b.line_end as int, LineSpan::END_SOFT, o.first),
        );
        if more.len() >= page.max_lines {
            flow_stop(o, more, b.next_start as int)
        } else {
            flow_on(
                OpenLine {
                    start: b.next_start,
                    style: b.next_style,
                    cursor: (o.cursor - b.cursor + w) as u32,
                    brk: None,
                    first: false,
                    last_end: end as usize,
                    ..o
                },
                more,
            )
        }
    } else {
        flow_on(OpenLine { cursor: (o.cursor + w) as u32, last_end: end as usize, ..o }, lines)
    }
}

/// A space: a break point, and where the line ends if it is already too wide.
pub open spec fn flow_space(
    page: FlowPage,
    w: int,
    start: int,
    end: int,
    style: Style,
    o: OpenLine,
    lines: Seq<LineSpan>,
) -> Flowed {
    let cursor = (o.cursor + w) as u32;
    if cursor > room(page, o.block, o.first) {
        let more = lines.push(
            flow_line(o, o.start as int, start, LineSpan::END_SOFT, o.first),
        );
        if more.len() >= page.max_lines {
            flow_stop(o, more, end)
        } else {
            flow_on(
                OpenLine {
                    start: end as usize,
                    style,
                    cursor: 0,
                    brk: None,
                    first: false,
                    last_end: end as usize,
                    ..o
                },
                more,
            )
        }
    } else {
        flow_on(
            OpenLine {
                cursor,
                last_end: end as usize,
                brk: Some(
                    BreakPoint {
                        line_end: start as usize,
                        next_start: end as usize,
                        cursor,
                        next_style: style,
                    },
                ),
                ..o
            },
            lines,
        )
    }
}

/// A paragraph break ends the line and leaves a blank one, except at the top
/// of the page.
pub open spec fn flow_paragraph(
    page: FlowPage,
    start: int,
    end: int,
    style: Style,
    o: OpenLine,
    lines: Seq<LineSpan>,
) -> Flowed {
    let ends = start > o.start || lines.len() > 0;
    let closed = if ends {
        lines.push(flow_line(o, o.start as int, start, LineSpan::END_HARD, o.first))
    } else {
        lines
    };
    let plain = OpenLine { block: BlockProps::spec_default(), ..o };
    let spaced = if closed.len() > 0 {
        closed.push(flow_line(plain, end, end, LineSpan::END_HARD, false))
    } else {
        closed
    };
    if ends && closed.len() >= page.max_lines {
        flow_stop(o, closed, end)
    } else if closed.len() > 0 && spaced.len() >= page.max_lines {
        flow_stop(o, spaced, end)
    } else {
        flow_on(
            OpenLine {
                start: end as usize,
                style,
                cursor: 0,
                brk: None,
                first: true,
                ..plain
            },
            spaced,
        )
    }
}

/// An image ends the line and takes its lines; one that does not fit behind
/// what is on the page starts the next page.
pub open spec fn flow_image(
    page: FlowPage,
    heights: Seq<u16>,
    start: int,
    end: int,
    style: Style,
    o: OpenLine,
    lines: Seq<LineSpan>,
) -> Flowed {
    let ends = start > o.start && o.cursor > 0;
    let closed = if ends {
        lines.push(flow_line(o, o.start as int, start, LineSpan::END_HARD, o.first))
    } else {
        lines
    };
    let rows = image_rows(page, heights, o.images as int);
    let full = with_rows(closed, rows, page.max_lines as int, start, end);
    if ends && closed.len() >= page.max_lines {
        flow_stop(o, closed, start)
    } else if closed.len() > 0 && closed.len() + rows > page.max_lines {
        flow_stop(o, closed, start)
    } else if full.len() >= page.max_lines {
        flow_stop(o, full, end)
    } else {
        flow_on(
            OpenLine {
                start: end as usize,
                style,
                cursor: 0,
                brk: None,
                block: BlockProps::spec_default(),
                first: true,
                images: (o.images + 1) as usize,
                last_end: end as usize,
            },
            full,
        )
    }
}

/// What an event does to the page. `word` holds a word event's bytes; `style`
/// and `block` are those in force behind the event.
pub open spec fn flow_step(
    page: FlowPage,
    heights: Seq<u16>,
    adv: FaceAdvance,
    ev: Event,
    word: Seq<u8>,
    style: Style,
    block: BlockProps,
    o: OpenLine,
    lines: Seq<LineSpan>,
) -> Flowed {
    match ev {
        Event::Word { start, end, style: st } => flow_text(
            page,
            measure::text_width(adv, word, fonts::markup_face(st)),
            start as int,
            end as int,
            st,
            o,
            lines,
        ),
        Event::Nbsp { start, end, style: st } => flow_text(
            page,
            measure::space_width(adv, fonts::markup_face(st)),
            start as int,
            end as int,
            st,
            o,
            lines,
        ),
        Event::Space { start, end, style: st } => flow_space(
            page,
            measure::space_width(adv, fonts::markup_face(st)),
            start as int,
            end as int,
            st,
            o,
            lines,
        ),
        Event::SoftHyphen { end, style: st, .. } => flow_on(
            OpenLine {
                brk: Some(
                    BreakPoint {
                        line_end: end as usize,
                        next_start: end as usize,
                        cursor: o.cursor,
                        next_style: st,
                    },
                ),
                last_end: end as usize,
                ..o
            },
            lines,
        ),
        Event::HardBreak { start, end } => {
            let more = lines.push(
                flow_line(o, o.start as int, start as int, LineSpan::END_HARD, o.first),
            );
            if more.len() >= page.max_lines {
                flow_stop(o, more, end as int)
            } else {
                flow_on(
                    OpenLine {
                        start: end as usize,
                        style,
                        cursor: 0,
                        brk: None,
                        block,
                        first: false,
                        ..o
                    },
                    more,
                )
            }
        },
        Event::ParagraphBreak { start, end } => flow_paragraph(
            page,
            start as int,
            end as int,
            style,
            o,
            lines,
        ),
        Event::PageBreak { start, end } => {
            if start > o.start {
                flow_stop(
                    o,
                    lines.push(
                        flow_line(o, o.start as int, start as int, LineSpan::END_HARD, o.first),
                    ),
                    end as int,
                )
            } else if lines.len() > 0 {
                flow_stop(o, lines, end as int)
            } else {
                flow_on(OpenLine { start: end as usize, style, ..o }, lines)
            }
        },
        Event::ThematicBreak { end, .. } => if end > o.start && o.cursor == 0 {
            flow_on(OpenLine { start: end as usize, style, ..o }, lines)
        } else {
            flow_on(o, lines)
        },
        Event::Image(img) => flow_image(
            page,
            heights,
            img.start as int,
            img.end as int,
            style,
            o,
            lines,
        ),
        Event::Block { block: b, .. } => flow_on(OpenLine { block: b, first: true, ..o }, lines),
        Event::Unknown { .. } => flow_on(o, lines),
    }
}

/// The open line at the top of a page.
pub open spec fn fresh_line(style: Style) -> OpenLine {
    OpenLine {
        start: 0,
        style,
        cursor: 0,
        brk: None,
        block: BlockProps::spec_default(),
        first: true,
        images: 0,
        last_end: 0,
    }
}

/// The lines of `buf` from `s` on, behind what `o` and `lines` hold, and the
/// byte where the next page starts.
pub open spec fn flow_run(
    page: FlowPage,
    heights: Seq<u16>,
    adv: FaceAdvance,
    buf: Seq<u8>,
    s: EventState,
    o: OpenLine,
    lines: Seq<LineSpan>,
) -> (Seq<LineSpan>, int)
    decreases buf.len() - s.pos,
{
    let (ev, after) = events::next_event(buf, s);
    match ev {
        None => {
            if o.last_end > o.start && lines.len() < page.max_lines {
                (
                    lines.push(
                        flow_line(
                            o,
                            o.start as int,
                            o.last_end as int,
                            LineSpan::END_BUFFER,
                            o.first,
                        ),
                    ),
                    buf.len() as int,
                )
            } else {
                (lines, buf.len() as int)
            }
        },
        Some(e) => {
            let f = flow_step(
                page,
                heights,
                adv,
                e,
                items::word_of(buf, e),
                events::spec_style(after.style),
                after.props(),
                o,
                lines,
            );
            if f.stop is Some || after.pos <= s.pos || after.pos > buf.len() {
                (f.lines, f.stop->0)
            } else {
                flow_run(page, heights, adv, buf, after, f.open, f.lines)
            }
        },
    }
}

pub open spec fn top_of_text() -> EventState {
    events::state_at(0, TextStyle::spec_plain())
}

/// The page that `buf` fills, and the byte where the next one starts.
pub open spec fn flowed(
    page: FlowPage,
    heights: Seq<u16>,
    adv: FaceAdvance,
    buf: Seq<u8>,
) -> (Seq<LineSpan>, int) {
    flow_run(
        page,
        heights,
        adv,
        buf,
        top_of_text(),
        fresh_line(events::spec_style(TextStyle::spec_plain())),
        Seq::empty(),
    )
}

// ── wrapping ──────────────────────────────────────────────────────

/// The open line speaks of the first `pos` bytes only.
pub open spec fn within(o: OpenLine, pos: int) -> bool {
    &&& o.start <= pos
    &&& o.last_end <= pos
    &&& o.images <= pos
    &&& o.cursor <= 32767 * pos
    &&& o.brk matches Some(b) ==> b.line_end <= pos && b.next_start <= pos && b.cursor <= o.cursor
}

/// There is a slot for one more line, or none was filled yet.
pub open spec fn has_slot(page: FlowPage, lines: Seq<LineSpan>) -> bool {
    lines.len() == 0 || lines.len() < page.max_lines
}

/// `open`, `lines` and `stop` are the outcome `f`.
pub open spec fn came_out(f: Flowed, open: OpenLine, lines: Seq<LineSpan>, stop: Option<usize>) -> bool {
    &&& f.lines == lines
    &&& match stop {
        Some(at) => f.stop == Some(at as int),
        None => f.stop is None && f.open == open,
    }
}

fn room_for(page: &FlowPage, block: &BlockProps, first: bool) -> (w: u32)
    ensures
        w == room(*page, *block, first),
{
    let left: u32 = INDENT_PX * block.left as u32;
    let first_px: u32 = if first {
        table::indent_px(block.text_indent_qem, page.em_px) as u32
    } else {
        0
    };
    page.max_width.saturating_sub(left + first_px)
}

fn make_line(o: &OpenLine, start: usize, end: usize, kind: u8, first: bool) -> (l: LineSpan)
    requires
        start <= 65535,
        end <= 65535,
        kind == LineSpan::END_BUFFER || kind == LineSpan::END_HARD || kind == LineSpan::END_SOFT,
    ensures
        l == flow_line(*o, start as int, end as int, kind, first),
{
    let first_qem: u8 = if first {
        o.block.text_indent_qem
    } else {
        0
    };
    let len: usize = if end > start {
        end - start
    } else {
        0
    };
    LineSpan {
        start: start as u16,
        len: len as u16,
        flags: LineSpan::flags_for(o.style, kind),
        indent: LineLayout::pack_indent(o.block.left, first_qem),
        align: LineLayout::pack_align(o.block.align, 0, o.style),
        extra: 0,
    }
}

fn feed_text(
    page: &FlowPage,
    w: u32,
    start: usize,
    end: usize,
    style: Style,
    o: &mut OpenLine,
    lines: &mut Vec<LineSpan>,
) -> (stop: Option<usize>)
    requires
        within(*old(o), start as int),
        start <= end <= 65535,
        w <= 32767 * (end - start),
        has_slot(*page, old(lines)@),
    ensures
        came_out(
            flow_text(*page, w as int, start as int, end as int, style, *old(o), old(lines)@),
            *final(o),
            final(lines)@,
            stop,
        ),
        stop is None ==> within(*final(o), end as int) && has_slot(*page, final(lines)@),
{
    let max_w: u32 = room_for(page, &o.block, o.first);
    if o.cursor + w > max_w && o.cursor > 0 {
        let b: BreakPoint = match o.brk {
            Some(b) => b,
            None => BreakPoint {
                line_end: start,
                next_start: start,
                cursor: o.cursor,
                next_style: style,
            },
        };
        lines.push(make_line(o, o.start, b.line_end, LineSpan::END_SOFT, o.first));
        if lines.len() >= page.max_lines {
            return Some(b.next_start);
        }
        o.first = false;
        o.start = b.next_start;
        o.cursor = o.cursor - b.cursor;
        o.style = b.next_style;
        o.brk = None;
    }
    o.cursor = o.cursor + w;
    o.last_end = end;
    None
}

fn feed_space(
    page: &FlowPage,
    w: u32,
    start: usize,
    end: usize,
    style: Style,
    o: &mut OpenLine,
    lines: &mut Vec<LineSpan>,
) -> (stop: Option<usize>)
    requires
        within(*old(o), start as int),
        start <= end <= 65535,
        w <= 32767 * (end - start),
        has_slot(*page, old(lines)@),
    ensures
        came_out(
            flow_space(*page, w as int, start as int, end as int, style, *old(o), old(lines)@),
            *final(o),
            final(lines)@,
            stop,
        ),
        stop is None ==> within(*final(o), end as int) && has_slot(*page, final(lines)@),
{
    let cursor: u32 = o.cursor + w;
    if cursor > room_for(page, &o.block, o.first) {
        lines.push(make_line(o, o.start, start, LineSpan::END_SOFT, o.first));
        if lines.len() >= page.max_lines {
            return Some(end);
        }
        o.first = false;
        o.start = end;
        o.cursor = 0;
        o.style = style;
        o.brk = None;
    } else {
        o.cursor = cursor;
        o.brk = Some(BreakPoint { line_end: start, next_start: end, cursor, next_style: style });
    }
    o.last_end = end;
    None
}

fn feed_paragraph(
    page: &FlowPage,
    start: usize,
    end: usize,
    style: Style,
    o: &mut OpenLine,
    lines: &mut Vec<LineSpan>,
) -> (stop: Option<usize>)
    requires
        within(*old(o), start as int),
        start <= end <= 65535,
        has_slot(*page, old(lines)@),
    ensures
        came_out(
            flow_paragraph(*page, start as int, end as int, style, *old(o), old(lines)@),
            *final(o),
            final(lines)@,
            stop,
        ),
        stop is None ==> within(*final(o), end as int) && has_slot(*page, final(lines)@),
{
    if start > o.start || lines.len() > 0 {
        lines.push(make_line(o, o.start, start, LineSpan::END_HARD, o.first));
        if lines.len() >= page.max_lines {
            return Some(end);
        }
    }
    o.block = BlockProps::default();
    // the blank line between paragraphs, skipped at the top of the page
    if lines.len() > 0 {
        lines.push(make_line(o, end, end, LineSpan::END_HARD, false));
        if lines.len() >= page.max_lines {
            return Some(end);
        }
    }
    o.start = end;
    o.cursor = 0;
    o.brk = None;
    o.first = true;
    o.style = style;
    None
}

fn feed_image(
    page: &FlowPage,
    heights: &[u16],
    start: usize,
    end: usize,
    style: Style,
    o: &mut OpenLine,
    lines: &mut Vec<LineSpan>,
) -> (stop: Option<usize>)
    requires
        within(*old(o), start as int),
        start < end <= 65535,
        has_slot(*page, old(lines)@),
    ensures
        came_out(
            flow_image(*page, heights@, start as int, end as int, style, *old(o), old(lines)@),
            *final(o),
            final(lines)@,
            stop,
        ),
        stop is None ==> within(*final(o), end as int) && has_slot(*page, final(lines)@),
{
    if start > o.start && o.cursor > 0 {
        lines.push(make_line(o, o.start, start, LineSpan::END_HARD, o.first));
        if lines.len() >= page.max_lines {
            return Some(start);
        }
    }
    let h: u16 = if o.images < heights.len() && heights[o.images] > 0 {
        heights[o.images]
    } else {
        DEFAULT_IMG_H
    };
    let line_h: u16 = if page.line_h > 1 {
        page.line_h
    } else {
        1
    };
    let up: u16 = pipeline::div_up(h, line_h);
    let rows: usize = if up > 1 {
        up as usize
    } else {
        1
    };
    if lines.len() > 0 && rows > page.max_lines - lines.len() {
        return Some(start);
    }
    let ghost closed = lines@;
    let ghost k = with_rows(closed, rows as int, page.max_lines as int, start as int, end as int).len() - closed.len();
    let mut row: usize = 0;
    while row < rows && lines.len() < page.max_lines
        invariant
            0 <= row <= k <= rows,
            k == with_rows(closed, rows as int, page.max_lines as int, start as int, end as int).len() - closed.len(),
            lines@.len() == closed.len() + row,
            closed.len() == 0 || closed.len() < page.max_lines,
            start < end <= 65535,
            lines@ =~= with_rows(
                closed,
                rows as int,
                page.max_lines as int,
                start as int,
                end as int,
            ).take(closed.len() + row),
        decreases rows - row,
    {
        let origin: bool = row == 0;
        lines.push(
            LineSpan {
                start: if origin {
                    start as u16
                } else {
                    0
                },
                len: if origin {
                    (end - start) as u16
                } else {
                    0
                },
                flags: LineSpan::FLAG_IMAGE,
                indent: 0,
                align: LineSpan::ALIGN_DEFAULT,
                extra: 0,
            },
        );
        row = row + 1;
    }
    proof {
        assert(row == k);
        assert(lines@ =~= with_rows(closed, rows as int, page.max_lines as int, start as int, end as int));
    }
    if lines.len() >= page.max_lines {
        return Some(end);
    }
    o.images = o.images + 1;
    o.start = end;
    o.last_end = end;
    o.cursor = 0;
    o.brk = None;
    o.block = BlockProps::default();
    o.first = true;
    o.style = style;
    None
}

/// Put one event on the page: the byte where the next page starts, once this
/// one is full. `word` holds a word event's bytes; `style` and `block` are
/// those in force behind the event.
fn feed<F: Fn(Option<char>, char, fonts::Style) -> i16>(
    page: &FlowPage,
    heights: &[u16],
    advance: &F,
    ev: Event,
    word: &[u8],
    style: Style,
    block: BlockProps,
    o: &mut OpenLine,
    lines: &mut Vec<LineSpan>,
    Ghost(pos): Ghost<int>,
    Ghost(after): Ghost<int>,
) -> (stop: Option<usize>)
    requires
        pipeline::face_callable(*advance),
        within(*old(o), pos),
        has_slot(*page, old(lines)@),
        spans(ev, word@, pos, after),
        after <= 65535,
    ensures
        forall|adv: FaceAdvance| #[trigger]
            pipeline::face_measures(*advance, adv) ==> came_out(
                flow_step(*page, heights@, adv, ev, word@, style, block, *old(o), old(lines)@),
                *final(o),
                final(lines)@,
                stop,
            ),
        stop is None ==> within(*final(o), after) && has_slot(*page, final(lines)@),
{
    match ev {
        Event::Word { start, end, style: st } => {
            let w: u32 = measure::measure_bytes(word, advance, fonts::Style::from_markup(st));
            feed_text(page, w, start as usize, end as usize, st, o, lines)
        },
        Event::Nbsp { start, end, style: st } => {
            let w: u32 = measure::measure_space(advance, fonts::Style::from_markup(st));
            feed_text(page, w, start as usize, end as usize, st, o, lines)
        },
        Event::Space { start, end, style: st } => {
            let w: u32 = measure::measure_space(advance, fonts::Style::from_markup(st));
            feed_space(page, w, start as usize, end as usize, st, o, lines)
        },
        Event::SoftHyphen { end, style: st, .. } => {
            o.brk = Some(
                BreakPoint {
                    line_end: end as usize,
                    next_start: end as usize,
                    cursor: o.cursor,
                    next_style: st,
                },
            );
            o.last_end = end as usize;
            None
        },
        Event::HardBreak { start, end } => {
            lines.push(make_line(o, o.start, start as usize, LineSpan::END_HARD, o.first));
            if lines.len() >= page.max_lines {
                return Some(end as usize);
            }
            o.first = false;
            o.start = end as usize;
            o.cursor = 0;
            o.brk = None;
            o.block = block;
            o.style = style;
            None
        },
        Event::ParagraphBreak { start, end } => feed_paragraph(
            page,
            start as usize,
            end as usize,
            style,
            o,
            lines,
        ),
        Event::PageBreak { start, end } => {
            if start as usize > o.start {
                lines.push(make_line(o, o.start, start as usize, LineSpan::END_HARD, o.first));
                Some(end as usize)
            } else if lines.len() > 0 {
                Some(end as usize)
            } else {
                o.start = end as usize;
                o.style = style;
                None
            }
        },
        Event::ThematicBreak { end, .. } => {
            if end as usize > o.start && o.cursor == 0 {
                o.start = end as usize;
                o.style = style;
            }
            None
        },
        Event::Image(img) => feed_image(
            page,
            heights,
            img.start as usize,
            img.end as usize,
            style,
            o,
            lines,
        ),
        Event::Block { block: b, .. } => {
            o.block = b;
            o.first = true;
            None
        },
        Event::Unknown { .. } => None,
    }
}

/// The event stands for bytes of `pos..after`, and `word` is as long as a
/// word event says.
pub open spec fn spans(ev: Event, word: Seq<u8>, pos: int, after: int) -> bool {
    match ev {
        Event::Word { start, end, .. } => pos <= start < end == after && word.len() == end - start,
        Event::Space { start, end, .. } => pos <= start < end == after,
        Event::Nbsp { start, end, .. } => pos <= start < end == after,
        Event::SoftHyphen { start, end, .. } => pos <= start < end == after,
        Event::HardBreak { start, end } => pos <= start < end == after,
        Event::ParagraphBreak { start, end } => pos <= start < end == after,
        Event::PageBreak { start, end } => pos <= start < end == after,
        Event::ThematicBreak { start, end } => pos <= start < end == after,
        Event::Image(img) => pos <= img.start < img.end == after,
        Event::Block { at, .. } => pos < at == after,
        Event::Unknown { start, end } => pos <= start < end == after,
    }
}

/// Fill one page with the text `buf[..n]`: its lines, and the byte where the
/// next page starts. A paragraph break leaves one blank line, as in plain
/// text; gaps of blocks are not looked at. An image takes the lines of its
/// scanned height and moves to the next page where it does not fit.
pub fn wrap_proportional<F: Fn(Option<char>, char, fonts::Style) -> i16>(
    buf: &[u8],
    n: usize,
    advance: &F,
    page: &FlowPage,
    heights: &[u16],
) -> (r: (Vec<LineSpan>, usize))
    requires
        n <= buf@.len(),
        n <= 65535,
        pipeline::face_callable(*advance),
    ensures
        forall|adv: FaceAdvance| #[trigger]
            pipeline::face_measures(*advance, adv) ==> (r.0@, r.1 as int) == flowed(
                *page,
                heights@,
                adv,
                buf@.take(n as int),
            ),
{
    let text: &[u8] = vstd::slice::slice_subrange(buf, 0, n);
    proof {
        assert(text@ =~= buf@.take(n as int));
    }
    let mut ev = Events::new(text);
    let mut lines: Vec<LineSpan> = Vec::new();
    let mut o = OpenLine {
        start: 0,
        style: ev.style(),
        cursor: 0,
        brk: None,
        block: BlockProps::default(),
        first: true,
        images: 0,
        last_end: 0,
    };
    proof {
        assert(lines@ =~= Seq::<LineSpan>::empty());
    }
    loop
        invariant
            ev.wf(),
            ev.bytes() == text@,
            text@ == buf@.take(n as int),
            text@.len() == n <= 65535,
            pipeline::face_callable(*advance),
            within(o, ev.state().pos),
            has_slot(*page, lines@),
            forall|adv: FaceAdvance| #[trigger]
                pipeline::face_measures(*advance, adv) ==> flow_run(
                    *page,
                    heights@,
                    adv,
                    text@,
                    ev.state(),
                    o,
                    lines@,
                ) == flowed(*page, heights@, adv, text@),
        decreases n - ev.state().pos,
    {
        let ghost before = ev.state();
        proof {
            events::law_events_advance(text@, before);
        }
        let e: Event = match ev.next_event() {
            None => {
                if o.last_end > o.start && lines.len() < page.max_lines {
                    lines.push(make_line(&o, o.start, o.last_end, LineSpan::END_BUFFER, o.first));
                }
                return (lines, n);
            },
            Some(e) => e,
        };
        let word: &[u8] = match e {
            Event::Word { start, end, .. } => vstd::slice::slice_subrange(
                text,
                start as usize,
                end as usize,
            ),
            _ => vstd::slice::slice_subrange(text, 0, 0),
        };
        proof {
            assert(word@ =~= items::word_of(text@, e));
        }
        let stop = feed(
            page,
            heights,
            advance,
            e,
            word,
            ev.style(),
            ev.block(),
            &mut o,
            &mut lines,
            Ghost(before.pos),
            Ghost(ev.state().pos),
        );
        if let Some(next) = stop {
            return (lines, next);
        }
    }
}

// ── what holds of every page ──────────────────────────────────────

/// Lines with bytes lie one behind the other, and all before `end`.
pub open spec fn in_order(lines: Seq<LineSpan>, end: int) -> bool {
    &&& forall|k: int|
        0 <= k < lines.len() && (#[trigger] lines[k]).len > 0 ==> lines[k].start + lines[k].len
            <= end
    &&& forall|j: int, k: int|
        0 <= j < k < lines.len() && (#[trigger] lines[j]).len > 0 && (#[trigger] lines[k]).len > 0
            ==> lines[j].start + lines[j].len <= lines[k].start
}

/// The lines end before the open one, and before its break point.
spec fn behind(o: OpenLine, lines: Seq<LineSpan>, pos: int) -> bool {
    &&& o.start <= pos <= 65535
    &&& o.last_end <= pos
    &&& in_order(lines, o.start as int)
    &&& o.brk matches Some(b) ==> {
        &&& in_order(lines, b.line_end as int)
        &&& 0 < b.next_start <= pos
        &&& b.line_end <= b.next_start
    }
    &&& (lines.len() > 0 || o.cursor > 0 || o.last_end > 0) ==> pos > 0
}

proof fn lemma_push_in_order(lines: Seq<LineSpan>, l: LineSpan, from: int, to: int)
    requires
        in_order(lines, from),
        from <= to,
        l.len > 0 ==> from <= l.start && l.start + l.len <= to,
    ensures
        in_order(lines.push(l), to),
{
}

proof fn lemma_rows_in_order(lines: Seq<LineSpan>, rows: int, max: int, start: int, end: int)
    requires
        in_order(lines, start),
        0 <= start < end <= 65535,
        rows >= 1,
    ensures
        in_order(with_rows(lines, rows, max, start, end), end),
{
}

proof fn lemma_flow_step(
    page: FlowPage,
    heights: Seq<u16>,
    adv: FaceAdvance,
    ev: Event,
    word: Seq<u8>,
    style: Style,
    block: BlockProps,
    o: OpenLine,
    lines: Seq<LineSpan>,
    pos: int,
    after: int,
)
    requires
        behind(o, lines, pos),
        spans(ev, word, pos, after),
        pos < after <= 65535,
        has_slot(page, lines),
        page.max_lines > 0,
    ensures
        ({
            let f = flow_step(page, heights, adv, ev, word, style, block, o, lines);
            &&& f.lines.len() <= page.max_lines
            &&& match f.stop {
                Some(at) => 0 < at <= after && in_order(f.lines, at),
                None => behind(f.open, f.lines, after) && has_slot(page, f.lines),
            }
        }),
{
    match ev {
        Event::Word { start, .. } | Event::Nbsp { start, .. } => {
            let line_end = match o.brk {
                Some(b) => b.line_end as int,
                None => start as int,
            };
            let from = if line_end < o.start {
                line_end
            } else {
                o.start as int
            };
            lemma_push_in_order(
                lines,
                flow_line(o, o.start as int, line_end, LineSpan::END_SOFT, o.first),
                from,
                line_end,
            );
        },
        Event::Image(img) => {
            let closed = if img.start > o.start && o.cursor > 0 {
                lines.push(
                    flow_line(o, o.start as int, img.start as int, LineSpan::END_HARD, o.first),
                )
            } else {
                lines
            };
            assert(in_order(closed, img.start as int));
            lemma_rows_in_order(
                closed,
                image_rows(page, heights, o.images as int),
                page.max_lines as int,
                img.start as int,
                img.end as int,
            );
        },
        _ => {},
    }
}

proof fn lemma_flow_run(
    page: FlowPage,
    heights: Seq<u16>,
    adv: FaceAdvance,
    buf: Seq<u8>,
    s: EventState,
    o: OpenLine,
    lines: Seq<LineSpan>,
)
    requires
        buf.len() <= 65535,
        0 <= s.pos <= buf.len(),
        behind(o, lines, s.pos),
        has_slot(page, lines),
        page.max_lines > 0,
    ensures
        ({
            let (all, next) = flow_run(page, heights, adv, buf, s, o, lines);
            &&& all.len() <= page.max_lines
            &&& 0 <= next <= buf.len()
            &&& buf.len() > 0 ==> next > 0
            &&& in_order(all, next)
        }),
    decreases buf.len() - s.pos,
{
    events::law_events_advance(buf, s);
    let (ev, after) = events::next_event(buf, s);
    if let Some(e) = ev {
        let word = items::word_of(buf, e);
        lemma_flow_step(
            page,
            heights,
            adv,
            e,
            word,
            events::spec_style(after.style),
            after.props(),
            o,
            lines,
            s.pos,
            after.pos,
        );
        let f = flow_step(
            page,
            heights,
            adv,
            e,
            word,
            events::spec_style(after.style),
            after.props(),
            o,
            lines,
        );
        if f.stop is None {
            lemma_flow_run(page, heights, adv, buf, after, f.open, f.lines);
        }
    } else if o.last_end > o.start {
        lemma_push_in_order(
            lines,
            flow_line(o, o.start as int, o.last_end as int, LineSpan::END_BUFFER, o.first),
            o.start as int,
            buf.len() as int,
        );
    }
}

/// A page never has more lines than it may hold, its lines with text lie in
/// the text one behind the other and before the start of the next page, which
/// is within the text, and any text is consumed in part.
pub proof fn law_pages_advance(page: FlowPage, heights: Seq<u16>, adv: FaceAdvance, buf: Seq<u8>)
    requires
        buf.len() <= 65535,
        page.max_lines > 0,
    ensures
        ({
            let (lines, next) = flowed(page, heights, adv, buf);
            &&& lines.len() <= page.max_lines
            &&& 0 <= next <= buf.len()
            &&& buf.len() > 0 ==> next > 0
            &&& in_order(lines, next)
        }),
{
    lemma_flow_run(
        page,
        heights,
        adv,
        buf,
        top_of_text(),
        fresh_line(events::spec_style(TextStyle::spec_plain())),
        Seq::empty(),
    );
}

} // verus!
