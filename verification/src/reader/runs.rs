//! Placing a page's text: vertical positions, style runs and justification.

use crate::fonts;
use crate::layout::events;
use crate::layout::events::{Event, Events, EventState};
use crate::layout::items;
use crate::layout::pipeline;
use crate::layout::pipeline::{FaceAdvance, INDENT_PX};
use crate::layout::scan;
use crate::layout::table;
use crate::markup;
use crate::markup::Style;
use crate::reader::measure;
use crate::reader::measure::LineMeasure;
use crate::reader::span::LineSpan;
use crate::reader::wrap::LINES_PER_PAGE;
use vstd::prelude::*;

verus! {

/// Runs that a line is split into; what comes behind joins the last one.
pub const MAX_RUNS_PER_LINE: usize = 6;

/// Runs of a page: those of all its lines.
pub const MAX_PAGE_RUNS: usize = 222;

/// A stretch of text under one inline style. It is drawn from `x` on;
/// `gap0` counts the gaps of the line before it.
#[derive(Clone, Copy, Debug, PartialEq, Eq, Structural)]
pub struct Run {
    pub start: u16,
    pub len: u16,
    pub x: i16,
    /// packed style
    pub style: u8,
    pub gap0: u8,
}

/// Where a line of the page goes.
#[derive(Clone, Copy, Debug, PartialEq, Eq, Structural)]
pub struct PlacedLine {
    /// top, within the text area
    pub y: u16,
    /// where its last run ends
    pub x_end: i16,
    /// whether it is drawn with a hyphen behind it
    pub hyphen: bool,
    /// pixels added to each gap
    pub per_gap: i16,
    /// leading gaps that take one more, or if negative one fewer
    pub odd_gaps: i16,
    pub run_first: u16,
    pub run_len: u8,
}

/// The column that the text is set in.
#[derive(Clone, Copy, Debug, PartialEq, Eq, Structural)]
pub struct Column {
    pub margin: u16,
    pub text_w: u16,
    pub line_h: u16,
    pub em_px: u16,
    /// 1 for justified text
    pub alignment: u8,
}

/// A number as the 16 low bits of it read, signed.
pub open spec fn wrap16(x: int) -> int {
    let m = x % 65536;
    if m >= 32768 {
        m - 65536
    } else {
        m
    }
}

/// The nearest 16-bit number.
pub open spec fn clamp16(x: int) -> int {
    if x > 32767 {
        32767
    } else if x < -32768 {
        -32768
    } else {
        x
    }
}

fn low16(x: u32) -> (r: i16)
    ensures
        r == wrap16(x as int),
{
    let m: u32 = x % 65536;
    if m >= 32768 {
        (m as i32 - 65536) as i16
    } else {
        m as i16
    }
}

fn low16_signed(x: i32) -> (r: i16)
    ensures
        r == wrap16(x as int),
{
    let up: i64 = x as i64 + 4294967296;
    let m: i64 = up % 65536;
    if m >= 32768 {
        (m - 65536) as i16
    } else {
        m as i16
    }
}

fn nearest16(x: i64) -> (r: i16)
    ensures
        r == clamp16(x as int),
{
    if x > 32767 {
        32767
    } else if x < -32768 {
        -32768
    } else {
        x as i16
    }
}

// ── the runs of a line ────────────────────────────────────────────

/// A line's text so far: its runs, each with its natural width as `x`; its
/// width, its gaps, and how much of the width is trailing space.
pub struct Collected {
    pub runs: Seq<Run>,
    pub width: int,
    pub gaps: int,
    pub trailing: int,
}

/// What an event holds for a line: text `start..end` of width `w`.
pub enum Piece {
    Text { start: u32, end: u32, style: Style, w: int, gap: bool },
    /// nothing to draw
    Skip,
    /// the line is over
    Stop,
}

pub open spec fn piece_of(adv: FaceAdvance, ev: Event, word: Seq<u8>) -> Piece {
    match ev {
        Event::Word { start, end, style } => Piece::Text {
            start,
            end,
            style,
            w: measure::text_width(adv, word, fonts::markup_face(style)),
            gap: false,
        },
        Event::Space { start, end, style } => Piece::Text {
            start,
            end,
            style,
            w: measure::space_width(adv, fonts::markup_face(style)),
            gap: true,
        },
        Event::Nbsp { start, end, style } => Piece::Text {
            start,
            end,
            style,
            w: measure::space_width(adv, fonts::markup_face(style)),
            gap: false,
        },
        Event::SoftHyphen { start, end, style } => Piece::Text {
            start,
            end,
            style,
            w: 0,
            gap: false,
        },
        Event::Block { .. } => Piece::Skip,
        Event::Unknown { .. } => Piece::Skip,
        _ => Piece::Stop,
    }
}

/// Whether text at `start` in a style goes on with the last run.
pub open spec fn joins(runs: Seq<Run>, style: u8, start: u32) -> bool {
    &&& runs.len() > 0
    &&& (runs.last().style == style && runs.last().start + runs.last().len == start) || runs.len()
        >= MAX_RUNS_PER_LINE
}

/// The runs with text `start..end` of width `w` behind them.
pub open spec fn with_piece(
    runs: Seq<Run>,
    start: u32,
    end: u32,
    style: u8,
    w: int,
    gaps: int,
) -> Seq<Run> {
    if joins(runs, style, start) {
        let last = runs.last();
        runs.update(
            runs.len() - 1,
            Run {
                len: (end - last.start) as u16,
                x: clamp16(last.x + wrap16(w)) as i16,
                ..last
            },
        )
    } else {
        runs.push(
            Run {
                start: start as u16,
                len: (end - start) as u16,
                x: wrap16(w) as i16,
                style,
                gap0: (if gaps < 255 {
                    gaps
                } else {
                    255
                }) as u8,
            },
        )
    }
}

pub open spec fn with_text(
    c: Collected,
    start: u32,
    end: u32,
    style: Style,
    w: int,
    gap: bool,
) -> Collected {
    Collected {
        runs: with_piece(c.runs, start, end, markup::packed_style(style) as u8, w, c.gaps),
        width: c.width + w,
        gaps: if gap && c.gaps < 65535 {
            c.gaps + 1
        } else {
            c.gaps
        },
        trailing: if gap {
            c.trailing + w
        } else {
            0
        },
    }
}

/// The line's text from `s` on, behind `c`.
pub open spec fn collect(adv: FaceAdvance, buf: Seq<u8>, s: EventState, c: Collected) -> Collected
    decreases buf.len() - s.pos,
{
    let (ev, after) = events::next_event(buf, s);
    if ev is None || after.pos <= s.pos || after.pos > buf.len() {
        c
    } else {
        match piece_of(adv, ev->0, items::word_of(buf, ev->0)) {
            Piece::Stop => c,
            Piece::Skip => collect(adv, buf, after, c),
            Piece::Text { start, end, style, w, gap } => collect(
                adv,
                buf,
                after,
                with_text(c, start, end, style, w, gap),
            ),
        }
    }
}

/// The text of a line.
pub open spec fn line_text(adv: FaceAdvance, span: LineSpan, text: Seq<u8>) -> Collected {
    collect(
        adv,
        text,
        events::state_at(
            span.start as int,
            events::spec_text_style(span.spec_start_style()),
        ),
        Collected { runs: Seq::empty(), width: 0, gaps: 0, trailing: 0 },
    )
}

/// What a line's text measures.
#[derive(Clone, Copy, Debug, PartialEq, Eq, Structural)]
pub struct Tally {
    pub width: u32,
    pub gaps: u16,
    pub trailing: u32,
}

fn push_piece(
    runs: &mut Vec<Run>,
    start: u32,
    end: u32,
    style: u8,
    w: u32,
    gaps: u16,
    Ghost(pos): Ghost<int>,
)
    requires
        pos <= start < end <= 65535,
        forall|k: int| 0 <= k < old(runs)@.len() ==> (#[trigger] old(runs)@[k]).start <= pos,
        old(runs)@.len() <= MAX_RUNS_PER_LINE,
    ensures
        final(runs)@ == with_piece(old(runs)@, start, end, style, w as int, gaps as int),
        forall|k: int| 0 <= k < final(runs)@.len() ==> (#[trigger] final(runs)@[k]).start <= end,
        final(runs)@.len() <= MAX_RUNS_PER_LINE,
{
    let n: usize = runs.len();
    let joined: bool = n > 0 && {
        let last = &runs[n - 1];
        (last.style == style && last.start as u32 + last.len as u32 == start) || n
            >= MAX_RUNS_PER_LINE
    };
    if joined {
        let last: Run = runs[n - 1];
        runs.set(
            n - 1,
            Run {
                start: last.start,
                len: (end - last.start as u32) as u16,
                x: nearest16(last.x as i64 + low16(w) as i64),
                style: last.style,
                gap0: last.gap0,
            },
        );
    } else {
        runs.push(
            Run {
                start: start as u16,
                len: (end - start) as u16,
                x: low16(w),
                style,
                gap0: if gaps < 255 {
                    gaps as u8
                } else {
                    255
                },
            },
        );
    }
}

fn collect_line<F: Fn(Option<char>, char, fonts::Style) -> i16>(
    text: &[u8],
    span: &LineSpan,
    advance: &F,
) -> (r: (Vec<Run>, Tally))
    requires
        text@.len() <= 65535,
        span.start <= text@.len(),
        pipeline::face_callable(*advance),
    ensures
        forall|adv: FaceAdvance| #[trigger]
            pipeline::face_measures(*advance, adv) ==> line_text(adv, *span, text@) == (Collected {
                runs: r.0@,
                width: r.1.width as int,
                gaps: r.1.gaps as int,
                trailing: r.1.trailing as int,
            }),
        r.0@.len() <= MAX_RUNS_PER_LINE,
        r.1.width <= 32767 * (text@.len() - span.start),
{
    let mut ev = Events::resume(text, span.start as usize, span.start_style());
    let mut runs: Vec<Run> = Vec::new();
    let mut width: u32 = 0;
    let mut gaps: u16 = 0;
    let mut trailing: u32 = 0;
    proof {
        assert(runs@ =~= Seq::<Run>::empty());
    }
    loop
        invariant_except_break
            ev.wf(),
            ev.bytes() == text@,
            span.start <= ev.state().pos,
            width <= 32767 * (ev.state().pos - span.start),
            forall|k: int| 0 <= k < runs@.len() ==> (#[trigger] runs@[k]).start <= ev.state().pos,
            forall|adv: FaceAdvance| #[trigger]
                pipeline::face_measures(*advance, adv) ==> collect(
                    adv,
                    text@,
                    ev.state(),
                    (Collected {
                        runs: runs@,
                        width: width as int,
                        gaps: gaps as int,
                        trailing: trailing as int,
                    }),
                ) == line_text(adv, *span, text@),
        invariant
            text@.len() <= 65535,
            pipeline::face_callable(*advance),
            runs@.len() <= MAX_RUNS_PER_LINE,
            trailing <= width,
        ensures
            width <= 32767 * (text@.len() - span.start),
            forall|adv: FaceAdvance| #[trigger]
                pipeline::face_measures(*advance, adv) ==> line_text(adv, *span, text@) == (
                Collected {
                    runs: runs@,
                    width: width as int,
                    gaps: gaps as int,
                    trailing: trailing as int,
                }),
        decreases text@.len() - ev.state().pos,
    {
        let ghost before = ev.state();
        proof {
            events::law_events_advance(text@, before);
        }
        let e: Event = match ev.next_event() {
            None => break,
            Some(e) => e,
        };
        let ghost word = items::word_of(text@, e);
        let (start, end, style, w, gap): (u32, u32, Style, u32, bool) = match e {
            Event::Word { start, end, style } => {
                let part: &[u8] = vstd::slice::slice_subrange(text, start as usize, end as usize);
                let w: u32 = measure::measure_bytes(part, advance, fonts::Style::from_markup(style));
                (start, end, style, w, false)
            },
            Event::Space { start, end, style } => {
                let w: u32 = measure::measure_space(advance, fonts::Style::from_markup(style));
                (start, end, style, w, true)
            },
            Event::Nbsp { start, end, style } => {
                let w: u32 = measure::measure_space(advance, fonts::Style::from_markup(style));
                (start, end, style, w, false)
            },
            Event::SoftHyphen { start, end, style } => (start, end, style, 0, false),
            Event::Block { .. } => continue,
            Event::Unknown { .. } => continue,
            _ => break,
        };
        push_piece(&mut runs, start, end, style.pack(), w, gaps, Ghost(before.pos));
        width = width + w;
        if gap {
            trailing = trailing + w;
            if gaps < 65535 {
                gaps = gaps + 1;
            }
        } else {
            trailing = 0;
        }
    }
    (runs, Tally { width, gaps, trailing })
}

// ── placing a line ────────────────────────────────────────────────

/// Gaps of the line before the run behind run `k`.
pub open spec fn gaps_to(runs: Seq<Run>, k: int, gaps: int) -> int {
    if k + 1 < runs.len() {
        runs[k + 1].gap0 as int
    } else {
        gaps
    }
}

/// How many of the gaps `g0..g1` are among the first `n`.
pub open spec fn among_first(n: int, g0: int, g1: int) -> int {
    let upto = if n < g1 {
        n
    } else {
        g1
    };
    if upto > g0 {
        upto - g0
    } else {
        0
    }
}

/// Width of run `k` once its gaps are adjusted: by `per` each, and the first
/// `odd` gaps of the line by one more, or fewer if negative.
pub open spec fn set_width(runs: Seq<Run>, k: int, per: int, odd: int, gaps: int) -> int {
    let g0 = runs[k].gap0 as int;
    let g1 = gaps_to(runs, k, gaps);
    runs[k].x + per * (g1 - g0) + (if odd > 0 {
        among_first(odd, g0, g1)
    } else {
        -among_first(-odd, g0, g1)
    })
}

/// Where run `k` starts, if the line starts at `x0`.
pub open spec fn pen_at(runs: Seq<Run>, k: int, per: int, odd: int, gaps: int, x0: int) -> int
    decreases k,
{
    if k <= 0 {
        x0
    } else {
        pen_at(runs, k - 1, per, odd, gaps, x0) + set_width(runs, k - 1, per, odd, gaps)
    }
}

/// The runs with their places in `x`.
pub open spec fn placed(
    runs: Seq<Run>,
    per: int,
    odd: int,
    gaps: int,
    x0: int,
) -> Seq<Run> {
    Seq::new(
        runs.len(),
        |k: int| Run { x: clamp16(pen_at(runs, k, per, odd, gaps, x0)) as i16, ..runs[k] },
    )
}

/// A byte of a word: printable, neither a space nor a marker.
pub open spec fn word_byte(b: u8) -> bool {
    b > 0x20 && b != scan::MARKER
}

pub fn is_word_byte(b: u8) -> (r: bool)
    ensures
        r == word_byte(b),
{
    b > 0x20 && b != scan::MARKER
}

/// Where the text of a line ends.
pub open spec fn text_end(span: LineSpan, buf: Seq<u8>) -> int {
    if span.start + span.len < buf.len() {
        span.start + span.len
    } else {
        buf.len() as int
    }
}

/// Whether a line ends inside a word, with no hyphen there already.
pub open spec fn ends_in_word(buf: Seq<u8>, end: int) -> bool {
    &&& 0 < end < buf.len()
    &&& word_byte(buf[end])
    &&& word_byte(buf[end - 1])
    &&& buf[end - 1] != 0x2D
}

/// The face that a hyphen behind the runs is drawn in.
pub open spec fn last_face(runs: Seq<Run>, span: LineSpan) -> fonts::Style {
    if runs.len() > 0 {
        fonts::markup_face(markup::unpacked_style(runs.last().style))
    } else {
        span_face(span)
    }
}

pub open spec fn span_face(span: LineSpan) -> fonts::Style {
    fonts::face(
        span.flags % 2 == 1,
        (span.flags / 2) % 2 == 1,
        span.heading(),
        span.heading_level(),
    )
}

pub open spec fn char_width(adv: FaceAdvance, ch: char, face: fonts::Style) -> int {
    let a = adv(None, ch, face);
    if a < 0 {
        0
    } else {
        a as int
    }
}

/// Indent of a line: of its block, and of its paragraph's first line.
pub open spec fn line_indent(span: LineSpan, em_px: u16) -> int {
    INDENT_PX * (span.indent % 16) + table::spec_indent_px((span.indent / 16) as u8, em_px)
}

/// Room between a line's indent and the right edge.
pub open spec fn line_room(col: Column, span: LineSpan) -> int {
    if col.text_w > line_indent(span, col.em_px) {
        col.text_w - line_indent(span, col.em_px)
    } else {
        0
    }
}

/// How far an alignment moves a line of width `w`.
pub open spec fn align_shift(span: LineSpan, room: int, w: int) -> int {
    let spare = if room > w {
        room - w
    } else {
        0
    };
    if span.align_code() == 2 {
        spare / 2
    } else if span.align_code() == 3 {
        spare
    } else {
        0
    }
}

/// Width of the hyphen behind a line.
pub open spec fn hyphen_width(adv: FaceAdvance, span: LineSpan, buf: Seq<u8>, runs: Seq<Run>) -> int {
    if ends_in_word(buf, text_end(span, buf)) {
        char_width(adv, '-', last_face(runs, span))
    } else {
        0
    }
}

/// What a line measures: without trailing space, with its hyphen.
pub open spec fn line_measure(adv: FaceAdvance, span: LineSpan, buf: Seq<u8>, c: Collected) -> LineMeasure {
    LineMeasure {
        width: ((if c.width > c.trailing {
            c.width - c.trailing
        } else {
            0
        }) + hyphen_width(adv, span, buf, c.runs)) as u32,
        gaps: c.gaps as u16,
    }
}

/// Where a line's first run starts.
pub open spec fn line_x(col: Column, span: LineSpan, m: LineMeasure) -> int {
    col.margin + line_indent(span, col.em_px) + align_shift(
        span,
        line_room(col, span),
        m.width as int,
    )
}

/// A line that holds no text.
pub open spec fn bare_line(y: int, first: int) -> PlacedLine {
    PlacedLine {
        y: (y % 65536) as u16,
        x_end: 0,
        hyphen: false,
        per_gap: 0,
        odd_gaps: 0,
        run_first: first as u16,
        run_len: 0,
    }
}

/// Whether there is text of the line on the page.
pub open spec fn has_text(span: LineSpan, buf: Seq<u8>) -> bool {
    !span.image() && span.len > 0 && span.start < text_end(span, buf)
}

/// A line at height `y`, and its runs, which stand behind `first` others.
pub open spec fn line_placed(
    adv: FaceAdvance,
    col: Column,
    span: LineSpan,
    buf: Seq<u8>,
    y: int,
    first: int,
) -> (PlacedLine, Seq<Run>) {
    if !has_text(span, buf) {
        (bare_line(y, first), Seq::empty())
    } else {
        let end = text_end(span, buf);
        let c = line_text(adv, span, buf.take(end));
        let m = line_measure(adv, span, buf, c);
        let (per, odd) = measure::justify(
            col.alignment,
            span,
            m,
            line_room(col, span),
            measure::space_width(adv, span_face(span)),
        );
        let x0 = line_x(col, span, m);
        (
            PlacedLine {
                y: (y % 65536) as u16,
                x_end: clamp16(pen_at(c.runs, c.runs.len() as int, per, odd, c.gaps, x0)) as i16,
                hyphen: ends_in_word(buf, end),
                per_gap: wrap16(per) as i16,
                odd_gaps: wrap16(odd) as i16,
                run_first: first as u16,
                run_len: c.runs.len() as u8,
            },
            placed(c.runs, per, odd, c.gaps, x0),
        )
    }
}

fn measure_char<F: Fn(Option<char>, char, fonts::Style) -> i16>(
    advance: &F,
    ch: char,
    face: fonts::Style,
) -> (w: u32)
    requires
        pipeline::face_callable(*advance),
    ensures
        forall|adv: FaceAdvance| #[trigger]
            pipeline::face_measures(*advance, adv) ==> w == char_width(adv, ch, face),
        w <= 32767,
{
    let a: i16 = advance(None, ch, face);
    if a < 0 {
        0
    } else {
        a as u32
    }
}

fn count_among_first(n: i64, g0: i64, g1: i64) -> (r: i64)
    requires
        -65536 <= n <= 65536,
        0 <= g0 <= 65536,
        0 <= g1 <= 65536,
    ensures
        r == among_first(n as int, g0 as int, g1 as int),
        0 <= r <= 65536,
{
    let upto: i64 = if n < g1 {
        n
    } else {
        g1
    };
    if upto > g0 {
        upto - g0
    } else {
        0
    }
}

/// Put the runs in their places: where the last one ends.
fn place_runs(runs: &mut Vec<Run>, per: i32, odd: i32, gaps: u16, x0: i32) -> (x_end: i16)
    requires
        old(runs)@.len() <= MAX_RUNS_PER_LINE,
        -100000 <= per <= 100000,
        -65536 <= odd <= 65536,
    ensures
        final(runs)@ == placed(old(runs)@, per as int, odd as int, gaps as int, x0 as int),
        x_end == clamp16(
            pen_at(
                old(runs)@,
                old(runs)@.len() as int,
                per as int,
                odd as int,
                gaps as int,
                x0 as int,
            ),
        ),
{
    let ghost all = runs@;
    let n: usize = runs.len();
    let mut cx: i64 = x0 as i64;
    let mut k: usize = 0;
    while k < n
        invariant
            n == runs@.len() == all.len() <= MAX_RUNS_PER_LINE,
            k <= n,
            -100000 <= per <= 100000,
            -65536 <= odd <= 65536,
            cx == pen_at(all, k as int, per as int, odd as int, gaps as int, x0 as int),
            -0x8000_0000 - 7000000000 * k <= cx <= 0x7fff_ffff + 7000000000 * k,
            forall|j: int| k <= j < n ==> #[trigger] runs@[j] == all[j],
            forall|j: int|
                0 <= j < k ==> #[trigger] runs@[j] == placed(
                    all,
                    per as int,
                    odd as int,
                    gaps as int,
                    x0 as int,
                )[j],
        decreases n - k,
    {
        let run: Run = runs[k];
        let g0: i64 = run.gap0 as i64;
        let g1: i64 = if k + 1 < n {
            runs[k + 1].gap0 as i64
        } else {
            gaps as i64
        };
        proof {
            assert(-6553600000 <= per * (g1 - g0) <= 6553600000) by (nonlinear_arith)
                requires
                    -100000 <= per <= 100000,
                    -65536 <= g1 - g0 <= 65536,
            ;
        }
        let share: i64 = if odd > 0 {
            count_among_first(odd as i64, g0, g1)
        } else {
            -count_among_first(-(odd as i64), g0, g1)
        };
        let w: i64 = run.x as i64 + (per as i64) * (g1 - g0) + share;
        proof {
            assert(w == set_width(all, k as int, per as int, odd as int, gaps as int));
        }
        runs.set(
            k,
            Run {
                start: run.start,
                len: run.len,
                x: nearest16(cx),
                style: run.style,
                gap0: run.gap0,
            },
        );
        cx = cx + w;
        k = k + 1;
    }
    proof {
        assert(runs@ =~= placed(all, per as int, odd as int, gaps as int, x0 as int));
    }
    nearest16(cx)
}

fn place_line<F: Fn(Option<char>, char, fonts::Style) -> i16>(
    buf: &[u8],
    span: &LineSpan,
    advance: &F,
    col: &Column,
    y: u16,
    first: u16,
) -> (r: (PlacedLine, Vec<Run>))
    requires
        buf@.len() <= 65535,
        pipeline::face_callable(*advance),
    ensures
        forall|adv: FaceAdvance| #[trigger]
            pipeline::face_measures(*advance, adv) ==> (r.0, r.1@) == line_placed(
                adv,
                *col,
                *span,
                buf@,
                y as int,
                first as int,
            ),
        r.1@.len() <= MAX_RUNS_PER_LINE,
{
    let start: usize = span.start as usize;
    let mut end: usize = start + span.len as usize;
    if end > buf.len() {
        end = buf.len();
    }
    if span.is_image() || span.len == 0 || start >= end {
        let runs: Vec<Run> = Vec::new();
        proof {
            assert(runs@ =~= Seq::<Run>::empty());
        }
        return (
            PlacedLine {
                y,
                x_end: 0,
                hyphen: false,
                per_gap: 0,
                odd_gaps: 0,
                run_first: first,
                run_len: 0,
            },
            runs,
        );
    }
    let text: &[u8] = vstd::slice::slice_subrange(buf, 0, end);
    proof {
        assert(text@ =~= buf@.take(end as int));
    }
    let (mut runs, tally): (Vec<Run>, Tally) = collect_line(text, span, advance);
    // a line that ends inside a word was broken at a hyphenation point
    let hyphen: bool = end < buf.len() && is_word_byte(buf[end]) && is_word_byte(buf[end - 1])
        && buf[end - 1] != 0x2D;
    let hyphen_w: u32 = if hyphen {
        let face: fonts::Style = if runs.len() > 0 {
            fonts::Style::from_markup(Style::unpack(runs[runs.len() - 1].style))
        } else {
            span.style()
        };
        measure_char(advance, '-', face)
    } else {
        0
    };
    let m = LineMeasure {
        width: tally.width.saturating_sub(tally.trailing) + hyphen_w,
        gaps: tally.gaps,
    };
    let indent: u32 = INDENT_PX * span.left_levels() as u32 + table::indent_px(
        span.first_indent_qem(),
        col.em_px,
    ) as u32;
    let avail: u32 = (col.text_w as u32).saturating_sub(indent);
    let space_w: u32 = measure::measure_space(advance, span.style());
    let (per, odd): (i32, i32) = measure::justify_params(
        col.alignment,
        span,
        m,
        avail as i32,
        space_w as i32,
    );
    proof {
        if (per as int, odd as int) != (0int, 0int) {
            measure::law_justified_lines_fill_the_column(
                col.alignment,
                *span,
                m,
                avail as int,
                space_w as int,
            );
        }
    }
    let spare: u32 = avail.saturating_sub(m.width);
    let shift: u32 = if span.is_centered() {
        spare / 2
    } else if span.is_right_aligned() {
        spare
    } else {
        0
    };
    let x0: i32 = (col.margin as u32 + indent + shift) as i32;
    let run_len: u8 = runs.len() as u8;
    let x_end: i16 = place_runs(&mut runs, per, odd, tally.gaps, x0);
    (
        PlacedLine {
            y,
            x_end,
            hyphen,
            per_gap: low16_signed(per),
            odd_gaps: low16_signed(odd),
            run_first: first,
            run_len,
        },
        runs,
    )
}

// ── placing a page ────────────────────────────────────────────────

/// Top of line `k` in quarters of a line.
pub open spec fn top_q(lines: Seq<LineSpan>, col: Column, k: int) -> int
    decreases k,
{
    if k <= 0 {
        0
    } else {
        top_q(lines, col, k - 1) + 4 + table::spec_gap_quarters(
            (lines[k].align / 16) as u8,
            col.em_px,
            col.line_h,
        )
    }
}

/// The first `k` lines in their places, and their runs.
pub open spec fn page_placed(
    adv: FaceAdvance,
    col: Column,
    lines: Seq<LineSpan>,
    buf: Seq<u8>,
    k: int,
) -> (Seq<PlacedLine>, Seq<Run>)
    decreases k,
{
    if k <= 0 {
        (Seq::empty(), Seq::empty())
    } else {
        let (done, runs) = page_placed(adv, col, lines, buf, k - 1);
        let (line, more) = line_placed(
            adv,
            col,
            lines[k - 1],
            buf,
            top_q(lines, col, k - 1) * col.line_h / 4,
            runs.len() as int,
        );
        (done.push(line), runs + more)
    }
}

/// Decode a loaded page once: where its lines and their style runs go. `buf`
/// holds the page's text.
#[verifier::spinoff_prover]
#[verifier::rlimit(40)]
pub fn build_page_runs<F: Fn(Option<char>, char, fonts::Style) -> i16>(
    buf: &[u8],
    lines: &[LineSpan],
    advance: &F,
    col: &Column,
) -> (r: (Vec<PlacedLine>, Vec<Run>))
    requires
        buf@.len() <= 65535,
        lines@.len() <= LINES_PER_PAGE,
        pipeline::face_callable(*advance),
    ensures
        forall|adv: FaceAdvance| #[trigger]
            pipeline::face_measures(*advance, adv) ==> (r.0@, r.1@) == page_placed(
                adv,
                *col,
                lines@,
                buf@,
                lines@.len() as int,
            ),
        r.1@.len() <= MAX_PAGE_RUNS,
{
    let mut out: Vec<PlacedLine> = Vec::new();
    let mut runs: Vec<Run> = Vec::new();
    let mut y_q: u64 = 0;
    let mut k: usize = 0;
    proof {
        assert(out@ =~= Seq::<PlacedLine>::empty());
        assert(runs@ =~= Seq::<Run>::empty());
    }
    while k < lines.len()
        invariant
            k <= lines@.len() <= LINES_PER_PAGE,
            buf@.len() <= 65535,
            pipeline::face_callable(*advance),
            runs@.len() <= k * MAX_RUNS_PER_LINE,
            y_q == (if k == 0 {
                0
            } else {
                top_q(lines@, *col, k - 1) + 4
            }),
            0 <= y_q <= 70000 * k,
            forall|adv: FaceAdvance| #[trigger]
                pipeline::face_measures(*advance, adv) ==> (out@, runs@) == page_placed(
                    adv,
                    *col,
                    lines@,
                    buf@,
                    k as int,
                ),
        decreases lines@.len() - k,
    {
        let span: LineSpan = lines[k];
        if k > 0 {
            y_q = y_q + table::gap_quarters(span.gap_qem(), col.em_px, col.line_h) as u64;
        }
        proof {
            assert(y_q * col.line_h <= 4000000u64 * 65535) by (nonlinear_arith)
                requires
                    0 <= y_q <= 4000000,
                    0 <= col.line_h <= 65535,
            ;
            assert(0 <= y_q * col.line_h) by (nonlinear_arith)
                requires
                    0 <= y_q,
                    0 <= col.line_h,
            ;
        }
        let y: u16 = ((y_q * col.line_h as u64 / 4) % 65536) as u16;
        let first: u16 = runs.len() as u16;
        let (line, mut more): (PlacedLine, Vec<Run>) = place_line(
            buf,
            &span,
            advance,
            col,
            y,
            first,
        );
        out.push(line);
        runs.append(&mut more);
        y_q = y_q + 4;
        k = k + 1;
    }
    (out, runs)
}

/// Rows of a page that is drawn without fonts: one line height each.
pub fn fixed_rows(lines: usize, line_h: u16) -> (out: Vec<PlacedLine>)
    requires
        lines <= LINES_PER_PAGE,
    ensures
        out@ == Seq::new(lines as nat, |k: int| bare_line(k * line_h, 0)),
{
    let mut out: Vec<PlacedLine> = Vec::new();
    let mut k: usize = 0;
    while k < lines
        invariant
            k <= lines <= LINES_PER_PAGE,
            out@.len() == k,
            forall|j: int| 0 <= j < k ==> #[trigger] out@[j] == bare_line(j * line_h, 0),
        decreases lines - k,
    {
        proof {
            assert(0 <= k * line_h <= 37 * 65535) by (nonlinear_arith)
                requires
                    0 <= k <= 37,
                    0 <= line_h <= 65535,
            ;
        }
        out.push(
            PlacedLine {
                y: ((k as u32 * line_h as u32) % 65536) as u16,
                x_end: 0,
                hyphen: false,
                per_gap: 0,
                odd_gaps: 0,
                run_first: 0,
                run_len: 0,
            },
        );
        k = k + 1;
    }
    proof {
        assert(out@ =~= Seq::new(lines as nat, |k: int| bare_line(k * line_h, 0)));
    }
    out
}

// ── what holds of every line ──────────────────────────────────────

/// Natural width of the first `k` runs.
pub open spec fn natural_width(runs: Seq<Run>, k: int) -> int
    decreases k,
{
    if k <= 0 {
        0
    } else {
        natural_width(runs, k - 1) + runs[k - 1].x
    }
}

/// The runs add up to the line: their widths to its width, and their gaps
/// count up from zero to at most its gaps.
pub open spec fn adds_up(c: Collected) -> bool {
    &&& natural_width(c.runs, c.runs.len() as int) == c.width
    &&& forall|k: int| 0 <= k < c.runs.len() ==> (#[trigger] c.runs[k]).x >= 0
    &&& forall|k: int| 0 <= k < c.runs.len() ==> (#[trigger] c.runs[k]).gap0 <= c.gaps
    &&& forall|j: int, k: int|
        0 <= j <= k < c.runs.len() ==> (#[trigger] c.runs[j]).gap0 <= (#[trigger] c.runs[k]).gap0
    &&& c.runs.len() > 0 ==> c.runs[0].gap0 == 0
    &&& c.runs.len() == 0 ==> c.gaps == 0
    &&& 0 <= c.trailing <= c.width
}

proof fn lemma_natural_prefix(a: Seq<Run>, b: Seq<Run>, k: int)
    requires
        0 <= k <= a.len(),
        k <= b.len(),
        forall|j: int| 0 <= j < k ==> a[j].x == b[j].x,
    ensures
        natural_width(a, k) == natural_width(b, k),
    decreases k,
{
    if k > 0 {
        lemma_natural_prefix(a, b, k - 1);
    }
}

proof fn lemma_natural_nonneg(a: Seq<Run>, k: int)
    requires
        0 <= k <= a.len(),
        forall|j: int| 0 <= j < a.len() ==> (#[trigger] a[j]).x >= 0,
    ensures
        natural_width(a, k) >= 0,
    decreases k,
{
    if k > 0 {
        lemma_natural_nonneg(a, k - 1);
    }
}

proof fn lemma_text_adds_up(
    c: Collected,
    start: u32,
    end: u32,
    style: Style,
    w: int,
    gap: bool,
)
    requires
        adds_up(c),
        w >= 0,
        0 <= c.gaps,
        with_text(c, start, end, style, w, gap).gaps <= 255,
        c.width + w <= 32767,
    ensures
        adds_up(with_text(c, start, end, style, w, gap)),
{
    let d = with_text(c, start, end, style, w, gap);
    let n = c.runs.len() as int;
    lemma_natural_nonneg(c.runs, n);
    if joins(c.runs, markup::packed_style(style) as u8, start) {
        lemma_natural_nonneg(c.runs, n - 1);
        lemma_natural_prefix(c.runs, d.runs, n - 1);
    } else {
        lemma_natural_prefix(c.runs, d.runs, n);
        assert(d.runs[n].x == w);
    }
}

proof fn lemma_collect_grows(adv: FaceAdvance, buf: Seq<u8>, s: EventState, c: Collected)
    ensures
        collect(adv, buf, s, c).width >= c.width,
        collect(adv, buf, s, c).gaps >= c.gaps,
    decreases buf.len() - s.pos,
{
    let (ev, after) = events::next_event(buf, s);
    if !(ev is None || after.pos <= s.pos || after.pos > buf.len()) {
        match piece_of(adv, ev->0, items::word_of(buf, ev->0)) {
            Piece::Stop => {},
            Piece::Skip => {
                lemma_collect_grows(adv, buf, after, c);
            },
            Piece::Text { start, end, style, w, gap } => {
                lemma_collect_grows(adv, buf, after, with_text(c, start, end, style, w, gap));
            },
        }
    }
}

proof fn lemma_collect_adds_up(adv: FaceAdvance, buf: Seq<u8>, s: EventState, c: Collected)
    requires
        adds_up(c),
        0 <= c.gaps,
        collect(adv, buf, s, c).width <= 32767,
        collect(adv, buf, s, c).gaps <= 255,
    ensures
        adds_up(collect(adv, buf, s, c)),
    decreases buf.len() - s.pos,
{
    let (ev, after) = events::next_event(buf, s);
    if !(ev is None || after.pos <= s.pos || after.pos > buf.len()) {
        match piece_of(adv, ev->0, items::word_of(buf, ev->0)) {
            Piece::Stop => {},
            Piece::Skip => {
                lemma_collect_adds_up(adv, buf, after, c);
            },
            Piece::Text { start, end, style, w, gap } => {
                let d = with_text(c, start, end, style, w, gap);
                lemma_collect_grows(adv, buf, after, d);
                lemma_text_adds_up(c, start, end, style, w, gap);
                lemma_collect_adds_up(adv, buf, after, d);
            },
        }
    }
}

/// The share of the first `n` gaps that lies before gap `g`.
spec fn share(n: int, g: int) -> int {
    if n < g {
        n
    } else {
        g
    }
}

proof fn lemma_pen(c: Collected, per: int, odd: int, x0: int, k: int)
    requires
        adds_up(c),
        0 < k <= c.runs.len(),
    ensures
        ({
            let g = gaps_to(c.runs, k - 1, c.gaps);
            pen_at(c.runs, k, per, odd, c.gaps, x0) == x0 + natural_width(c.runs, k) + per * g + (
            if odd > 0 {
                share(odd, g)
            } else {
                -share(-odd, g)
            })
        }),
    decreases k,
{
    let g0 = c.runs[k - 1].gap0 as int;
    let g1 = gaps_to(c.runs, k - 1, c.gaps);
    assert(g0 <= g1);
    assert(per * (g1 - g0) == per * g1 - per * g0) by (nonlinear_arith);
    if k > 1 {
        lemma_pen(c, per, odd, x0, k - 1);
        assert(gaps_to(c.runs, k - 2, c.gaps) == g0);
    } else {
        assert(pen_at(c.runs, 0, per, odd, c.gaps, x0) == x0);
        assert(natural_width(c.runs, 0) == 0);
    }
}

/// A justified line reaches the right edge exactly: its last run, less the
/// spaces that trail and with the hyphen that follows, ends where the column
/// does. (Of a line of at most 255 gaps, whose widths fit in 16 bits.)
pub proof fn law_justified_lines_reach_the_edge(
    adv: FaceAdvance,
    col: Column,
    span: LineSpan,
    buf: Seq<u8>,
    y: int,
    first: int,
)
    requires
        has_text(span, buf),
        ({
            let c = line_text(adv, span, buf.take(text_end(span, buf)));
            let (line, runs) = line_placed(adv, col, span, buf, y, first);
            &&& line.per_gap != 0 || line.odd_gaps != 0
            &&& c.width <= 32767
            &&& c.gaps <= 255
            &&& col.margin + line_indent(span, col.em_px) + line_room(col, span) + c.trailing <= 32767
        }),
    ensures
        ({
            let c = line_text(adv, span, buf.take(text_end(span, buf)));
            let (line, runs) = line_placed(adv, col, span, buf, y, first);
            line.x_end - c.trailing + hyphen_width(adv, span, buf, c.runs) == col.margin
                + line_indent(span, col.em_px) + line_room(col, span)
        }),
{
    let text = buf.take(text_end(span, buf));
    let c = line_text(adv, span, text);
    let m = line_measure(adv, span, buf, c);
    let space_w = measure::space_width(adv, span_face(span));
    let room = line_room(col, span);
    let (per, odd) = measure::justify(col.alignment, span, m, room, space_w);
    let c0 = Collected { runs: Seq::empty(), width: 0, gaps: 0, trailing: 0 };
    assert(adds_up(c0));
    let s0 = events::state_at(
        span.start as int,
        events::spec_text_style(span.spec_start_style()),
    );
    lemma_collect_adds_up(adv, text, s0, c0);
    lemma_collect_grows(adv, text, s0, c0);
    measure::law_justified_lines_fill_the_column(col.alignment, span, m, room, space_w);
    let n = c.runs.len() as int;
    lemma_pen(c, per, odd, line_x(col, span, m), n);
    assert(gaps_to(c.runs, n - 1, c.gaps) == c.gaps);
    assert(m.gaps == c.gaps);
    assert(per * c.gaps == per * m.gaps);
    let x_end = pen_at(c.runs, n, per, odd, c.gaps, line_x(col, span, m));
    assert(line_x(col, span, m) == col.margin + line_indent(span, col.em_px));
}

} // verus!
