//! What is drawn on a page, in order: glyphs, strokes and images. The screen
//! is drawn in strips, and only what touches a strip is listed for it.

use crate::fonts;
use crate::layout::pipeline;
use crate::layout::pipeline::FaceAdvance;
use crate::layout::scan;
use crate::markup;
use crate::markup::Style;
use crate::reader::measure;
use crate::reader::measure::FIRST_CHAR;
use crate::reader::runs;
use crate::reader::runs::{PlacedLine, Run};
use crate::reader::span::LineSpan;
use crate::reader::screen;
use crate::reader::state::{ReaderApp, State, TextArea};
use crate::ui::Region;
use crate::utf8;
use vstd::prelude::*;

verus! {

/// Pixels that a glyph may reach beyond its pen position.
pub const OVERHANG: i64 = 8;

/// Something to draw.
#[derive(Clone, Copy, Debug, PartialEq, Eq, Structural)]
pub enum PageOp {
    Glyph { ch: char, face: fonts::Style, x: i64, baseline: i64 },
    /// a line of one pixel
    Stroke { x: i64, y: i64, w: i64 },
    /// the first `rows` rows of the page's image
    Image { x: i64, y: i64, rows: i64 },
    /// bytes of the page that stand in for an image
    Alt { start: usize, len: usize, x: i64, baseline: i64 },
    /// the word `[image]`, where the image has no text
    NoAlt { x: i64, baseline: i64 },
}

/// How a run is set: its face, the line's baseline, the pixels of every gap,
/// and how many gaps of the line take one more (or fewer if negative).
#[derive(Clone, Copy, Debug, PartialEq, Eq, Structural)]
pub struct RunSetting {
    pub face: fonts::Style,
    pub baseline: i64,
    pub per: i64,
    pub odd: i64,
}

/// Pixels behind gap `gap` of the line.
pub open spec fn gap_extra(set: RunSetting, gap: int) -> int {
    set.per + (if set.odd > 0 && gap < set.odd {
        1int
    } else if set.odd < 0 && gap < -set.odd {
        -1
    } else {
        0
    })
}

/// The glyphs of a run from byte `pos` on, the pen at `cx`, up to the right
/// edge `stop`; and where the pen ends.
pub open spec fn glyphs(
    adv: FaceAdvance,
    set: RunSetting,
    bytes: Seq<u8>,
    stop: int,
    pos: int,
    cx: int,
    prev: Option<char>,
    gap: int,
    done: Seq<PageOp>,
) -> (Seq<PageOp>, int)
    decreases bytes.len() - pos,
{
    if pos < 0 || pos >= bytes.len() || cx >= stop {
        (done, cx)
    } else {
        let b = bytes[pos];
        let (cp, len) = utf8::utf8_at(bytes, pos);
        if b < FIRST_CHAR || 0x80 <= b < 0xC0 {
            glyphs(adv, set, bytes, stop, pos + 1, cx, None, gap, done)
        } else if len < 1 || pos + len > bytes.len() {
            (done, cx)
        } else if cp == 0xAD {
            glyphs(adv, set, bytes, stop, pos + len, cx, None, gap, done)
        } else {
            let ch = cp as char;
            let after = cx + adv(prev, ch, set.face);
            let more = done.push(
                PageOp::Glyph {
                    ch,
                    face: set.face,
                    x: (after - adv(None, ch, set.face)) as i64,
                    baseline: set.baseline,
                },
            );
            if cp == 0x20 {
                glyphs(
                    adv,
                    set,
                    bytes,
                    stop,
                    pos + len,
                    after + gap_extra(set, gap),
                    None,
                    gap + 1,
                    more,
                )
            } else {
                glyphs(adv, set, bytes, stop, pos + len, after, Some(ch), gap, more)
            }
        }
    }
}

/// Append the glyphs of a run that may touch what is left of `stop`.
fn draw_glyphs<F: Fn(Option<char>, char, fonts::Style) -> i16>(
    advance: &F,
    set: RunSetting,
    bytes: &[u8],
    stop: i64,
    x0: i64,
    gap0: i64,
    out: &mut Vec<PageOp>,
)
    requires
        pipeline::face_callable(*advance),
        bytes@.len() <= 65535,
        -32768 <= x0 <= 32767,
        0 <= gap0 <= 255,
        -32768 <= set.per <= 32767,
        -32768 <= set.odd <= 32767,
    ensures
        forall|adv: FaceAdvance| #[trigger]
            pipeline::face_measures(*advance, adv) ==> final(out)@ == glyphs(
                adv,
                set,
                bytes@,
                stop as int,
                0,
                x0 as int,
                None,
                gap0 as int,
                old(out)@,
            ).0,
{
    let mut cx: i64 = x0;
    let mut gap: i64 = gap0;
    let mut prev: Option<char> = None;
    let mut j: usize = 0;
    while j < bytes.len() && cx < stop
        invariant
            j <= bytes@.len() <= 65535,
            pipeline::face_callable(*advance),
            -32768 <= set.per <= 32767,
            -32768 <= set.odd <= 32767,
            -32768 - 65537 * j <= cx <= 32767 + 65536 * j,
            0 <= gap <= 255 + j,
            forall|adv: FaceAdvance| #[trigger]
                pipeline::face_measures(*advance, adv) ==> glyphs(
                    adv,
                    set,
                    bytes@,
                    stop as int,
                    j as int,
                    cx as int,
                    prev,
                    gap as int,
                    out@,
                ).0 == glyphs(
                    adv,
                    set,
                    bytes@,
                    stop as int,
                    0,
                    x0 as int,
                    None,
                    gap0 as int,
                    old(out)@,
                ).0,
        decreases bytes@.len() - j,
    {
        let b: u8 = bytes[j];
        if b < FIRST_CHAR || (0x80 <= b && b < 0xC0) {
            prev = None;
            j = j + 1;
        } else {
            let (ch, len): (char, usize) = utf8::decode_utf8(bytes, j);
            if ch == '\u{00AD}' {
                prev = None;
            } else {
                let paired: i16 = advance(prev, ch, set.face);
                let alone: i16 = advance(None, ch, set.face);
                let after: i64 = cx + paired as i64;
                out.push(
                    PageOp::Glyph {
                        ch,
                        face: set.face,
                        x: after - alone as i64,
                        baseline: set.baseline,
                    },
                );
                cx = after;
                if ch == ' ' {
                    cx = cx + set.per;
                    if set.odd > 0 && gap < set.odd {
                        cx = cx + 1;
                    } else if set.odd < 0 && gap < -set.odd {
                        cx = cx - 1;
                    }
                    gap = gap + 1;
                    prev = None;
                } else {
                    prev = Some(ch);
                }
            }
            j = j + len;
        }
    }
}

/// Text without spaces is drawn exactly as wide as it was measured: where no
/// strip edge cuts it short, the pen behind it stands where measuring says.
pub proof fn law_words_are_drawn_as_measured(
    adv: FaceAdvance,
    set: RunSetting,
    bytes: Seq<u8>,
    stop: int,
    pos: int,
    cx: int,
    prev: Option<char>,
    gap: int,
    done: Seq<PageOp>,
)
    requires
        0 <= pos <= bytes.len(),
        forall|p: int| 0 <= p < bytes.len() ==> (#[trigger] utf8::utf8_at(bytes, p)).0 != 0x20,
        glyphs(adv, set, bytes, stop, pos, cx, prev, gap, done).1 < stop,
        forall|p: Option<char>, c: char, f: fonts::Style| (#[trigger] adv(p, c, f)) >= 0,
    ensures
        glyphs(adv, set, bytes, stop, pos, cx, prev, gap, done).1 == measure::text_pen(
            adv,
            bytes,
            set.face,
            pos,
            prev,
            cx,
        ),
    decreases bytes.len() - pos,
{
    if pos < bytes.len() && cx < stop {
        let b = bytes[pos];
        let (cp, len) = utf8::utf8_at(bytes, pos);
        utf8::lemma_utf8_len(bytes, pos);
        if b < FIRST_CHAR || 0x80 <= b < 0xC0 {
            law_words_are_drawn_as_measured(adv, set, bytes, stop, pos + 1, cx, None, gap, done);
        } else if cp == 0xAD {
            law_words_are_drawn_as_measured(adv, set, bytes, stop, pos + len, cx, None, gap, done);
        } else {
            let ch = cp as char;
            let after = cx + adv(prev, ch, set.face);
            let more = done.push(
                PageOp::Glyph {
                    ch,
                    face: set.face,
                    x: (after - adv(None, ch, set.face)) as i64,
                    baseline: set.baseline,
                },
            );
            law_words_are_drawn_as_measured(
                adv,
                set,
                bytes,
                stop,
                pos + len,
                after,
                Some(ch),
                gap,
                more,
            );
        }
    }
}

// ── a line ────────────────────────────────────────────────────────

/// The strip that is drawn: its left and right edge.
#[derive(Clone, Copy, Debug, PartialEq, Eq, Structural)]
pub struct Strip {
    pub left: i64,
    pub right: i64,
}

/// Where a run ends: where the next one starts, or the line does.
pub open spec fn run_end(all: Seq<Run>, line: PlacedLine, r: int) -> int {
    if r + 1 < line.run_first + line.run_len {
        all[r + 1].x as int
    } else {
        line.x_end as int
    }
}

/// The bytes of a run that are on the page.
pub open spec fn run_bytes(buf: Seq<u8>, run: Run) -> Seq<u8> {
    let end = if run.start + run.len < buf.len() {
        run.start + run.len
    } else {
        buf.len() as int
    };
    if run.start < end {
        buf.subrange(run.start as int, end)
    } else {
        Seq::empty()
    }
}

pub open spec fn run_setting(line: PlacedLine, run: Run, baseline: int) -> RunSetting {
    RunSetting {
        face: fonts::markup_face(markup::unpacked_style(run.style)),
        baseline: baseline as i64,
        per: line.per_gap as i64,
        odd: line.odd_gaps as i64,
    }
}

/// Underline and strike-through of a run from `x0` to `x1`.
pub open spec fn strokes(st: Style, x0: int, x1: int, baseline: int, ascent: int) -> Seq<PageOp> {
    if x1 <= x0 {
        Seq::empty()
    } else {
        (if st.underline {
            seq![PageOp::Stroke { x: x0 as i64, y: (baseline + 1) as i64, w: (x1 - x0) as i64 }]
        } else {
            Seq::empty()
        }) + (if st.strike {
            seq![
                PageOp::Stroke {
                    x: x0 as i64,
                    y: (baseline - ascent / 3) as i64,
                    w: (x1 - x0) as i64,
                },
            ]
        } else {
            Seq::empty()
        })
    }
}

/// The runs of a line from `r` on that touch the strip. Those behind its right
/// edge end the line.
pub open spec fn runs_drawn(
    adv: FaceAdvance,
    buf: Seq<u8>,
    all: Seq<Run>,
    line: PlacedLine,
    strip: Strip,
    baseline: int,
    ascent: int,
    r: int,
    done: Seq<PageOp>,
) -> Seq<PageOp>
    decreases line.run_first + line.run_len - r,
{
    let run = all[r];
    let x1 = run_end(all, line, r);
    if r >= line.run_first + line.run_len || run.x >= strip.right + OVERHANG {
        done
    } else if x1 < strip.left - OVERHANG {
        runs_drawn(adv, buf, all, line, strip, baseline, ascent, r + 1, done)
    } else {
        let (inked, _) = glyphs(
            adv,
            run_setting(line, run, baseline),
            run_bytes(buf, run),
            strip.right + OVERHANG,
            0,
            run.x as int,
            None,
            run.gap0 as int,
            done,
        );
        runs_drawn(
            adv,
            buf,
            all,
            line,
            strip,
            baseline,
            ascent,
            r + 1,
            inked + strokes(markup::unpacked_style(run.style), run.x as int, x1, baseline, ascent),
        )
    }
}

/// The hyphen behind a line that ends inside a word.
pub open spec fn hyphen_drawn(
    adv: FaceAdvance,
    all: Seq<Run>,
    line: PlacedLine,
    strip: Strip,
    baseline: int,
) -> Seq<PageOp> {
    if line.hyphen && line.run_len > 0 {
        let last = all[line.run_first + line.run_len - 1];
        let face = fonts::markup_face(markup::unpacked_style(last.style));
        let x = line.x_end as int;
        if x < strip.right + OVERHANG && x + adv(None, '-', face) > strip.left - OVERHANG {
            seq![PageOp::Glyph { ch: '-', face, x: x as i64, baseline: baseline as i64 }]
        } else {
            Seq::empty()
        }
    } else {
        Seq::empty()
    }
}

/// The runs of the line are in the table.
pub open spec fn runs_known(all: Seq<Run>, line: PlacedLine) -> bool {
    line.run_first + line.run_len <= all.len()
}

fn push_strokes(out: &mut Vec<PageOp>, st: Style, x0: i64, x1: i64, baseline: i64, ascent: i64)
    requires
        -100000 <= x0 <= 100000,
        -100000 <= x1 <= 100000,
        -1000000 <= baseline <= 1000000,
        0 <= ascent <= 65535,
    ensures
        final(out)@ == old(out)@ + strokes(
            st,
            x0 as int,
            x1 as int,
            baseline as int,
            ascent as int,
        ),
{
    if x1 > x0 {
        if st.underline {
            out.push(PageOp::Stroke { x: x0, y: baseline + 1, w: x1 - x0 });
        }
        if st.strike {
            out.push(PageOp::Stroke { x: x0, y: baseline - ascent / 3, w: x1 - x0 });
        }
    }
    proof {
        assert(out@ =~= old(out)@ + strokes(
            st,
            x0 as int,
            x1 as int,
            baseline as int,
            ascent as int,
        ));
    }
}

/// Append what is drawn of a line of text.
fn draw_line<F: Fn(Option<char>, char, fonts::Style) -> i16>(
    advance: &F,
    buf: &[u8],
    all: &[Run],
    line: &PlacedLine,
    strip: Strip,
    baseline: i64,
    ascent: i64,
    out: &mut Vec<PageOp>,
)
    requires
        pipeline::face_callable(*advance),
        buf@.len() <= 65535,
        runs_known(all@, *line),
        -1000000 <= baseline <= 1000000,
        0 <= ascent <= 65535,
        -1000000 <= strip.left <= 1000000,
        -1000000 <= strip.right <= 1000000,
    ensures
        forall|adv: FaceAdvance| #[trigger]
            pipeline::face_measures(*advance, adv) ==> final(out)@ == runs_drawn(
                adv,
                buf@,
                all@,
                *line,
                strip,
                baseline as int,
                ascent as int,
                line.run_first as int,
                old(out)@,
            ) + hyphen_drawn(adv, all@, *line, strip, baseline as int),
{
    let last: usize = line.run_first as usize + line.run_len as usize;
    let mut r: usize = line.run_first as usize;
    let mut open: bool = true;
    while open && r < last
        invariant
            pipeline::face_callable(*advance),
            buf@.len() <= 65535,
            runs_known(all@, *line),
            last == line.run_first + line.run_len,
            line.run_first <= r <= last,
            -1000000 <= baseline <= 1000000,
            0 <= ascent <= 65535,
            -1000000 <= strip.left <= 1000000,
            -1000000 <= strip.right <= 1000000,
            forall|adv: FaceAdvance| #[trigger]
                pipeline::face_measures(*advance, adv) ==> runs_drawn(
                    adv,
                    buf@,
                    all@,
                    *line,
                    strip,
                    baseline as int,
                    ascent as int,
                    line.run_first as int,
                    old(out)@,
                ) == (if open {
                    runs_drawn(
                        adv,
                        buf@,
                        all@,
                        *line,
                        strip,
                        baseline as int,
                        ascent as int,
                        r as int,
                        out@,
                    )
                } else {
                    out@
                }),
        decreases last - r, open as int,
    {
        let run: Run = all[r];
        let x0: i64 = run.x as i64;
        let x1: i64 = if r + 1 < last {
            all[r + 1].x as i64
        } else {
            line.x_end as i64
        };
        if x0 >= strip.right + OVERHANG {
            open = false;
        } else {
            if x1 >= strip.left - OVERHANG {
                let st: Style = Style::unpack(run.style);
                let mut end: usize = run.start as usize + run.len as usize;
                if end > buf.len() {
                    end = buf.len();
                }
                let start: usize = if (run.start as usize) < end {
                    run.start as usize
                } else {
                    end
                };
                let bytes: &[u8] = vstd::slice::slice_subrange(buf, start, end);
                proof {
                    assert(bytes@ =~= run_bytes(buf@, run));
                }
                let set = RunSetting {
                    face: fonts::Style::from_markup(st),
                    baseline,
                    per: line.per_gap as i64,
                    odd: line.odd_gaps as i64,
                };
                draw_glyphs(
                    advance,
                    set,
                    bytes,
                    strip.right + OVERHANG,
                    x0,
                    run.gap0 as i64,
                    out,
                );
                push_strokes(out, st, x0, x1, baseline, ascent);
            }
            r = r + 1;
        }
    }
    let ghost inked = out@;
    if line.hyphen && line.run_len > 0 {
        let face: fonts::Style = fonts::Style::from_markup(Style::unpack(all[last - 1].style));
        let hw: i16 = advance(None, '-', face);
        let x: i64 = line.x_end as i64;
        if x < strip.right + OVERHANG && x + hw as i64 > strip.left - OVERHANG {
            out.push(PageOp::Glyph { ch: '-', face, x, baseline });
        }
    }
    proof {
        assert forall|adv: FaceAdvance| #[trigger]
            pipeline::face_measures(*advance, adv) implies out@ == inked + hyphen_drawn(
            adv,
            all@,
            *line,
            strip,
            baseline as int,
        ) by {
            assert(out@ =~= inked + hyphen_drawn(adv, all@, *line, strip, baseline as int));
        }
    }
}

// ── images ────────────────────────────────────────────────────────

/// The image that was decoded for the page.
#[derive(Clone, Copy, Debug, PartialEq, Eq, Structural)]
pub struct PageImage {
    pub width: u16,
    pub height: u16,
}

/// How far something of size `w` is indented to stand in the middle of `room`.
pub open spec fn centred(room: int, w: int) -> int {
    if room > w {
        (room - w) / 2
    } else {
        0
    }
}

/// Whether a rectangle shares a pixel with the window.
pub open spec fn overlaps(x: int, y: int, w: int, h: int, win: Region) -> bool {
    &&& w > 0 && h > 0 && win.w > 0 && win.h > 0
    &&& x < win.x + win.w && win.x < x + w
    &&& y < win.y + win.h && win.y < y + h
}

/// Image lines from `i` on.
pub open spec fn image_run(lines: Seq<LineSpan>, i: int) -> nat
    decreases lines.len() - i,
{
    if 0 <= i < lines.len() && lines[i].image() {
        1 + image_run(lines, i + 1)
    } else {
        0
    }
}

/// An image on the page: in the middle of the column, and of the lines that
/// are reserved for it, cut off at the end of the text area.
pub open spec fn image_drawn(
    area: TextArea,
    line_h: u16,
    reserved_lines: int,
    line_y: u16,
    img: PageImage,
    win: Region,
) -> Seq<PageOp> {
    let x = area.margin + centred(area.w as int, img.width as int);
    let below = if area.h > line_y {
        area.h - line_y
    } else {
        0
    };
    let rows = if img.height < below {
        img.height as int
    } else {
        below
    };
    let y = area.y + line_y + centred(reserved_lines * line_h, rows);
    if overlaps(x, y, img.width as int, rows, win) {
        seq![PageOp::Image { x: x as i64, y: y as i64, rows: rows as i64 }]
    } else {
        Seq::empty()
    }
}

/// An image that has the page to itself.
pub open spec fn fullscreen_drawn(area: TextArea, img: PageImage, win: Region) -> Seq<PageOp> {
    let x = area.margin + centred(area.w as int, img.width as int);
    let y = area.y + centred(area.h as int, img.height as int);
    if overlaps(x, y, img.width as int, img.height as int, win) {
        seq![PageOp::Image { x: x as i64, y: y as i64, rows: img.height as i64 }]
    } else {
        Seq::empty()
    }
}

/// Width of text without kerning.
pub open spec fn loose_width(adv: FaceAdvance, bytes: Seq<u8>, pos: int, acc: int) -> int
    decreases bytes.len() - pos,
{
    if pos < 0 || pos >= bytes.len() {
        acc
    } else {
        let b = bytes[pos];
        let (cp, len) = utf8::utf8_at(bytes, pos);
        if b < FIRST_CHAR || 0x80 <= b < 0xC0 {
            loose_width(adv, bytes, pos + 1, acc)
        } else if len < 1 || pos + len > bytes.len() {
            acc
        } else {
            let a = adv(None, cp as char, fonts::Style::Italic);
            loose_width(
                adv,
                bytes,
                pos + len,
                acc + (if a > 0 {
                    a as int
                } else {
                    0
                }),
            )
        }
    }
}

/// Where the text that stands in for the image at `start` is, if it has any.
pub open spec fn alt_range(buf: Seq<u8>, start: int) -> Option<(int, int)> {
    match scan::image_at(buf, start) {
        Some(img) => if img.alt_len > 0 {
            Some((img.alt_start as int, img.alt_len as int))
        } else {
            None
        },
        None => None,
    }
}

/// The text `[image]`.
pub open spec fn image_word() -> Seq<u8> {
    seq![0x5Bu8, 0x69, 0x6D, 0x61, 0x67, 0x65, 0x5D]
}

/// The text that stands in for an image, in the middle of the column.
pub open spec fn alt_drawn(
    adv: FaceAdvance,
    area: TextArea,
    buf: Seq<u8>,
    start: int,
    baseline: int,
) -> PageOp {
    match alt_range(buf, start) {
        Some((at, len)) => PageOp::Alt {
            start: at as usize,
            len: len as usize,
            x: (area.margin + centred(
                area.w as int,
                loose_width(adv, buf.subrange(at, at + len), 0, 0),
            )) as i64,
            baseline: baseline as i64,
        },
        None => PageOp::NoAlt {
            x: (area.margin + centred(
                area.w as int,
                loose_width(adv, image_word(), 0, 0),
            )) as i64,
            baseline: baseline as i64,
        },
    }
}

fn centre(room: i64, w: i64) -> (x: i64)
    requires
        0 <= room <= 0x1_0000_0000,
        0 <= w <= 0x1_0000_0000,
    ensures
        x == centred(room as int, w as int),
        0 <= x <= room,
{
    if room > w {
        (room - w) / 2
    } else {
        0
    }
}

fn touches(x: i64, y: i64, w: i64, h: i64, win: Region) -> (b: bool)
    requires
        0 <= x <= 0x2_0000_0000,
        0 <= y <= 0x2_0000_0000,
        0 <= w <= 65535,
        0 <= h <= 65535,
    ensures
        b == overlaps(x as int, y as int, w as int, h as int, win),
{
    w > 0 && h > 0 && win.w > 0 && win.h > 0 && x < win.x as i64 + win.w as i64 && (win.x as i64)
        < x + w && y < win.y as i64 + win.h as i64 && (win.y as i64) < y + h
}

fn measure_loose<F: Fn(Option<char>, char, fonts::Style) -> i16>(advance: &F, bytes: &[u8]) -> (w: i64)
    requires
        pipeline::face_callable(*advance),
        bytes@.len() <= 65535,
    ensures
        forall|adv: FaceAdvance| #[trigger]
            pipeline::face_measures(*advance, adv) ==> w == loose_width(adv, bytes@, 0, 0),
        0 <= w <= 32767 * bytes@.len(),
{
    let mut w: i64 = 0;
    let mut k: usize = 0;
    while k < bytes.len()
        invariant
            k <= bytes@.len() <= 65535,
            pipeline::face_callable(*advance),
            0 <= w <= 32767 * k,
            forall|adv: FaceAdvance| #[trigger]
                pipeline::face_measures(*advance, adv) ==> loose_width(
                    adv,
                    bytes@,
                    k as int,
                    w as int,
                ) == loose_width(adv, bytes@, 0, 0),
        decreases bytes@.len() - k,
    {
        let b: u8 = bytes[k];
        if b < FIRST_CHAR || (0x80 <= b && b < 0xC0) {
            k = k + 1;
        } else {
            let (ch, len): (char, usize) = utf8::decode_utf8(bytes, k);
            let a: i16 = advance(None, ch, fonts::Style::Italic);
            if a > 0 {
                w = w + a as i64;
            }
            k = k + len;
        }
    }
    w
}

fn push_alt<F: Fn(Option<char>, char, fonts::Style) -> i16>(
    advance: &F,
    area: TextArea,
    buf: &[u8],
    start: usize,
    baseline: i64,
    out: &mut Vec<PageOp>,
)
    requires
        pipeline::face_callable(*advance),
        buf@.len() <= 65535,
        start <= 65535,
    ensures
        forall|adv: FaceAdvance| #[trigger]
            pipeline::face_measures(*advance, adv) ==> final(out)@ == old(out)@.push(
                alt_drawn(adv, area, buf@, start as int, baseline as int),
            ),
{
    let parsed = if start < buf.len() {
        scan::parse_image(buf, start)
    } else {
        None
    };
    proof {
        if start >= buf@.len() {
            assert(scan::image_at(buf@, start as int) is None);
        }
    }
    let room: i64 = area.w as i64;
    if let Some(img) = parsed {
        if img.alt_len > 0 {
            let at: usize = img.alt_start as usize;
            let len: usize = img.alt_len as usize;
            let alt: &[u8] = vstd::slice::slice_subrange(buf, at, at + len);
            let w: i64 = measure_loose(advance, alt);
            out.push(
                PageOp::Alt { start: at, len, x: area.margin as i64 + centre(room, w), baseline },
            );
            return;
        }
    }
    let word: [u8; 7] = [0x5B, 0x69, 0x6D, 0x61, 0x67, 0x65, 0x5D];
    proof {
        assert(word@ =~= image_word());
    }
    let w: i64 = measure_loose(advance, word.as_slice());
    out.push(PageOp::NoAlt { x: area.margin as i64 + centre(room, w), baseline });
}

fn push_image(
    area: TextArea,
    line_h: u16,
    reserved_lines: usize,
    line_y: u16,
    img: PageImage,
    win: Region,
    out: &mut Vec<PageOp>,
)
    requires
        reserved_lines <= 37,
    ensures
        final(out)@ == old(out)@ + image_drawn(
            area,
            line_h,
            reserved_lines as int,
            line_y,
            img,
            win,
        ),
{
    let x: i64 = area.margin as i64 + centre(area.w as i64, img.width as i64);
    let below: i64 = if area.h > line_y {
        (area.h - line_y) as i64
    } else {
        0
    };
    let rows: i64 = if (img.height as i64) < below {
        img.height as i64
    } else {
        below
    };
    proof {
        assert(0 <= reserved_lines * line_h <= 37 * 65535) by (nonlinear_arith)
            requires
                0 <= reserved_lines <= 37,
                0 <= line_h <= 65535,
        ;
    }
    let reserved: i64 = reserved_lines as i64 * line_h as i64;
    let y: i64 = area.y as i64 + line_y as i64 + centre(reserved, rows);
    if touches(x, y, img.width as i64, rows, win) {
        out.push(PageOp::Image { x, y, rows });
    }
    proof {
        assert(out@ =~= old(out)@ + image_drawn(
            area,
            line_h,
            reserved_lines as int,
            line_y,
            img,
            win,
        ));
    }
}

/// What is drawn of an image that has the page to itself.
pub fn draw_fullscreen(area: TextArea, img: PageImage, win: Region) -> (out: Vec<PageOp>)
    ensures
        out@ == fullscreen_drawn(area, img, win),
{
    let mut out: Vec<PageOp> = Vec::new();
    let x: i64 = area.margin as i64 + centre(area.w as i64, img.width as i64);
    let y: i64 = area.y as i64 + centre(area.h as i64, img.height as i64);
    if touches(x, y, img.width as i64, img.height as i64, win) {
        out.push(PageOp::Image { x, y, rows: img.height as i64 });
    }
    proof {
        assert(out@ =~= fullscreen_drawn(area, img, win));
    }
    out
}

// ── the page ──────────────────────────────────────────────────────

/// What a page consists of: its text, its lines and where they go, its runs,
/// and its image.
pub struct PageView<'a> {
    pub buf: &'a [u8],
    pub lines: &'a [LineSpan],
    pub places: &'a [PlacedLine],
    pub runs: &'a [Run],
    pub image: Option<PageImage>,
    pub area: TextArea,
    pub line_h: u16,
    pub ascent: u16,
}

impl<'a> PageView<'a> {
    pub open spec fn wf(self) -> bool {
        &&& self.buf@.len() <= 65535
        &&& self.lines@.len() <= 37
        &&& self.lines@.len() == self.places@.len()
        &&& forall|i: int|
            0 <= i < self.places@.len() ==> runs_known(self.runs@, #[trigger] self.places@[i])
    }

    /// The strip of a window.
    pub open spec fn strip(self, win: Region) -> Strip {
        Strip { left: win.x as i64, right: (win.x + win.w) as i64 }
    }

    pub open spec fn baseline(self, i: int) -> int {
        self.area.y + self.places@[i].y + self.ascent
    }
}

/// What is drawn of the first `i` lines, and whether the image is among it. The
/// first image origin shows the page's image; without one, every origin shows
/// its text.
pub open spec fn page_drawn(adv: FaceAdvance, v: PageView, win: Region, i: int) -> (Seq<PageOp>, bool)
    decreases i,
{
    if i <= 0 {
        (Seq::empty(), false)
    } else {
        let (done, shown) = page_drawn(adv, v, win, i - 1);
        let span = v.lines@[i - 1];
        let line = v.places@[i - 1];
        if span.image() {
            if span.len > 0 && !shown {
                match v.image {
                    Some(img) => (
                        done + image_drawn(
                            v.area,
                            v.line_h,
                            image_run(v.lines@, i - 1) as int,
                            line.y,
                            img,
                            win,
                        ),
                        true,
                    ),
                    None => (
                        done.push(
                            alt_drawn(
                                adv,
                                v.area,
                                v.buf@,
                                span.start as int,
                                v.baseline(i - 1),
                            ),
                        ),
                        false,
                    ),
                }
            } else {
                (done, shown)
            }
        } else {
            (
                runs_drawn(
                    adv,
                    v.buf@,
                    v.runs@,
                    line,
                    v.strip(win),
                    v.baseline(i - 1),
                    v.ascent as int,
                    line.run_first as int,
                    done,
                ) + hyphen_drawn(adv, v.runs@, line, v.strip(win), v.baseline(i - 1)),
                shown,
            )
        }
    }
}

fn count_image_lines(lines: &[LineSpan], i: usize) -> (n: usize)
    requires
        i < lines@.len(),
        lines@.len() <= 37,
    ensures
        n == image_run(lines@, i as int),
        n <= 37,
{
    let mut n: usize = 0;
    while i + n < lines.len() && lines[i + n].is_image()
        invariant
            i + n <= lines@.len() <= 37,
            n + image_run(lines@, i + n) == image_run(lines@, i as int),
        decreases lines@.len() - n,
    {
        n = n + 1;
    }
    n
}

/// What is drawn of a page in the strip of `win`.
pub fn draw_page<F: Fn(Option<char>, char, fonts::Style) -> i16>(
    advance: &F,
    v: &PageView<'_>,
    win: Region,
) -> (out: Vec<PageOp>)
    requires
        v.wf(),
        pipeline::face_callable(*advance),
    ensures
        forall|adv: FaceAdvance| #[trigger]
            pipeline::face_measures(*advance, adv) ==> out@ == page_drawn(
                adv,
                *v,
                win,
                v.lines@.len() as int,
            ).0,
{
    let strip = Strip { left: win.x as i64, right: win.x as i64 + win.w as i64 };
    let mut out: Vec<PageOp> = Vec::new();
    let mut shown: bool = false;
    let mut i: usize = 0;
    proof {
        assert(out@ =~= Seq::<PageOp>::empty());
    }
    while i < v.lines.len()
        invariant
            i <= v.lines@.len(),
            v.wf(),
            pipeline::face_callable(*advance),
            strip == v.strip(win),
            forall|adv: FaceAdvance| #[trigger]
                pipeline::face_measures(*advance, adv) ==> (out@, shown) == page_drawn(
                    adv,
                    *v,
                    win,
                    i as int,
                ),
        decreases v.lines@.len() - i,
    {
        let span: LineSpan = v.lines[i];
        let line: PlacedLine = v.places[i];
        let baseline: i64 = v.area.y as i64 + line.y as i64 + v.ascent as i64;
        if span.is_image() {
            if span.len > 0 && !shown {
                match v.image {
                    Some(img) => {
                        let n: usize = count_image_lines(v.lines, i);
                        push_image(v.area, v.line_h, n, line.y, img, win, &mut out);
                        shown = true;
                    },
                    None => {
                        push_alt(advance, v.area, v.buf, span.start as usize, baseline, &mut out);
                    },
                }
            }
        } else {
            draw_line(
                advance,
                v.buf,
                v.runs,
                &line,
                strip,
                baseline,
                v.ascent as i64,
                &mut out,
            );
        }
        i = i + 1;
    }
    out
}

// ── layers ────────────────────────────────────────────────────────

/// What a frame of the reader consists of, from back to front.
#[derive(Clone, Copy, Debug, PartialEq, Eq, Structural)]
pub struct Layers {
    pub footer: bool,
    pub loading: bool,
    pub page: bool,
    pub overlay: bool,
    pub sheet: bool,
}

/// The layers of a frame. An error and an overdue load show the loading
/// screen, nothing is shown while a load is held back, and gray passes draw
/// the bare page.
pub open spec fn layers_of(a: ReaderApp, gray: bool) -> Layers {
    let reading = a.state == State::Ready || a.state == State::ShowToc;
    let page = a.error is None && !screen::is_loading(a.state);
    Layers {
        footer: a.look.chosen.show_chrome && !gray && reading,
        loading: a.error is Some || (screen::is_loading(a.state) && a.loading.painted),
        page,
        overlay: page && a.show_position && a.state == State::Ready && !gray,
        sheet: a.state == State::ShowToc && !gray,
    }
}

impl ReaderApp {
    /// The layers of a frame.
    pub fn layers(&self, gray: bool) -> (l: Layers)
        ensures
            l == layers_of(*self, gray),
    {
        let reading: bool = match self.state {
            State::Ready => true,
            State::ShowToc => true,
            _ => false,
        };
        let loading: bool = self.shows_loading_screen();
        let page: bool = self.error.is_none() && !loading;
        Layers {
            footer: self.look.chosen.show_chrome && !gray && reading,
            loading: self.error.is_some() || (loading && self.loading.painted),
            page,
            overlay: page && self.show_position && self.state == State::Ready && !gray,
            sheet: self.state == State::ShowToc && !gray,
        }
    }
}

/// A page that is read is never covered by the loading screen.
pub proof fn law_loading_screen_never_covers_a_page(a: ReaderApp, gray: bool)
    requires
        a.error is None,
    ensures
        !(layers_of(a, gray).loading && layers_of(a, gray).page),
        a.state == State::Ready ==> layers_of(a, gray).page,
{
}

} // verus!
