//! What holds of the runs of a line, whatever text they hold.

use vstd::prelude::*;

use crate::fonts;
use crate::layout::events::{self, Event, EventState};
use crate::layout::pipeline::FaceAdvance;
use crate::layout::scan;
use crate::markup::{self, Style};
use crate::reader::draw::{self, PageOp, PageView, RunSetting, Strip};
use crate::reader::measure;
use crate::reader::runs::{self, Collected, Column, Piece, PlacedLine, Run};
use crate::reader::span::LineSpan;
use crate::reader::state::TextArea;
use crate::reader::wrap;
use crate::ui::Region;
use crate::utf8;

verus! {

/// A word is as wide as its letters, and both kinds of space are as wide as a
/// space, of which only the plain one gives way. A soft hyphen has no width. A
/// break ends the line, and a block record is passed over.
pub proof fn law_pieces_of_a_line(
    adv: FaceAdvance,
    start: u32,
    end: u32,
    style: Style,
    word: Seq<u8>,
)
    ensures
        ({
            let face = fonts::face(style.bold, style.italic, style.heading != 0, style.heading);
            &&& runs::piece_of(adv, Event::Word { start, end, style }, word) == (Piece::Text {
                start,
                end,
                style,
                w: measure::text_width(adv, word, face),
                gap: false,
            })
            &&& runs::piece_of(adv, Event::Space { start, end, style }, word) == (Piece::Text {
                start,
                end,
                style,
                w: measure::space_width(adv, face),
                gap: true,
            })
            &&& runs::piece_of(adv, Event::Nbsp { start, end, style }, word) == (Piece::Text {
                start,
                end,
                style,
                w: measure::space_width(adv, face),
                gap: false,
            })
            &&& runs::piece_of(adv, Event::SoftHyphen { start, end, style }, word) == (
            Piece::Text { start, end, style, w: 0, gap: false })
        }),
{
}

/// A line is measured without the spaces at its end, and with the hyphen that is
/// drawn behind a word that goes on.
pub proof fn law_lines_are_measured_to_their_last_letter(
    adv: FaceAdvance,
    span: LineSpan,
    buf: Seq<u8>,
    c: Collected,
)
    requires
        0 <= c.trailing <= c.width <= 0xffff_0000,
        0 <= c.gaps <= 65535,
    ensures
        ({
            let m = runs::line_measure(adv, span, buf, c);
            let end = if span.start + span.len < buf.len() {
                span.start + span.len
            } else {
                buf.len() as int
            };
            let word = |b: u8| b > 32 && b != 1;
            let goes_on = 0 < end < buf.len() && word(buf[end]) && word(buf[end - 1]) && buf[end
                - 1] != 45;
            let dash = adv(None, '-', runs::last_face(c.runs, span));
            &&& m.gaps == c.gaps
            &&& !goes_on || dash <= 0 ==> m.width == c.width - c.trailing
            &&& goes_on && dash > 0 ==> m.width == c.width - c.trailing + dash
        }),
{
}

/// Without adjustment each run starts where the one before it ends.
pub proof fn law_runs_follow_one_another(rs: Seq<Run>, k: int, gaps: int, x0: int)
    requires
        0 <= k < rs.len(),
    ensures
        runs::pen_at(rs, 0, 0, 0, gaps, x0) == x0,
        runs::pen_at(rs, k + 1, 0, 0, gaps, x0) == runs::pen_at(rs, k, 0, 0, gaps, x0) + rs[k].x,
{
    assert(0 * (runs::gaps_to(rs, k, gaps) - rs[k].gap0) == 0) by (nonlinear_arith);
}

/// Every gap of a run is wider by what each gap of the line gets, and those among
/// the first of the line by one pixel more, or fewer.
pub proof fn law_runs_widen_by_their_gaps(rs: Seq<Run>, k: int, per: int, odd: int, gaps: int)
    requires
        0 <= k < rs.len(),
        k + 1 < rs.len() ==> rs[k].gap0 <= rs[k + 1].gap0,
        k + 1 == rs.len() ==> rs[k].gap0 <= gaps,
    ensures
        ({
            let from = rs[k].gap0 as int;
            let to = if k + 1 < rs.len() {
                rs[k + 1].gap0 as int
            } else {
                gaps
            };
            let extra = runs::set_width(rs, k, per, odd, gaps) - rs[k].x - per * (to - from);
            &&& odd == 0 ==> extra == 0
            &&& odd >= to ==> extra == to - from
            &&& 0 <= odd <= from ==> extra == 0
            &&& from <= odd <= to && 0 <= odd ==> extra == odd - from
            &&& odd < 0 && -odd >= to ==> extra == from - to
            &&& odd < 0 && -odd <= from ==> extra == 0
            &&& odd < 0 && from <= -odd <= to ==> extra == from + odd
        }),
{
}

/// Runs keep their text and their style; only their place is filled in.
pub proof fn law_placing_moves_nothing_else(
    rs: Seq<Run>,
    per: int,
    odd: int,
    gaps: int,
    x0: int,
    k: int,
)
    requires
        0 <= k < rs.len(),
    ensures
        ({
            let p = runs::placed(rs, per, odd, gaps, x0);
            let at = runs::pen_at(rs, k, per, odd, gaps, x0);
            &&& p.len() == rs.len()
            &&& p[k].start == rs[k].start && p[k].len == rs[k].len && p[k].style == rs[k].style
                && p[k].gap0 == rs[k].gap0
            &&& -32768 <= at <= 32767 ==> p[k].x == at
            &&& at > 32767 ==> p[k].x == 32767
        }),
{
}

/// An image line and a line without bytes have no runs, and no hyphen.
pub proof fn law_lines_without_text_have_no_runs(
    adv: FaceAdvance,
    col: Column,
    span: LineSpan,
    buf: Seq<u8>,
    y: int,
    first: int,
)
    requires
        span.image() || span.len == 0 || span.start >= buf.len(),
        0 <= y < 65536,
    ensures
        ({
            let (line, rs) = runs::line_placed(adv, col, span, buf, y, first);
            &&& rs.len() == 0 && line.run_len == 0
            &&& !line.hyphen && line.x_end == 0 && line.y == y
        }),
{
}

/// A break ends the line, whatever stands behind it.
pub proof fn law_breaks_end_the_runs(adv: FaceAdvance, buf: Seq<u8>, s: EventState, c: Collected)
    requires
        events::next_event(buf, s).0 matches Some(ev) && (ev is HardBreak || ev is ParagraphBreak
            || ev is PageBreak || ev is ThematicBreak || ev is Image),
    ensures
        runs::collect(adv, buf, s, c) == c,
{
}

/// The hyphen of a line stands where its last run ends, in that run's face, if
/// it may touch the strip; a line without runs has none.
pub proof fn law_hyphens_stand_behind_the_last_run(
    adv: FaceAdvance,
    all: Seq<Run>,
    line: PlacedLine,
    strip: Strip,
    baseline: int,
)
    requires
        line.run_first + line.run_len <= all.len(),
    ensures
        ({
            let ops = draw::hyphen_drawn(adv, all, line, strip, baseline);
            &&& !line.hyphen || line.run_len == 0 ==> ops.len() == 0
            &&& line.hyphen && line.run_len > 0 ==> {
                let st = markup::unpacked_style(
                    all[line.run_first + line.run_len - 1].style,
                );
                let face = fonts::face(st.bold, st.italic, st.heading != 0, st.heading);
                let seen = line.x_end < strip.right + 8 && strip.left - 8 < line.x_end + adv(
                    None,
                    '-',
                    face,
                );
                &&& seen ==> ops == seq![
                    PageOp::Glyph {
                        ch: '-',
                        face,
                        x: line.x_end as i64,
                        baseline: baseline as i64,
                    },
                ]
                &&& !seen ==> ops.len() == 0
            }
        }),
{
}

/// A run that ends left of the strip is passed over, and the first one that
/// starts right of it ends the line.
pub proof fn law_runs_beside_the_strip_are_not_drawn(
    adv: FaceAdvance,
    buf: Seq<u8>,
    all: Seq<Run>,
    line: PlacedLine,
    strip: Strip,
    baseline: int,
    ascent: int,
    r: int,
    done: Seq<PageOp>,
)
    requires
        line.run_first <= r < line.run_first + line.run_len,
        line.run_first + line.run_len <= all.len(),
    ensures
        all[r].x >= strip.right + 8 ==> draw::runs_drawn(
            adv,
            buf,
            all,
            line,
            strip,
            baseline,
            ascent,
            r,
            done,
        ) == done,
        all[r].x < strip.right + 8 && r + 1 < line.run_first + line.run_len && all[r + 1].x
            < strip.left - 8 ==> draw::runs_drawn(
            adv,
            buf,
            all,
            line,
            strip,
            baseline,
            ascent,
            r,
            done,
        ) == draw::runs_drawn(adv, buf, all, line, strip, baseline, ascent, r + 1, done),
        all[r].x < strip.right + 8 && r + 1 == line.run_first + line.run_len && line.x_end
            < strip.left - 8 ==> draw::runs_drawn(
            adv,
            buf,
            all,
            line,
            strip,
            baseline,
            ascent,
            r,
            done,
        ) == done,
{
    reveal_with_fuel(draw::runs_drawn, 2);
}

/// The text that stands in for an image is the image's own, in the middle of the
/// column; where there is none, or it is wider, it starts at the margin or a word
/// takes its place.
pub proof fn law_images_without_pixels_show_their_text(
    adv: FaceAdvance,
    area: TextArea,
    buf: Seq<u8>,
    start: int,
    baseline: int,
)
    ensures
        ({
            let op = draw::alt_drawn(adv, area, buf, start, baseline);
            &&& scan::image_at(buf, start) is None ==> op is NoAlt
            &&& scan::image_at(buf, start) matches Some(img) ==> {
                let w = draw::loose_width(
                    adv,
                    buf.subrange(img.alt_start as int, img.alt_start + img.alt_len),
                    0,
                    0,
                );
                &&& img.alt_len == 0 ==> op is NoAlt
                &&& img.alt_len > 0 && 0 <= w < area.w ==> op == (PageOp::Alt {
                    start: img.alt_start as usize,
                    len: img.alt_len as usize,
                    x: (area.margin + (area.w - w) / 2) as i64,
                    baseline: baseline as i64,
                })
                &&& img.alt_len > 0 && w >= area.w ==> op == (PageOp::Alt {
                    start: img.alt_start as usize,
                    len: img.alt_len as usize,
                    x: area.margin as i64,
                    baseline: baseline as i64,
                })
            }
        }),
{
}

/// The face of a line's first letter goes by the line's flags: a heading of one of
/// the first three levels has its own, and bold comes before italic.
pub proof fn law_lines_have_the_face_of_their_flags(span: LineSpan)
    ensures
        ({
            let bold = span.flags % 2 == 1;
            let italic = span.flags / 2 % 2 == 1;
            let heading = span.flags / 4 % 2 == 1;
            let f = runs::span_face(span);
            &&& heading && span.flags / 64 <= 2 ==> f == fonts::Style::Heading
            &&& heading && span.flags / 64 == 3 ==> f == fonts::Style::Bold
            &&& !heading && bold ==> f == fonts::Style::Bold
            &&& !heading && !bold && italic ==> f == fonts::Style::Italic
            &&& !heading && !bold && !italic ==> f == fonts::Style::Regular
        }),
{
}

/// What is drawn of an image is what lies in the window: the two overlap where
/// they share a pixel, and only there.
pub proof fn law_overlaps_share_a_pixel(x: int, y: int, w: int, h: int, win: Region)
    ensures
        draw::overlaps(x, y, w, h, win) <==> exists|px: int, py: int|
            x <= px < x + w && y <= py < y + h && #[trigger] win.holds(px, py),
{
    if draw::overlaps(x, y, w, h, win) {
        let px = if x > win.x {
            x
        } else {
            win.x as int
        };
        let py = if y > win.y {
            y
        } else {
            win.y as int
        };
        assert(win.holds(px, py));
    }
}

/// Carriage returns at the end of a line are left out, all of them and nothing
/// else.
pub proof fn law_carriage_returns_are_left_out(buf: Seq<u8>, start: int, end: int)
    requires
        0 <= start <= end <= buf.len(),
    ensures
        ({
            let e = wrap::trimmed(buf, start, end);
            &&& start <= e <= end
            &&& forall|k: int| e <= k < end ==> #[trigger] buf[k] == 13
            &&& e > start ==> buf[e - 1] != 13
        }),
    decreases end - start,
{
    if end > start && buf[end - 1] == 0x0D {
        law_carriage_returns_are_left_out(buf, start, end - 1);
    }
}

/// What letters are worth side by side, without kerning; none narrows the text.
pub open spec fn loose(adv: FaceAdvance, bytes: Seq<u8>) -> int
    decreases bytes.len(),
{
    if bytes.len() == 0 {
        0
    } else {
        let a = adv(None, bytes.last() as char, fonts::Style::Italic);
        loose(adv, bytes.drop_last()) + (if a > 0 {
            a as int
        } else {
            0
        })
    }
}

/// The text that stands in for an image is measured letter by letter, in italics.
pub proof fn law_stand_in_text_is_measured_loosely(adv: FaceAdvance, bytes: Seq<u8>, pos: int)
    requires
        0 <= pos <= bytes.len(),
        forall|k: int| 0 <= k < bytes.len() ==> 32 <= #[trigger] bytes[k] < 128,
    ensures
        draw::loose_width(adv, bytes, pos, loose(adv, bytes.take(pos))) == loose(adv, bytes),
    decreases bytes.len() - pos,
{
    if pos < bytes.len() {
        assert(32 <= bytes[pos] < 128);
        assert(bytes.take(pos + 1).drop_last() =~= bytes.take(pos));
        law_stand_in_text_is_measured_loosely(adv, bytes, pos + 1);
    } else {
        assert(bytes.take(pos) =~= bytes);
    }
}

/// A letter that is drawn stands on the baseline `b`.
pub open spec fn on_line(op: PageOp, b: int) -> bool {
    op matches PageOp::Glyph { ch: _, face: _, x: _, baseline } ==> baseline == b as i64
}

/// Every letter of a line of text stands on the line's baseline, and so does its
/// hyphen: the top of the text, that of the line, and the ascent below it.
pub proof fn law_letters_stand_on_their_line(
    adv: FaceAdvance,
    v: PageView,
    win: Region,
    i: int,
    k: int,
)
    requires
        v.wf(),
        0 < i <= v.lines@.len(),
        !v.lines@[i - 1].image(),
        draw::page_drawn(adv, v, win, i - 1).0.len() <= k < draw::page_drawn(
            adv,
            v,
            win,
            i,
        ).0.len(),
    ensures
        on_line(
            draw::page_drawn(adv, v, win, i).0[k],
            v.area.y + v.places@[i - 1].y + v.ascent,
        ),
{
    let done = draw::page_drawn(adv, v, win, i - 1).0;
    let line = v.places@[i - 1];
    let b = v.area.y + line.y + v.ascent;
    lemma_runs_on_line(
        adv,
        v.buf@,
        v.runs@,
        line,
        v.strip(win),
        b,
        v.ascent as int,
        line.run_first as int,
        done,
    );
}

proof fn lemma_runs_on_line(
    adv: FaceAdvance,
    buf: Seq<u8>,
    all: Seq<Run>,
    line: PlacedLine,
    strip: Strip,
    baseline: int,
    ascent: int,
    r: int,
    done: Seq<PageOp>,
)
    ensures
        ({
            let ops = draw::runs_drawn(adv, buf, all, line, strip, baseline, ascent, r, done);
            &&& done.len() <= ops.len()
            &&& forall|k: int| 0 <= k < done.len() ==> #[trigger] ops[k] == done[k]
            &&& forall|k: int|
                done.len() <= k < ops.len() ==> on_line(#[trigger] ops[k], baseline)
        }),
    decreases line.run_first + line.run_len - r,
{
    let run = all[r];
    let x1 = draw::run_end(all, line, r);
    if r >= line.run_first + line.run_len || run.x >= strip.right + draw::OVERHANG {
    } else if x1 < strip.left - draw::OVERHANG {
        lemma_runs_on_line(adv, buf, all, line, strip, baseline, ascent, r + 1, done);
    } else {
        let set = draw::run_setting(line, run, baseline);
        let bytes = draw::run_bytes(buf, run);
        lemma_glyphs_on_line(
            adv,
            set,
            bytes,
            strip.right + draw::OVERHANG,
            0,
            run.x as int,
            None,
            run.gap0 as int,
            done,
        );
        let inked = draw::glyphs(
            adv,
            set,
            bytes,
            strip.right + draw::OVERHANG,
            0,
            run.x as int,
            None,
            run.gap0 as int,
            done,
        ).0;
        let more = inked + draw::strokes(
            markup::unpacked_style(run.style),
            run.x as int,
            x1,
            baseline,
            ascent,
        );
        lemma_runs_on_line(adv, buf, all, line, strip, baseline, ascent, r + 1, more);
    }
}

proof fn lemma_glyphs_on_line(
    adv: FaceAdvance,
    set: RunSetting,
    bytes: Seq<u8>,
    stop: int,
    pos: int,
    cx: int,
    prev: Option<char>,
    gap: int,
    done: Seq<PageOp>,
)
    ensures
        ({
            let ops = draw::glyphs(adv, set, bytes, stop, pos, cx, prev, gap, done).0;
            &&& done.len() <= ops.len()
            &&& forall|k: int| 0 <= k < done.len() ==> #[trigger] ops[k] == done[k]
            &&& forall|k: int|
                done.len() <= k < ops.len() ==> on_line(#[trigger] ops[k], set.baseline as int)
        }),
    decreases bytes.len() - pos,
{
    if pos < 0 || pos >= bytes.len() || cx >= stop {
    } else {
        let b = bytes[pos];
        let (cp, len) = utf8::utf8_at(bytes, pos);
        if b < measure::FIRST_CHAR || 0x80 <= b < 0xC0 {
            lemma_glyphs_on_line(adv, set, bytes, stop, pos + 1, cx, None, gap, done);
        } else if len < 1 || pos + len > bytes.len() {
        } else if cp == 0xAD {
            lemma_glyphs_on_line(adv, set, bytes, stop, pos + len, cx, None, gap, done);
        } else {
            let ch = cp as char;
            let after = cx + adv(prev, ch, set.face);
            let more = done.push(
                PageOp::Glyph {
                    ch,
                    face: set.face,
                    x: (after - adv(None, ch, set.face)) as i64,
                    baseline: set.baseline,
                },
            );
            if cp == 0x20 {
                lemma_glyphs_on_line(
                    adv,
                    set,
                    bytes,
                    stop,
                    pos + len,
                    after + draw::gap_extra(set, gap),
                    None,
                    gap + 1,
                    more,
                );
            } else {
                lemma_glyphs_on_line(
                    adv,
                    set,
                    bytes,
                    stop,
                    pos + len,
                    after,
                    Some(ch),
                    gap,
                    more,
                );
            }
        }
    }
}

} // verus!
