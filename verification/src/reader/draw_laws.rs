//! What placing and drawing are for: lines stand below one another and where their
//! alignment puts them, text is split by style, and every letter stands at the pen.

use crate::layout::pipeline::FaceAdvance;
use crate::layout::table;
use crate::markup::Style;
use crate::reader::draw;
use crate::reader::draw::{PageImage, PageOp, PageView, RunSetting};
use crate::reader::measure::LineMeasure;
use crate::reader::runs;
use crate::reader::runs::{Column, Run};
use crate::reader::span::LineSpan;
use crate::reader::state::{ReaderApp, State, TextArea};
use crate::reader::wrap_laws;
use crate::ui::Region;
use crate::utf8;
use vstd::prelude::*;

verus! {

// ── runs ──────────────────────────────────────────────────────────

/// Text that goes on in the same style is one run, and text in another style, or
/// behind a gap in the bytes, begins a new one. A line has at most six; what is
/// behind them joins the last.
pub proof fn law_text_is_split_by_style(
    all: Seq<Run>,
    start: u32,
    end: u32,
    style: u8,
    w: int,
    gaps: int,
)
    requires
        start < end <= 65535,
        all.len() > 0,
        all.last().start <= start,
        0 <= w <= 1000,
        0 <= all.last().x <= 10000,
        0 <= gaps <= 255,
    ensures
        ({
            let after = runs::with_piece(all, start, end, style, w, gaps);
            let old = all.last();
            let new = after.last();
            let goes_on = old.style == style && old.start + old.len == start;
            &&& goes_on || all.len() >= 6 ==> {
                &&& after.len() == all.len()
                &&& new.start == old.start && new.start + new.len == end
                &&& new.style == old.style && new.gap0 == old.gap0
                &&& new.x == old.x + w
            }
            &&& !goes_on && all.len() < 6 ==> {
                &&& after.len() == all.len() + 1
                &&& after.drop_last() == all
                &&& new.start == start && new.start + new.len == end
                &&& new.style == style && new.gap0 == gaps
                &&& new.x == w
            }
        }),
{
    let after = runs::with_piece(all, start, end, style, w, gaps);
    if after.len() == all.len() + 1 {
        assert(after.drop_last() =~= all);
    }
}

/// The width of a line is that of its pieces, spaces are its gaps, and the spaces at
/// its end trail.
pub proof fn law_lines_add_their_pieces(
    c: runs::Collected,
    start: u32,
    end: u32,
    style: Style,
    w: int,
)
    requires
        c.gaps < 65535,
    ensures
        ({
            let word = runs::with_text(c, start, end, style, w, false);
            let space = runs::with_text(c, start, end, style, w, true);
            &&& word.width == c.width + w && space.width == c.width + w
            &&& word.gaps == c.gaps && space.gaps == c.gaps + 1
            &&& word.trailing == 0 && space.trailing == c.trailing + w
        }),
{
}

// ── lines ─────────────────────────────────────────────────────────

/// A line starts at the margin behind its indent; centred text has as much room on
/// its left as on its right, and text that is set right ends at the right edge.
pub proof fn law_alignment_places_the_line(col: Column, span: LineSpan, m: LineMeasure)
    requires
        (span.indent / 16) * col.em_px < 4 * 65536,
        24 * (span.indent % 16) + (span.indent / 16) * col.em_px + m.width <= col.text_w,
    ensures
        ({
            let x = runs::line_x(col, span, m);
            let indent = runs::line_indent(span, col.em_px);
            let left = x - col.margin - indent;
            let right = col.text_w - indent - left - m.width;
            &&& 4 * (indent - 24 * (span.indent % 16)) <= (span.indent / 16) * col.em_px < 4 * (indent
                - 24 * (span.indent % 16)) + 4
            &&& span.align % 4 == 0 || span.align % 4 == 1 ==> left == 0
            &&& span.align % 4 == 2 ==> left == right || left + 1 == right
            &&& span.align % 4 == 3 ==> right == 0
        }),
{
    let q = (span.indent / 16) as int;
    let em = col.em_px as int;
    assert(q * em >= 0) by (nonlinear_arith)
        requires
            q >= 0,
            em >= 0,
    ;
}

/// A line that ends inside a word is drawn with a hyphen, unless one is there; a
/// line that ends at a space, or with the text, is not.
pub proof fn law_broken_words_have_hyphens(buf: Seq<u8>, end: int)
    requires
        0 < end <= buf.len(),
    ensures
        end < buf.len() && buf[end] > 0x20 && buf[end - 1] > 0x20 && buf[end - 1] != 0x2D
            ==> runs::ends_in_word(buf, end),
        end == buf.len() ==> !runs::ends_in_word(buf, end),
        end < buf.len() && (buf[end] <= 0x20 || buf[end - 1] <= 0x20) ==> !runs::ends_in_word(
            buf,
            end,
        ),
        buf[end - 1] == 0x2D ==> !runs::ends_in_word(buf, end),
{
}

/// Lines stand below one another: each a line's height below the one before, and
/// further down by its gap. The first stands at the top, whatever its gap.
pub proof fn law_lines_stand_below_one_another(lines: Seq<LineSpan>, col: Column, k: int)
    requires
        1 <= k < lines.len(),
    ensures
        runs::top_q(lines, col, 0) == 0,
        ({
            let gap = table::spec_gap_quarters((lines[k].align / 16) as u8, col.em_px, col.line_h);
            runs::top_q(lines, col, k) - runs::top_q(lines, col, k - 1) == 4 + gap && 0 <= gap <= 8
        }),
        lines[k].align < 16 && col.line_h > 0 ==> runs::top_q(lines, col, k) == runs::top_q(
            lines,
            col,
            k - 1,
        ) + 4,
{
    let lh: int = if col.line_h > 1 {
        col.line_h as int
    } else {
        1
    };
    let g = (lines[k].align / 16) as int;
    assert(0 <= (g * col.em_px + lh / 2) / lh) by (nonlinear_arith)
        requires
            lh >= 1,
            g >= 0,
            col.em_px >= 0,
    ;
    if g == 0 {
        assert((0 * col.em_px + lh / 2) / lh == 0) by (nonlinear_arith)
            requires
                lh >= 1,
        ;
    }
}

/// Every line of a page has its place, at the height of its top, and its runs stand
/// behind those of the lines above it.
pub proof fn law_every_line_has_its_place(
    adv: FaceAdvance,
    col: Column,
    lines: Seq<LineSpan>,
    buf: Seq<u8>,
    n: int,
    k: int,
)
    requires
        0 <= k < n <= lines.len(),
    ensures
        ({
            let (places, all) = runs::page_placed(adv, col, lines, buf, n);
            let (_, above) = runs::page_placed(adv, col, lines, buf, k);
            &&& places.len() == n
            &&& places[k].y == ((runs::top_q(lines, col, k) * col.line_h / 4) % 65536) as u16
            &&& places[k].run_first == above.len() as u16
        }),
    decreases n,
{
    reveal_with_fuel(runs::page_placed, 2);
    if k < n - 1 {
        law_every_line_has_its_place(adv, col, lines, buf, n - 1, k);
    } else if n > 1 {
        law_every_line_has_its_place(adv, col, lines, buf, n - 1, 0);
    }
}

// ── letters ───────────────────────────────────────────────────────

proof fn lemma_glyphs(
    adv: FaceAdvance,
    set: RunSetting,
    word: Seq<u8>,
    stop: int,
    x0: int,
    gap: int,
    k: int,
    prev: Option<char>,
    done: Seq<PageOp>,
)
    requires
        wrap_laws::is_word(word),
        0 <= k <= word.len(),
        k == 0 ==> prev is None,
        k > 0 ==> prev == Some(word[k - 1] as char),
        forall|i: int|
            0 <= i <= word.len() ==> x0 + #[trigger] wrap_laws::letters_width(
                adv,
                word,
                set.face,
                i,
            ) < stop,
    ensures
        ({
            let (out, end) = draw::glyphs(
                adv,
                set,
                word,
                stop,
                k,
                x0 + wrap_laws::letters_width(adv, word, set.face, k),
                prev,
                gap,
                done,
            );
            &&& out.len() == done.len() + word.len() - k
            &&& out.take(done.len() as int) == done
            &&& forall|j: int|
                done.len() <= j < out.len() ==> #[trigger] out[j] == letter_at(
                    adv,
                    set,
                    word,
                    x0,
                    j - done.len() + k,
                )
            &&& end == x0 + wrap_laws::letters_width(adv, word, set.face, word.len() as int)
        }),
    decreases word.len() - k,
{
    if k < word.len() {
        assert(0x20 < word[k] < 0x80);
        assert(utf8::utf8_at(word, k) == (word[k] as int, 1int));
        assert((word[k] as int) as char == word[k] as char);
        let op = letter_at(adv, set, word, x0, k);
        lemma_glyphs(adv, set, word, stop, x0, gap, k + 1, Some(word[k] as char), done.push(op));
        assert(x0 + wrap_laws::letters_width(adv, word, set.face, k) < stop);
        let (out, end) = draw::glyphs(
            adv,
            set,
            word,
            stop,
            k + 1,
            x0 + wrap_laws::letters_width(adv, word, set.face, k + 1),
            Some(word[k] as char),
            gap,
            done.push(op),
        );
        assert(out.take(done.len() + 1 as int) == done.push(op));
        assert(out.take(done.len() as int) =~= done) by {
            assert forall|j: int| 0 <= j < done.len() implies out[j] == done[j] by {
                assert(out.take(done.len() + 1 as int)[j] == done.push(op)[j]);
            }
        }
        assert forall|j: int| done.len() <= j < out.len() implies #[trigger] out[j] == letter_at(
            adv,
            set,
            word,
            x0,
            j - done.len() + k,
        ) by {
            if j == done.len() {
                assert(out.take(done.len() + 1 as int)[j] == op);
            }
        }
    } else {
        assert(done.take(done.len() as int) =~= done);
    }
}

/// Letter `i` of a word that starts at `x0`: it ends where the pen is behind it.
pub open spec fn letter_at(
    adv: FaceAdvance,
    set: RunSetting,
    word: Seq<u8>,
    x0: int,
    i: int,
) -> PageOp {
    PageOp::Glyph {
        ch: word[i] as char,
        face: set.face,
        x: (x0 + wrap_laws::letters_width(adv, word, set.face, i + 1) - adv(
            None,
            word[i] as char,
            set.face,
        )) as i64,
        baseline: set.baseline,
    }
}

/// Every letter of a word is drawn, in order, in the face of its run, on the
/// baseline and at the pen; the pen ends as far on as the word is wide.
pub proof fn law_letters_stand_at_the_pen(
    adv: FaceAdvance,
    set: RunSetting,
    word: Seq<u8>,
    stop: int,
    x0: int,
    gap: int,
    done: Seq<PageOp>,
    i: int,
)
    requires
        wrap_laws::is_word(word),
        0 <= i < word.len(),
        forall|j: int|
            0 <= j <= word.len() ==> x0 + #[trigger] wrap_laws::letters_width(
                adv,
                word,
                set.face,
                j,
            ) < stop,
    ensures
        ({
            let (out, end) = draw::glyphs(adv, set, word, stop, 0, x0, None, gap, done);
            &&& out.len() == done.len() + word.len()
            &&& out[done.len() + i] == letter_at(adv, set, word, x0, i)
            &&& end == x0 + wrap_laws::letters_width(adv, word, set.face, word.len() as int)
        }),
{
    lemma_glyphs(adv, set, word, stop, x0, gap, 0, None, done);
}

/// A gap of a justified line is wider by its share, and the first ones by a pixel
/// more, or narrower by one where the line shrinks.
pub proof fn law_gaps_take_their_share(set: RunSetting, gap: int)
    requires
        0 <= gap,
    ensures
        ({
            let e = draw::gap_extra(set, gap);
            &&& set.odd >= 0 && gap < set.odd ==> e == set.per + 1
            &&& set.odd >= 0 && gap >= set.odd ==> e == set.per
            &&& set.odd < 0 && gap < -set.odd ==> e == set.per - 1
            &&& set.odd < 0 && gap >= -set.odd ==> e == set.per
        }),
{
}

/// Underlined text has a line one pixel below its baseline, text that is struck
/// through one a third of the ascent above it; each is as long as the text. Other
/// text has none.
pub proof fn law_decorations_are_drawn(st: Style, x0: int, x1: int, baseline: int, ascent: int)
    requires
        -100000 <= x0 < x1 <= 100000,
        -100000 <= baseline <= 100000,
        0 <= ascent <= 1000,
    ensures
        ({
            let out = draw::strokes(st, x0, x1, baseline, ascent);
            &&& !st.underline && !st.strike ==> out.len() == 0
            &&& st.underline ==> out.len() > 0 && out[0] == (PageOp::Stroke {
                x: x0 as i64,
                y: (baseline + 1) as i64,
                w: (x1 - x0) as i64,
            })
            &&& st.strike ==> out.len() > 0 && (out.last() matches PageOp::Stroke { x, y, w } && x
                == x0 && w == x1 - x0 && 3 * (baseline - y) <= ascent < 3 * (baseline - y) + 3)
            &&& out.len() == (if st.underline {
                1int
            } else {
                0
            }) + (if st.strike {
                1int
            } else {
                0
            })
        }),
{
}

// ── images and layers ─────────────────────────────────────────────

/// An image with the page to itself stands in the middle of it, whole; what does not
/// touch the window is not drawn.
pub proof fn law_images_stand_in_the_middle(area: TextArea, img: PageImage, win: Region)
    requires
        img.width <= area.w <= 65535,
        img.height <= area.h,
    ensures
        ({
            let out = draw::fullscreen_drawn(area, img, win);
            &&& out.len() <= 1
            &&& out.len() == 1 ==> (out[0] matches PageOp::Image { x, y, rows } && {
                let left = x - area.margin;
                let top = y - area.y;
                &&& rows == img.height
                &&& 0 <= area.w - img.width - 2 * left <= 1
                &&& 0 <= area.h - img.height - 2 * top <= 1
            })
            &&& win.x == 0 && win.y == 0 && win.w >= area.margin + area.w && win.h >= area.y + area.h
                && img.width > 0 && img.height > 0 ==> out.len() == 1
            &&& win.y >= area.y + area.h || win.x >= area.margin + area.w ==> out.len() == 0
        }),
{
}

/// An image among text stands in the middle of the column and of its lines, and does
/// not reach below the text area.
pub proof fn law_inline_images_stay_in_the_text(
    area: TextArea,
    line_h: u16,
    reserved: int,
    line_y: u16,
    img: PageImage,
    win: Region,
)
    requires
        img.width <= area.w <= 65535,
        line_y <= area.h,
        0 <= reserved <= 37,
    ensures
        ({
            let out = draw::image_drawn(area, line_h, reserved, line_y, img, win);
            &&& out.len() <= 1
            &&& out.len() == 1 ==> (out[0] matches PageOp::Image { x, y, rows } && {
                let left = x - area.margin;
                let top = y - area.y - line_y;
                &&& 0 <= area.w - img.width - 2 * left <= 1
                &&& rows <= img.height
                &&& line_y + rows <= area.h
                &&& line_y + img.height <= area.h ==> rows == img.height
                &&& rows <= reserved * line_h ==> 0 <= reserved * line_h - rows - 2 * top <= 1
                &&& rows >= reserved * line_h ==> top == 0
            })
        }),
{
    assert(0 <= reserved * line_h <= 37 * 65535) by (nonlinear_arith)
        requires
            0 <= reserved <= 37,
            0 <= line_h <= 65535,
    ;
}

/// An image line without the page's image shows its text, and a line of text is
/// drawn behind what is above it: nothing that was drawn is taken back.
pub proof fn law_pages_draw_every_line(
    adv: FaceAdvance,
    v: PageView<'_>,
    win: Region,
    i: int,
)
    requires
        0 < i <= v.lines@.len(),
        v.lines@[i - 1].flags / 8 % 2 == 1,
    ensures
        ({
            let (done, shown) = draw::page_drawn(adv, v, win, i - 1);
            let (out, _) = draw::page_drawn(adv, v, win, i);
            let origin = v.lines@[i - 1].len > 0;
            &&& origin && !shown && v.image is None ==> out.len() == done.len() + 1
                && out.drop_last() == done && (out.last() is Alt || out.last() is NoAlt)
            &&& !origin ==> out == done
            &&& shown ==> out == done
            &&& origin && !shown && v.image is Some ==> draw::page_drawn(adv, v, win, i).1
        }),
{
    let (done, shown) = draw::page_drawn(adv, v, win, i - 1);
    let (out, _) = draw::page_drawn(adv, v, win, i);
    if out.len() == done.len() + 1 && v.image is None {
        assert(out.drop_last() =~= done);
    }
}

/// A frame shows the page while it is read, the contents sheet over it, the overlay
/// while a button is held and the footer if it is wanted; a gray pass shows the bare
/// page. An error and a load that is due show the loading screen.
pub proof fn law_frames_show_what_is_read(a: ReaderApp, gray: bool)
    ensures
        ({
            let l = draw::layers_of(a, gray);
            &&& a.state == State::Ready && a.error is None ==> l.page && !l.loading && !l.sheet
            &&& a.state == State::ShowToc && a.error is None ==> l.page && l.sheet == !gray
            &&& l.overlay ==> a.show_position && a.state == State::Ready && !gray
            &&& a.state == State::Ready && a.error is None && a.show_position && !gray ==> l.overlay
            &&& a.state == State::Ready && !gray ==> l.footer == a.look.chosen.show_chrome
            &&& gray ==> !l.footer && !l.overlay && !l.sheet
            &&& a.error is Some ==> l.loading && !l.page
            &&& a.state == State::NeedPage && a.error is None ==> l.loading == a.loading.painted
                && !l.page && !l.footer
        }),
{
}

} // verus!
