//! What pages are for: they are filled, they start where they should, and no line
//! of a paragraph is left alone on one.

use crate::layout::paginate as pg;
use crate::layout::paginate::PageSpacing;
use crate::layout::paginate_laws as tiling;
use crate::layout::table;
use crate::layout::table::{LineLayout, PageLayout};
use vstd::prelude::*;

verus! {

// ── measures ──────────────────────────────────────────────────────

/// A first-line indent is its quarter-ems in pixels, rounded down.
pub proof fn law_indents_are_quarter_ems(qem: u8, em_px: u16)
    requires
        qem * em_px < 4 * 65536,
    ensures
        ({
            let px = table::spec_indent_px(qem, em_px) as int;
            4 * px <= qem * em_px < 4 * px + 4
        }),
{
    assert(qem * em_px >= 0) by (nonlinear_arith);
}

/// A gap is its quarter-ems in quarters of a line, to the nearest, and never more
/// than two lines.
pub proof fn law_gaps_are_quarters_of_a_line(qem: u8, em_px: u16, line_h: u16)
    requires
        line_h > 0,
    ensures
        ({
            let q = table::spec_gap_quarters(qem, em_px, line_h);
            &&& 0 <= q <= 8
            &&& q < 8 ==> 2 * (q * line_h) <= 2 * (qem * em_px) + line_h < 2 * ((q + 1) * line_h) + 2
            &&& q == 8 ==> 2 * (8 * line_h) <= 2 * (qem * em_px) + line_h
            &&& qem == 0 ==> q == 0
        }),
{
    let lh = line_h as int;
    let g = qem * em_px + lh / 2;
    assert(qem * em_px >= 0) by (nonlinear_arith);
    if qem == 0 {
        assert(qem * em_px == 0) by (nonlinear_arith)
            requires
                qem == 0,
        ;
    }
    let q = g / lh;
    assert(q * lh <= g < (q + 1) * lh && q >= 0 && (8 <= q ==> 8 * lh <= g) && (g < lh ==> q == 0))
        by (nonlinear_arith)
        requires
            q == g / lh,
            g >= 0,
            lh > 0,
    ;
}

/// Quarters of a line that `n` lines take from `first` on: four for each, and the
/// gap above each but the first.
pub open spec fn height_of(
    lines: Seq<LineLayout>,
    spacing: PageSpacing,
    first: int,
    n: int,
) -> int
    decreases n,
{
    if n <= 0 {
        0
    } else if n == 1 {
        4
    } else {
        height_of(lines, spacing, first, n - 1) + 4 + table::spec_gap_quarters(
            lines[first + n - 1].align / 16,
            spacing.em_px,
            spacing.line_h,
        )
    }
}

proof fn lemma_height(lines: Seq<LineLayout>, spacing: PageSpacing, first: int, n: int)
    requires
        n >= 0,
    ensures
        pg::fill_q(lines, spacing, first, n) == height_of(lines, spacing, first, n),
        height_of(lines, spacing, first, n) >= 4 * n,
    decreases n,
{
    if n > 0 {
        lemma_height(lines, spacing, first, n - 1);
        pg::lemma_gap_bounds(spacing, lines[first + n - 1].gap());
        if n == 1 {
            reveal_with_fuel(pg::fill_q, 3);
        }
    }
}

// ── pages are filled ──────────────────────────────────────────────

/// No line of the table is an image.
pub open spec fn text_only(lines: Seq<LineLayout>) -> bool {
    forall|i: int| 0 <= i < lines.len() ==> (#[trigger] lines[i]).flags / 8 % 2 == 0
}

proof fn lemma_fill_text(
    lines: Seq<LineLayout>,
    blocks: Seq<u8>,
    cap: int,
    spacing: PageSpacing,
    start: int,
    i: int,
)
    requires
        text_only(lines),
        lines.len() <= blocks.len(),
        0 <= start <= i <= lines.len(),
        0 < cap,
        i - start <= cap,
        height_of(lines, spacing, start, i - start) <= 4 * cap,
        forall|k: int| start < k < i ==> (#[trigger] lines[k]).flags / 16 % 2 == 0,
    ensures
        ({
            let (count, next) = pg::fill_page(
                lines,
                blocks,
                cap,
                spacing,
                i,
                i - start,
                height_of(lines, spacing, start, i - start),
            );
            &&& count == next - start
            &&& height_of(lines, spacing, start, count) <= 4 * cap
            &&& i <= next <= lines.len()
            &&& forall|k: int| start < k < next ==> (#[trigger] lines[k]).flags / 16 % 2 == 0
            &&& next < lines.len() && next > start ==> lines[next].flags / 16 % 2 == 1 || height_of(
                lines,
                spacing,
                start,
                count + 1,
            ) > 4 * cap
        }),
    decreases lines.len() - i,
{
    if i < lines.len() {
        let n = i - start;
        assert(lines[i].flags / 8 % 2 == 0);
        lemma_height(lines, spacing, start, n);
        lemma_height(lines, spacing, start, n + 1);
        pg::lemma_gap_bounds(spacing, lines[i].gap());
        if n < cap && !(n > 0 && lines[i].page_break_before()) && height_of(
            lines,
            spacing,
            start,
            n + 1,
        ) <= 4 * cap {
            lemma_fill_text(lines, blocks, cap, spacing, start, i + 1);
        }
    }
}

/// Page `q` before lines are moved goes as far as it may: it fits, no page break is
/// asked for inside it, and the line behind it asks for one or would not fit.
pub open spec fn filled(
    lines: Seq<LineLayout>,
    cap: int,
    spacing: PageSpacing,
    page: PageLayout,
) -> bool {
    let first = page.first_line as int;
    let n = page.line_count as int;
    &&& n >= 1
    &&& first + n <= lines.len()
    &&& height_of(lines, spacing, first, n) <= 4 * cap
    &&& forall|k: int| first < k < first + n ==> (#[trigger] lines[k]).flags / 16 % 2 == 0
    &&& first + n < lines.len() ==> lines[first + n].flags / 16 % 2 == 1 || height_of(
        lines,
        spacing,
        first,
        n + 1,
    ) > 4 * cap
}

proof fn lemma_pages_filled(
    lines: Seq<LineLayout>,
    blocks: Seq<u8>,
    cap: int,
    spacing: PageSpacing,
    start: int,
)
    requires
        text_only(lines),
        lines.len() <= blocks.len(),
        lines.len() <= 65535,
        0 <= start <= lines.len(),
        0 < cap <= 255,
    ensures
        forall|q: int|
            0 <= q < pg::pages_from(lines, blocks, cap, spacing, start).len() ==> filled(
                lines,
                cap,
                spacing,
                #[trigger] pg::pages_from(lines, blocks, cap, spacing, start)[q],
            ),
    decreases lines.len() - start,
{
    if start < lines.len() {
        lemma_fill_text(lines, blocks, cap, spacing, start, start);
        let (count, next) = pg::fill_page(lines, blocks, cap, spacing, start, 0, 0);
        pg::lemma_fill_page(lines, blocks, cap, spacing, start, 0, 0);
        lemma_height(lines, spacing, start, count);
        lemma_pages_filled(lines, blocks, cap, spacing, next);
        let rest = pg::pages_from(lines, blocks, cap, spacing, next);
        let pages = pg::pages_from(lines, blocks, cap, spacing, start);
        assert(pages == seq![pg::page_of(lines, start, count)] + rest);
        assert forall|q: int| 0 <= q < pages.len() implies filled(
            lines,
            cap,
            spacing,
            #[trigger] pages[q],
        ) by {
            if q > 0 {
                assert(pages[q] == rest[q - 1]);
            }
        }
    }
}

/// Pages of text are filled: before lines are moved against widows and orphans,
/// every page ends because the text does, because the next line asks for a page
/// of its own, or because the next line does not fit.
pub proof fn law_text_pages_are_filled(
    lines: Seq<LineLayout>,
    max_lines: u8,
    blocks: Seq<u8>,
    spacing: PageSpacing,
    q: int,
)
    requires
        text_only(lines),
        lines.len() <= blocks.len(),
        lines.len() <= 65535,
        max_lines > 0,
        0 <= q < pg::raw_pages(lines, max_lines, blocks, spacing).len(),
    ensures
        filled(
            lines,
            max_lines as int,
            spacing,
            pg::raw_pages(lines, max_lines, blocks, spacing)[q],
        ),
{
    lemma_pages_filled(lines, blocks, max_lines as int, spacing, 0);
}

// ── no line is left alone ─────────────────────────────────────────

/// Line `i` ends a paragraph.
pub open spec fn ends_paragraph(lines: Seq<LineLayout>, i: int) -> bool {
    lines[i].flags / 32 % 2 == 1
}

pub open spec fn is_heading(lines: Seq<LineLayout>, i: int) -> bool {
    lines[i].flags / 4 % 2 == 1
}

/// The line above the boundary at `at` begins a paragraph that goes on below it.
/// The page above starts at `first`.
pub open spec fn orphan_at(lines: Seq<LineLayout>, first: int, at: int) -> bool {
    &&& at - 1 == first || ends_paragraph(lines, at - 2)
    &&& !ends_paragraph(lines, at - 1)
    &&& !is_heading(lines, at - 1)
}

/// The line below the boundary at `at` is the last of a paragraph that began above.
pub open spec fn widow_at(lines: Seq<LineLayout>, at: int) -> bool {
    &&& ends_paragraph(lines, at)
    &&& !ends_paragraph(lines, at - 1)
    &&& !is_heading(lines, at)
}

/// There is room to move a line over the boundary at `at`: the page above, of
/// `above` lines, stays more than half full, and the page below, of `below`
/// lines, takes one more line and the gap of its first; no image is next to it.
pub open spec fn room_at(
    lines: Seq<LineLayout>,
    blocks: Seq<u8>,
    max_lines: u8,
    spacing: PageSpacing,
    at: int,
    above: int,
    below: int,
) -> bool {
    &&& above > max_lines / 2 + 1
    &&& height_of(lines, spacing, at - 1, below + 1) <= 4 * max_lines
    &&& lines[at].flags / 8 % 2 == 0 && lines[at - 1].flags / 8 % 2 == 0
    &&& blocks[at] == 0 && blocks[at - 1] == 0
}

/// A line moves over the boundary at `at`.
pub open spec fn moves_at(
    lines: Seq<LineLayout>,
    blocks: Seq<u8>,
    max_lines: u8,
    spacing: PageSpacing,
    first: int,
    at: int,
    below: int,
) -> bool {
    room_at(lines, blocks, max_lines, spacing, at, at - first, below) && (orphan_at(
        lines,
        first,
        at,
    ) || widow_at(lines, at))
}

/// A page from one line earlier is higher by that line and the gap above the one
/// that was first.
proof fn lemma_height_from_before(
    lines: Seq<LineLayout>,
    spacing: PageSpacing,
    first: int,
    n: int,
)
    requires
        n >= 1,
    ensures
        height_of(lines, spacing, first - 1, n + 1) == height_of(lines, spacing, first, n) + 4
            + table::spec_gap_quarters(
            lines[first].align / 16,
            spacing.em_px,
            spacing.line_h,
        ),
    decreases n,
{
    if n == 1 {
        reveal_with_fuel(height_of, 3);
    } else {
        lemma_height_from_before(lines, spacing, first, n - 1);
        assert(lines[first - 1 + (n + 1) - 1] == lines[first + n - 1]);
    }
}

/// While boundaries are settled in turn, the pages behind them are as they were;
/// page `p - 1` ends where it did, and starts there or one line earlier.
proof fn lemma_settled_pages(
    lines: Seq<LineLayout>,
    blocks: Seq<u8>,
    max_lines: u8,
    spacing: PageSpacing,
    raw: Seq<PageLayout>,
    p: int,
)
    requires
        1 <= p <= raw.len(),
        tiling::pages_follow(lines, max_lines, raw, 0),
    ensures
        ({
            let now = pg::settled(lines, blocks, max_lines, spacing, raw, p);
            &&& now.len() == raw.len()
            &&& tiling::pages_follow(lines, max_lines, now, 0)
            &&& forall|q: int| p <= q < raw.len() ==> #[trigger] now[q] == raw[q]
            &&& now[p - 1].first_line + now[p - 1].line_count == raw[p - 1].first_line + raw[p
                - 1].line_count
        }),
    decreases p,
{
    tiling::lemma_settled_follow(lines, blocks, max_lines, spacing, raw, p);
    if p > 1 {
        lemma_settled_pages(lines, blocks, max_lines, spacing, raw, p - 1);
        let then = pg::settled(lines, blocks, max_lines, spacing, raw, p - 1);
        assert(then[p - 1] == raw[p - 1]);
        assert(tiling::page_follows(lines, max_lines, then, 0, p - 1));
        assert(tiling::page_follows(lines, max_lines, then, 0, p - 2));
        if pg::moves_line(lines, blocks, max_lines, spacing, then[p - 2], then[p - 1]) {
            let cur = then[p - 1];
            pg::lemma_fill_q_lower(lines, spacing, cur.first_line as int, cur.line_count as int);
            pg::lemma_gap_bounds(spacing, lines[cur.first_line as int].gap());
        }
    }
}

/// Once its boundary is settled, a page's start does not change any more.
proof fn lemma_start_stays(
    lines: Seq<LineLayout>,
    blocks: Seq<u8>,
    max_lines: u8,
    spacing: PageSpacing,
    raw: Seq<PageLayout>,
    q: int,
    p: int,
)
    requires
        0 <= q < p <= raw.len(),
        tiling::pages_follow(lines, max_lines, raw, 0),
    ensures
        pg::settled(lines, blocks, max_lines, spacing, raw, p)[q].first_line == pg::settled(
            lines,
            blocks,
            max_lines,
            spacing,
            raw,
            q + 1,
        )[q].first_line,
    decreases p,
{
    if q + 1 < p {
        lemma_start_stays(lines, blocks, max_lines, spacing, raw, q, p - 1);
        lemma_settled_pages(lines, blocks, max_lines, spacing, raw, p - 1);
    }
}

/// No paragraph leaves its first line alone at the bottom of a page, or its last
/// line alone at the top of one, where there is room to move a line: the line
/// above the boundary is then the first of the page below. Else the page starts
/// where it was filled from. `first` is the line that the page above starts at.
#[verifier::rlimit(60)]
pub proof fn law_no_line_is_left_alone(
    lines: Seq<LineLayout>,
    max_lines: u8,
    blocks: Seq<u8>,
    spacing: PageSpacing,
    p: int,
)
    requires
        0 < lines.len() <= 65535,
        max_lines > 0,
        tiling::blocks_fit(lines, blocks, max_lines),
        1 <= p < pg::raw_pages(lines, max_lines, blocks, spacing).len(),
    ensures
        ({
            let raw = pg::raw_pages(lines, max_lines, blocks, spacing);
            let pages = pg::chapter_pages(lines, max_lines, blocks, spacing);
            let first = pages[p - 1].first_line as int;
            let at = raw[p].first_line as int;
            let below = raw[p].line_count as int;
            pages[p].first_line == (if moves_at(
                lines,
                blocks,
                max_lines,
                spacing,
                first,
                at,
                below,
            ) {
                at - 1
            } else {
                at
            })
        }),
{
    let raw = pg::raw_pages(lines, max_lines, blocks, spacing);
    let n = raw.len() as int;
    tiling::lemma_raw_follow(lines, blocks, max_lines, spacing, 0);
    lemma_settled_pages(lines, blocks, max_lines, spacing, raw, p);
    let then = pg::settled(lines, blocks, max_lines, spacing, raw, p);
    let prev = then[p - 1];
    let cur = then[p];
    assert(cur == raw[p]);
    assert(tiling::page_follows(lines, max_lines, then, 0, p));
    assert(tiling::page_follows(lines, max_lines, then, 0, p - 1));
    lemma_start_stays(lines, blocks, max_lines, spacing, raw, p, n);
    lemma_start_stays(lines, blocks, max_lines, spacing, raw, p - 1, n);
    let at = cur.first_line as int;
    lemma_height_from_before(lines, spacing, at, cur.line_count as int);
    lemma_height(lines, spacing, at, cur.line_count as int);
    assert(pg::moves_line(lines, blocks, max_lines, spacing, prev, cur) == moves_at(
        lines,
        blocks,
        max_lines,
        spacing,
        prev.first_line as int,
        at,
        cur.line_count as int,
    ));
}

} // verus!
