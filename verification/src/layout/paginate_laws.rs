//! What holds of every page table.

use crate::layout::paginate as pg;
use crate::layout::paginate::PageSpacing;
use crate::layout::table::{LineLayout, PageLayout};
use vstd::prelude::*;

verus! {

/// `blocks` describes the image blocks of `lines`: the origin of a block is
/// an image line with the block's length, its fillers are image lines
/// without a gap, and nothing else is part of a block.
pub open spec fn block_table(lines: Seq<LineLayout>, blocks: Seq<u8>) -> bool {
    &&& lines.len() <= blocks.len()
    &&& forall|i: int|
        0 <= i < lines.len() && (#[trigger] blocks[i]) > 0 ==> lines[i].image() && i + blocks[i]
            <= lines.len()
    &&& forall|i: int, k: int|
        #![trigger blocks[i], lines[k]]
        0 <= i < k < i + blocks[i] && i < lines.len() ==> lines[k].image() && lines[k].gap() == 0
            && !lines[k].page_break_before() && blocks[k] == 0
}

/// The block at the top of the page is too tall for any page.
pub open spec fn oversized(
    lines: Seq<LineLayout>,
    blocks: Seq<u8>,
    cap: int,
    spacing: PageSpacing,
    first: int,
) -> bool {
    pg::block_q(lines, blocks, spacing, first, true) > 4 * cap
}

/// The line that follows a page.
pub open spec fn page_end(
    lines: Seq<LineLayout>,
    blocks: Seq<u8>,
    cap: int,
    spacing: PageSpacing,
    page: PageLayout,
) -> int {
    if oversized(lines, blocks, cap, spacing, page.first_line as int) {
        page.first_line + pg::block_at(lines, blocks, page.first_line as int)
    } else {
        page.first_line + page.line_count
    }
}

/// No image block crosses the end of `start..start + count`.
pub open spec fn blocks_whole(
    lines: Seq<LineLayout>,
    blocks: Seq<u8>,
    start: int,
    count: int,
) -> bool {
    forall|j: int|
        start <= j < start + count ==> j + pg::block_at(lines, blocks, j) <= start + count
}

/// A page record describes its lines: it has some, at most `cap`, all in the
/// table, its bytes are theirs, and unless it is one oversized block it fits
/// the page and cuts no image block.
pub open spec fn page_sound(
    lines: Seq<LineLayout>,
    blocks: Seq<u8>,
    cap: int,
    spacing: PageSpacing,
    page: PageLayout,
) -> bool {
    let first = page.first_line as int;
    let count = page.line_count as int;
    &&& 1 <= count <= cap
    &&& first + count <= lines.len()
    &&& page.start_byte == lines[first].start_byte
    &&& page.end_byte == lines[first + count - 1].end_byte
    &&& oversized(lines, blocks, cap, spacing, first) ==> count <= pg::block_at(
        lines,
        blocks,
        first,
    )
    &&& !oversized(lines, blocks, cap, spacing, first) ==> pg::page_q(lines, page, spacing) <= 4
        * cap && blocks_whole(lines, blocks, first, count)
}

/// The pages are sound and follow one another without a gap or an overlap,
/// from line `start` to the last line.
pub open spec fn tiles(
    lines: Seq<LineLayout>,
    blocks: Seq<u8>,
    cap: int,
    spacing: PageSpacing,
    pages: Seq<PageLayout>,
    start: int,
) -> bool {
    &&& pages.len() > 0
    &&& pages[0].first_line == start
    &&& page_end(lines, blocks, cap, spacing, pages.last()) == lines.len()
    &&& forall|p: int|
        0 <= p < pages.len() ==> page_sound(lines, blocks, cap, spacing, #[trigger] pages[p])
    &&& forall|p: int, q: int|
        #![trigger pages[p], pages[q]]
        0 <= p && q == p + 1 && q < pages.len() ==> pages[q].first_line == page_end(
            lines,
            blocks,
            cap,
            spacing,
            pages[p],
        )
}

/// Inside a page no line asks for a page break before it.
pub open spec fn breaks_honoured(lines: Seq<LineLayout>, page: PageLayout) -> bool {
    forall|k: int|
        page.first_line < k < page.first_line + page.line_count ==> !(
        #[trigger] lines[k]).page_break_before()
}

/// A page break comes after the end of a paragraph or after an image.
pub open spec fn breaks_between_paragraphs(lines: Seq<LineLayout>) -> bool {
    forall|k: int|
        0 < k < lines.len() && (#[trigger] lines[k]).page_break_before() ==> lines[k
            - 1].paragraph_end() || lines[k - 1].image()
}

/// Fillers cost one line each.
proof fn lemma_fill_block(
    lines: Seq<LineLayout>,
    blocks: Seq<u8>,
    spacing: PageSpacing,
    start: int,
    i: int,
    b: int,
)
    requires
        block_table(lines, blocks),
        0 <= start <= i < lines.len(),
        1 <= b <= pg::block_at(lines, blocks, i),
    ensures
        pg::fill_q(lines, spacing, start, i - start + b) == pg::fill_q(
            lines,
            spacing,
            start,
            i - start,
        ) + pg::line_q(lines[i], i == start, spacing) + 4 * (b - 1),
    decreases b,
{
    if b > 1 {
        lemma_fill_block(lines, blocks, spacing, start, i, b - 1);
        let k = i + b - 1;
        assert(blocks[i] > 1);
        assert(lines[k].gap() == 0);
        lemma_zero_gap(spacing);
        assert(lines[start + (i - start + b) - 1] == lines[k]);
    } else {
        assert(lines[start + (i - start + 1) - 1] == lines[i]);
    }
}

proof fn lemma_zero_gap(spacing: PageSpacing)
    ensures
        spacing.gap(0) == 0,
{
    let lh: int = if spacing.line_h > 1 {
        spacing.line_h as int
    } else {
        1
    };
    assert(0u8 * spacing.em_px == 0) by (nonlinear_arith);
    assert((lh / 2) / lh == 0) by (nonlinear_arith)
        requires
            lh >= 1,
    ;
}

/// What `fill_page` gives from an open page that is sound so far.
proof fn lemma_fill_sound(
    lines: Seq<LineLayout>,
    blocks: Seq<u8>,
    cap: int,
    spacing: PageSpacing,
    start: int,
    i: int,
    count: int,
    used: int,
)
    requires
        block_table(lines, blocks),
        0 <= start <= i <= lines.len(),
        start < lines.len(),
        0 < cap,
        count == i - start,
        count > 0 ==> !oversized(lines, blocks, cap, spacing, start),
        count <= cap,
        used == pg::fill_q(lines, spacing, start, count),
        used <= 4 * cap,
        blocks_whole(lines, blocks, start, count),
        forall|k: int| start < k < i ==> !(#[trigger] lines[k]).page_break_before(),
    ensures
        ({
            let (c, next) = pg::fill_page(lines, blocks, cap, spacing, i, count, used);
            &&& 1 <= c <= cap
            &&& start + c <= next <= lines.len()
            &&& start < next
            &&& forall|k: int| start < k < start + c ==> !(#[trigger] lines[k]).page_break_before()
            &&& oversized(lines, blocks, cap, spacing, start) ==> next == start + pg::block_at(
                lines,
                blocks,
                start,
            ) && c <= pg::block_at(lines, blocks, start)
            &&& !oversized(lines, blocks, cap, spacing, start) ==> next == start + c
                && pg::fill_q(lines, spacing, start, c) <= 4 * cap && blocks_whole(
                lines,
                blocks,
                start,
                c,
            )
        }),
    decreases lines.len() - i,
{
    let (c, next) = pg::fill_page(lines, blocks, cap, spacing, i, count, used);
    if i < lines.len() && count < cap && !(count > 0 && lines[i].page_break_before()) {
        let b = pg::block_at(lines, blocks, i);
        let cost = pg::block_q(lines, blocks, spacing, i, count == 0);
        assert(blocks[i] > 0 ==> i + blocks[i] <= lines.len());
        pg::lemma_gap_bounds(spacing, lines[i].gap());
        if cost > 4 * cap {
            assert forall|k: int| start < k < start + c implies !(
            #[trigger] lines[k]).page_break_before() by {
                if count == 0 {
                    assert(blocks[i] > 1);
                }
            }
        } else if used + cost <= 4 * cap {
            lemma_fill_block(lines, blocks, spacing, start, i, b);
            lemma_fill_lower(lines, spacing, start, count + b);
            assert(blocks_whole(lines, blocks, start, count + b)) by {
                assert forall|j: int| start <= j < start + count + b implies j + pg::block_at(
                    lines,
                    blocks,
                    j,
                ) <= start + count + b by {
                    if j > i {
                        assert(blocks[i] > 1);
                        assert(lines[j].image());
                        assert(blocks[j] == 0);
                    }
                }
            }
            assert forall|k: int| start < k < i + b implies !(
            #[trigger] lines[k]).page_break_before() by {
                if k > i {
                    assert(blocks[i] > 1);
                }
            }
            lemma_fill_sound(lines, blocks, cap, spacing, start, i + b, count + b, used + cost);
        }
    }
}

proof fn lemma_fill_lower(lines: Seq<LineLayout>, spacing: PageSpacing, first: int, k: int)
    requires
        k >= 0,
    ensures
        4 * k <= pg::fill_q(lines, spacing, first, k),
    decreases k,
{
    if k > 0 {
        lemma_fill_lower(lines, spacing, first, k - 1);
        pg::lemma_gap_bounds(spacing, lines[first + k - 1].gap());
    }
}

/// The pages before lines are moved tile the chapter and honour its page
/// breaks.
proof fn lemma_raw_tiles(
    lines: Seq<LineLayout>,
    blocks: Seq<u8>,
    cap: int,
    spacing: PageSpacing,
    start: int,
)
    requires
        block_table(lines, blocks),
        0 <= start < lines.len() <= 65535,
        0 < cap <= 255,
    ensures
        tiles(
            lines,
            blocks,
            cap,
            spacing,
            pg::pages_from(lines, blocks, cap, spacing, start),
            start,
        ),
        forall|p: int|
            0 <= p < pg::pages_from(lines, blocks, cap, spacing, start).len() ==> breaks_honoured(
                lines,
                #[trigger] pg::pages_from(lines, blocks, cap, spacing, start)[p],
            ),
    decreases lines.len() - start,
{
    let pages = pg::pages_from(lines, blocks, cap, spacing, start);
    let (c, next) = pg::fill_page(lines, blocks, cap, spacing, start, 0, 0);
    lemma_fill_sound(lines, blocks, cap, spacing, start, start, 0, 0);
    let page = pg::page_of(lines, start, c);
    let rest = pg::pages_from(lines, blocks, cap, spacing, next);
    assert(pages == seq![page] + rest);
    assert(page_end(lines, blocks, cap, spacing, page) == next);
    assert(page_sound(lines, blocks, cap, spacing, page));
    assert(pages[0] == page);
    if next < lines.len() {
        lemma_raw_tiles(lines, blocks, cap, spacing, next);
        assert(pages.last() == rest.last());
        assert forall|p: int| 0 <= p < pages.len() implies page_sound(
            lines,
            blocks,
            cap,
            spacing,
            #[trigger] pages[p],
        ) && breaks_honoured(lines, pages[p]) by {
            if p > 0 {
                assert(pages[p] == rest[p - 1]);
            }
        }
        assert forall|p: int, q: int|
            #![trigger pages[p], pages[q]]
            0 <= p && q == p + 1 && q < pages.len() implies pages[q].first_line == page_end(
            lines,
            blocks,
            cap,
            spacing,
            pages[p],
        ) by {
            assert(pages[q] == rest[q - 1]);
            if p > 0 {
                assert(pages[p] == rest[p - 1]);
            }
        }
    } else {
        assert(rest =~= Seq::<PageLayout>::empty());
        assert(pages =~= seq![page]);
    }
}

/// Moving one line over the boundary before page `p` keeps the tiling.
proof fn lemma_settle_tiles(
    lines: Seq<LineLayout>,
    blocks: Seq<u8>,
    max_lines: u8,
    spacing: PageSpacing,
    pages: Seq<PageLayout>,
    p: int,
)
    requires
        block_table(lines, blocks),
        lines.len() <= 65535,
        1 <= p < pages.len(),
        tiles(lines, blocks, max_lines as int, spacing, pages, 0),
    ensures
        tiles(
            lines,
            blocks,
            max_lines as int,
            spacing,
            pg::settle(lines, blocks, max_lines, spacing, pages, p),
            0,
        ),
        breaks_between_paragraphs(lines) && (forall|q: int|
            0 <= q < pages.len() ==> breaks_honoured(lines, #[trigger] pages[q])) ==> forall|q: int|
            0 <= q < pages.len() ==> breaks_honoured(
                lines,
                #[trigger] pg::settle(lines, blocks, max_lines, spacing, pages, p)[q],
            ),
{
    let cap = max_lines as int;
    let prev = pages[p - 1];
    let cur = pages[p];
    let after = pg::settle(lines, blocks, max_lines, spacing, pages, p);
    if pg::moves_line(lines, blocks, max_lines, spacing, prev, cur) {
        let pf = prev.first_line as int;
        let pc = prev.line_count as int;
        let t = pf + pc - 1;
        let cf = cur.first_line as int;
        let cc = cur.line_count as int;
        assert(page_sound(lines, blocks, cap, spacing, prev));
        assert(page_sound(lines, blocks, cap, spacing, cur));
        // the last line of `prev` is text, so `prev` is no oversized block
        assert(!oversized(lines, blocks, cap, spacing, pf)) by {
            if oversized(lines, blocks, cap, spacing, pf) {
                pg::lemma_gap_bounds(spacing, lines[pf].gap());
                assert(blocks[pf] > 1);
                assert(pf <= t < pf + blocks[pf]);
                assert(lines[t].image());
            }
        }
        assert(cf == t + 1);
        // nor does `cur` start with an image
        assert(pg::block_at(lines, blocks, cf) == 1);
        assert(!oversized(lines, blocks, cap, spacing, cf));
        assert(pg::block_at(lines, blocks, t) == 1);
        let a = pg::without_tail(lines, prev);
        let b = pg::with_head(lines, prev, cur);
        assert(after == pages.update(p - 1, a).update(p, b));
        // the shorter page
        lemma_fill_lower(lines, spacing, cf, cc);
        assert(pg::fill_q(lines, spacing, pf, pc) == pg::fill_q(lines, spacing, pf, pc - 1)
            + pg::line_q(lines[t], pc == 1, spacing));
        pg::lemma_gap_bounds(spacing, lines[t].gap());
        assert(blocks_whole(lines, blocks, pf, pc - 1)) by {
            assert forall|j: int| pf <= j < pf + pc - 1 implies j + pg::block_at(lines, blocks, j)
                <= pf + pc - 1 by {
                if j + pg::block_at(lines, blocks, j) > t {
                    assert(blocks[j] > 1);
                    assert(lines[t].image());
                }
            }
        }
        assert(page_sound(lines, blocks, cap, spacing, a));
        // the longer page
        lemma_prepend(lines, spacing, cf, cc);
        pg::lemma_gap_bounds(spacing, lines[cf].gap());
        assert(blocks_whole(lines, blocks, t, cc + 1)) by {
            assert forall|j: int| t <= j < t + cc + 1 implies j + pg::block_at(lines, blocks, j)
                <= t + cc + 1 by {
                if j > t {
                    assert(cf <= j < cf + cc);
                }
            }
        }
        assert(!oversized(lines, blocks, cap, spacing, t));
        assert(page_sound(lines, blocks, cap, spacing, b));
        assert(page_end(lines, blocks, cap, spacing, a) == t);
        assert(page_end(lines, blocks, cap, spacing, b) == page_end(
            lines,
            blocks,
            cap,
            spacing,
            cur,
        ));
        assert forall|q: int| 0 <= q < after.len() implies page_sound(
            lines,
            blocks,
            cap,
            spacing,
            #[trigger] after[q],
        ) by {
            if q != p - 1 && q != p {
                assert(after[q] == pages[q]);
            }
        }
        assert forall|x: int, y: int|
            #![trigger after[x], after[y]]
            0 <= x && y == x + 1 && y < after.len() implies after[y].first_line == page_end(
            lines,
            blocks,
            cap,
            spacing,
            after[x],
        ) by {
            assert(pages[y].first_line == page_end(lines, blocks, cap, spacing, pages[x]));
        }
        assert(after[0].first_line == 0) by {
            assert(pages[0].first_line == 0);
        }
        assert(page_end(lines, blocks, cap, spacing, after.last()) == lines.len());
        if breaks_between_paragraphs(lines) && (forall|q: int|
            0 <= q < pages.len() ==> breaks_honoured(lines, #[trigger] pages[q])) {
            assert forall|q: int| 0 <= q < pages.len() implies breaks_honoured(
                lines,
                #[trigger] after[q],
            ) by {
                assert(breaks_honoured(lines, pages[q]));
                if q == p {
                    assert(!lines[cf].page_break_before());
                }
            }
        }
    }
}

/// Fill of a page that gets one more line in front.
proof fn lemma_prepend(lines: Seq<LineLayout>, spacing: PageSpacing, first: int, k: int)
    requires
        k >= 1,
    ensures
        pg::fill_q(lines, spacing, first - 1, k + 1) == pg::fill_q(lines, spacing, first, k) + 4
            + spacing.gap(lines[first].gap()),
    decreases k,
{
    let f = first - 1;
    assert(pg::fill_q(lines, spacing, f, k + 1) == pg::fill_q(lines, spacing, f, k) + pg::line_q(
        lines[f + k],
        false,
        spacing,
    ));
    if k > 1 {
        lemma_prepend(lines, spacing, first, k - 1);
        assert(pg::fill_q(lines, spacing, first, k) == pg::fill_q(lines, spacing, first, k - 1)
            + pg::line_q(lines[first + k - 1], false, spacing));
    } else {
        reveal_with_fuel(pg::fill_q, 3);
    }
}

proof fn lemma_settled_tiles(
    lines: Seq<LineLayout>,
    blocks: Seq<u8>,
    max_lines: u8,
    spacing: PageSpacing,
    pages: Seq<PageLayout>,
    p: int,
)
    requires
        block_table(lines, blocks),
        lines.len() <= 65535,
        p <= pages.len(),
        tiles(lines, blocks, max_lines as int, spacing, pages, 0),
    ensures
        pg::settled(lines, blocks, max_lines, spacing, pages, p).len() == pages.len(),
        tiles(
            lines,
            blocks,
            max_lines as int,
            spacing,
            pg::settled(lines, blocks, max_lines, spacing, pages, p),
            0,
        ),
        breaks_between_paragraphs(lines) && (forall|q: int|
            0 <= q < pages.len() ==> breaks_honoured(lines, #[trigger] pages[q])) ==> forall|q: int|
            0 <= q < pages.len() ==> breaks_honoured(
                lines,
                #[trigger] pg::settled(lines, blocks, max_lines, spacing, pages, p)[q],
            ),
    decreases p,
{
    if p > 1 {
        lemma_settled_tiles(lines, blocks, max_lines, spacing, pages, p - 1);
        let before = pg::settled(lines, blocks, max_lines, spacing, pages, p - 1);
        lemma_settle_tiles(lines, blocks, max_lines, spacing, before, p - 1);
    }
}

/// The pages of a chapter are its lines, in order, each on one page: the
/// first page starts at line 0, every page starts where the one before ends,
/// the last page ends the table, no page is fuller than it may be, and no
/// image block is cut (a block taller than a page has a page of its own).
pub proof fn law_pages_tile_the_chapter(
    lines: Seq<LineLayout>,
    max_lines: u8,
    blocks: Seq<u8>,
    spacing: PageSpacing,
)
    requires
        0 < lines.len() <= 65535,
        max_lines > 0,
        block_table(lines, blocks),
    ensures
        tiles(
            lines,
            blocks,
            max_lines as int,
            spacing,
            pg::chapter_pages(lines, max_lines, blocks, spacing),
            0,
        ),
{
    let raw = pg::raw_pages(lines, max_lines, blocks, spacing);
    lemma_raw_tiles(lines, blocks, max_lines as int, spacing, 0);
    lemma_settled_tiles(lines, blocks, max_lines, spacing, raw, raw.len() as int);
}

/// Every image block ends within the lines and fits a page.
pub open spec fn blocks_fit(lines: Seq<LineLayout>, blocks: Seq<u8>, max_lines: u8) -> bool {
    &&& lines.len() <= blocks.len()
    &&& pg::blocks_in_range(lines, blocks)
    &&& forall|i: int| 0 <= i < lines.len() && lines[i].image() ==> #[trigger] blocks[i] <= max_lines
}

/// Page `q` holds lines of the table, no more than a page may, and says where
/// they begin and end. It starts where the page before it ends; the first starts
/// at `start`, and the last ends the table.
pub open spec fn page_follows(
    lines: Seq<LineLayout>,
    max_lines: u8,
    pages: Seq<PageLayout>,
    start: int,
    q: int,
) -> bool {
    let page = pages[q];
    let first = page.first_line as int;
    let end = first + page.line_count;
    &&& 1 <= page.line_count <= max_lines
    &&& end <= lines.len()
    &&& page.start_byte == lines[first].start_byte
    &&& page.end_byte == lines[end - 1].end_byte
    &&& first == (if q == 0 {
        start
    } else {
        pages[q - 1].first_line + pages[q - 1].line_count
    })
    &&& q == pages.len() - 1 ==> end == lines.len()
}

/// The pages are the lines from `start` on, in order and without a gap.
pub open spec fn pages_follow(
    lines: Seq<LineLayout>,
    max_lines: u8,
    pages: Seq<PageLayout>,
    start: int,
) -> bool {
    &&& start < lines.len() ==> pages.len() > 0
    &&& forall|q: int|
        0 <= q < pages.len() ==> #[trigger] page_follows(lines, max_lines, pages, start, q)
}

/// Where every block fits a page, a page has all the lines that are passed over.
proof fn lemma_fill_exact(
    lines: Seq<LineLayout>,
    blocks: Seq<u8>,
    max_lines: u8,
    spacing: PageSpacing,
    i: int,
    count: int,
    used: int,
)
    requires
        blocks_fit(lines, blocks, max_lines),
        0 <= i <= lines.len(),
        0 <= count,
    ensures
        ({
            let (c, next) = pg::fill_page(
                lines,
                blocks,
                max_lines as int,
                spacing,
                i,
                count,
                used,
            );
            c - count == next - i
        }),
    decreases lines.len() - i,
{
    if i < lines.len() && count < max_lines {
        let block = pg::block_at(lines, blocks, i);
        let cost = pg::block_q(lines, blocks, spacing, i, count == 0);
        assert(blocks[i] >= 0);
        assert(i + block <= lines.len());
        if !(count > 0 && lines[i].page_break_before()) && cost <= 4 * max_lines && used + cost <= 4
            * max_lines {
            lemma_fill_exact(
                lines,
                blocks,
                max_lines,
                spacing,
                i + block,
                count + block,
                used + cost,
            );
        }
    }
}

pub proof fn lemma_raw_follow(
    lines: Seq<LineLayout>,
    blocks: Seq<u8>,
    max_lines: u8,
    spacing: PageSpacing,
    start: int,
)
    requires
        blocks_fit(lines, blocks, max_lines),
        max_lines > 0,
        lines.len() <= 65535,
        0 <= start <= lines.len(),
    ensures
        pages_follow(
            lines,
            max_lines,
            pg::pages_from(lines, blocks, max_lines as int, spacing, start),
            start,
        ),
        start == lines.len() ==> pg::pages_from(
            lines,
            blocks,
            max_lines as int,
            spacing,
            start,
        ).len() == 0,
    decreases lines.len() - start,
{
    if start < lines.len() {
        let cap = max_lines as int;
        pg::lemma_fill_page(lines, blocks, cap, spacing, start, 0, 0);
        lemma_fill_exact(lines, blocks, max_lines, spacing, start, 0, 0);
        let (count, next) = pg::fill_page(lines, blocks, cap, spacing, start, 0, 0);
        lemma_raw_follow(lines, blocks, max_lines, spacing, next);
        let rest = pg::pages_from(lines, blocks, cap, spacing, next);
        let pages = pg::pages_from(lines, blocks, cap, spacing, start);
        assert(pages == seq![pg::page_of(lines, start, count)] + rest);
        assert forall|q: int| 0 <= q < pages.len() implies #[trigger] page_follows(
            lines,
            max_lines,
            pages,
            start,
            q,
        ) by {
            if q > 0 {
                assert(page_follows(lines, max_lines, rest, next, q - 1));
                assert(pages[q] == rest[q - 1]);
                if q > 1 {
                    assert(pages[q - 1] == rest[q - 2]);
                }
            }
        }
    }
}

/// A line that moves over a boundary leaves no gap.
proof fn lemma_settle_follow(
    lines: Seq<LineLayout>,
    blocks: Seq<u8>,
    max_lines: u8,
    spacing: PageSpacing,
    pages: Seq<PageLayout>,
    p: int,
)
    requires
        1 <= p < pages.len(),
        pages_follow(lines, max_lines, pages, 0),
    ensures
        pages_follow(
            lines,
            max_lines,
            pg::settle(lines, blocks, max_lines, spacing, pages, p),
            0,
        ),
{
    let after = pg::settle(lines, blocks, max_lines, spacing, pages, p);
    let prev = pages[p - 1];
    let cur = pages[p];
    assert(page_follows(lines, max_lines, pages, 0, p - 1));
    assert(page_follows(lines, max_lines, pages, 0, p));
    if pg::moves_line(lines, blocks, max_lines, spacing, prev, cur) {
        pg::lemma_fill_q_lower(lines, spacing, cur.first_line as int, cur.line_count as int);
        pg::lemma_gap_bounds(spacing, lines[cur.first_line as int].gap());
        assert forall|q: int| 0 <= q < after.len() implies #[trigger] page_follows(
            lines,
            max_lines,
            after,
            0,
            q,
        ) by {
            assert(page_follows(lines, max_lines, pages, 0, q));
        }
    }
}

pub proof fn lemma_settled_follow(
    lines: Seq<LineLayout>,
    blocks: Seq<u8>,
    max_lines: u8,
    spacing: PageSpacing,
    pages: Seq<PageLayout>,
    p: int,
)
    requires
        p <= pages.len(),
        pages_follow(lines, max_lines, pages, 0),
    ensures
        pg::settled(lines, blocks, max_lines, spacing, pages, p).len() == pages.len(),
        pages_follow(
            lines,
            max_lines,
            pg::settled(lines, blocks, max_lines, spacing, pages, p),
            0,
        ),
    decreases p,
{
    if p > 1 {
        lemma_settled_follow(lines, blocks, max_lines, spacing, pages, p - 1);
        let before = pg::settled(lines, blocks, max_lines, spacing, pages, p - 1);
        lemma_settle_follow(lines, blocks, max_lines, spacing, before, p - 1);
    }
}

/// The pages of a line table follow one another without a gap, whatever its
/// block table says, as long as every image block ends within the lines and fits
/// a page: the first page starts at line 0, every page starts where the one
/// before it ends, and the last ends the table. Each has a line, at most as many
/// as a page may, and the bytes of its lines.
pub proof fn law_pages_follow_without_gap(
    lines: Seq<LineLayout>,
    max_lines: u8,
    blocks: Seq<u8>,
    spacing: PageSpacing,
)
    requires
        0 < lines.len() <= 65535,
        max_lines > 0,
        blocks_fit(lines, blocks, max_lines),
    ensures
        pages_follow(
            lines,
            max_lines,
            pg::chapter_pages(lines, max_lines, blocks, spacing),
            0,
        ),
{
    let raw = pg::raw_pages(lines, max_lines, blocks, spacing);
    lemma_raw_follow(lines, blocks, max_lines, spacing, 0);
    lemma_settled_follow(lines, blocks, max_lines, spacing, raw, raw.len() as int);
}

/// A line that asks for a page break starts its page, in every chapter whose
/// page breaks come between paragraphs.
pub proof fn law_page_breaks_start_pages(
    lines: Seq<LineLayout>,
    max_lines: u8,
    blocks: Seq<u8>,
    spacing: PageSpacing,
    p: int,
)
    requires
        0 < lines.len() <= 65535,
        max_lines > 0,
        block_table(lines, blocks),
        breaks_between_paragraphs(lines),
        0 <= p < pg::chapter_pages(lines, max_lines, blocks, spacing).len(),
    ensures
        breaks_honoured(lines, pg::chapter_pages(lines, max_lines, blocks, spacing)[p]),
{
    let raw = pg::raw_pages(lines, max_lines, blocks, spacing);
    lemma_raw_tiles(lines, blocks, max_lines as int, spacing, 0);
    lemma_settled_tiles(lines, blocks, max_lines, spacing, raw, raw.len() as int);
}

/// Against widows and orphans at most one line moves over a page boundary:
/// there are as many pages as before, and each starts where it did or one
/// line earlier.
pub proof fn law_one_line_moves(
    lines: Seq<LineLayout>,
    max_lines: u8,
    blocks: Seq<u8>,
    spacing: PageSpacing,
    p: int,
)
    requires
        0 < lines.len() <= 65535,
        max_lines > 0,
        block_table(lines, blocks),
        0 <= p < pg::raw_pages(lines, max_lines, blocks, spacing).len(),
    ensures
        ({
            let raw = pg::raw_pages(lines, max_lines, blocks, spacing);
            let pages = pg::chapter_pages(lines, max_lines, blocks, spacing);
            &&& pages.len() == raw.len()
            &&& pages[p].first_line == raw[p].first_line || pages[p].first_line + 1
                == raw[p].first_line
        }),
{
    let raw = pg::raw_pages(lines, max_lines, blocks, spacing);
    lemma_raw_tiles(lines, blocks, max_lines as int, spacing, 0);
    lemma_settled_firsts(lines, blocks, max_lines, spacing, raw, raw.len() as int, p);
}

proof fn lemma_settled_firsts(
    lines: Seq<LineLayout>,
    blocks: Seq<u8>,
    max_lines: u8,
    spacing: PageSpacing,
    pages: Seq<PageLayout>,
    p: int,
    q: int,
)
    requires
        block_table(lines, blocks),
        lines.len() <= 65535,
        p <= pages.len(),
        0 <= q < pages.len(),
        tiles(lines, blocks, max_lines as int, spacing, pages, 0),
    ensures
        ({
            let s = pg::settled(lines, blocks, max_lines, spacing, pages, p);
            &&& s.len() == pages.len()
            &&& q >= p && q >= 1 ==> s[q] == pages[q]
            &&& s[q].first_line == pages[q].first_line || s[q].first_line + 1
                == pages[q].first_line
        }),
    decreases p,
{
    if p > 1 {
        lemma_settled_firsts(lines, blocks, max_lines, spacing, pages, p - 1, q);
        lemma_settled_firsts(lines, blocks, max_lines, spacing, pages, p - 1, p - 1);
        lemma_settled_tiles(lines, blocks, max_lines, spacing, pages, p - 1);
        let s = pg::settled(lines, blocks, max_lines, spacing, pages, p - 1);
        if pg::moves_line(lines, blocks, max_lines, spacing, s[p - 2], s[p - 1]) {
            assert(page_sound(lines, blocks, max_lines as int, spacing, s[p - 2]));
            assert(s[p - 1].first_line == page_end(
                lines,
                blocks,
                max_lines as int,
                spacing,
                s[p - 2],
            ));
        }
    }
}

} // verus!
