//! Paginator: turns a chapter's line table into a page table, honouring
//! forced page breaks, keeping image blocks whole, and moving at most one
//! line over each page boundary against widows and orphans.
//!
//! Page fill is counted in quarter-lines: a line costs four, plus the gap
//! above it unless it is the first line on its page.

use crate::layout::table;
use crate::layout::table::{LineLayout, PageLayout, MAX_PAGES};
use vstd::prelude::*;

verus! {

#[derive(Clone, Copy, Debug, PartialEq, Eq, Structural)]
pub enum PaginateError {
    EmptyChapter,
    TooManyPages,
}

/// The font metrics that turn a line's quarter-em gap into page fill.
#[derive(Clone, Copy, Debug, PartialEq, Eq, Structural)]
pub struct PageSpacing {
    pub em_px: u16,
    pub line_h: u16,
}

impl PageSpacing {
    pub open spec fn gap(self, qem: u8) -> int {
        table::spec_gap_quarters(qem, self.em_px, self.line_h)
    }

    pub fn gap_quarters(&self, qem: u8) -> (q: u16)
        ensures
            q == self.gap(qem),
            q <= 8,
    {
        table::gap_quarters(qem, self.em_px, self.line_h)
    }
}

/// Quarter-lines that one line of text takes without its gap.
pub const LINE_Q: u16 = 4;

// ── filling one page ──────────────────────────────────────────────

/// Fill of `line` in quarter-lines.
pub open spec fn line_q(line: LineLayout, first_on_page: bool, spacing: PageSpacing) -> int {
    if first_on_page {
        4
    } else {
        4 + spacing.gap(line.gap())
    }
}

/// How many lines stay together from line `i` on.
pub open spec fn block_at(lines: Seq<LineLayout>, blocks: Seq<u8>, i: int) -> int {
    if lines[i].image() && blocks[i] > 1 {
        blocks[i] as int
    } else {
        1
    }
}

/// Fill of the block that starts at line `i`.
pub open spec fn block_q(
    lines: Seq<LineLayout>,
    blocks: Seq<u8>,
    spacing: PageSpacing,
    i: int,
    first_on_page: bool,
) -> int {
    line_q(lines[i], first_on_page, spacing) + (block_at(lines, blocks, i) - 1) * 4
}

/// Lines from `i` to the end of the table.
pub open spec fn lines_left(lines: Seq<LineLayout>, i: int) -> int {
    if i < lines.len() {
        lines.len() - i
    } else {
        0
    }
}

/// The page that is open at line `i` with `count` lines and `used`
/// quarter-lines, filled up: its line count and the line the next page
/// starts at. A block that fits on no page takes one of its own, cut at the
/// page's capacity. A block that is longer than the table ends with it.
pub open spec fn fill_page(
    lines: Seq<LineLayout>,
    blocks: Seq<u8>,
    cap: int,
    spacing: PageSpacing,
    i: int,
    count: int,
    used: int,
) -> (int, int)
    decreases lines_left(lines, i),
{
    if i >= lines.len() || count >= cap {
        (count, i)
    } else if count > 0 && lines[i].page_break_before() {
        (count, i)
    } else {
        let block = block_at(lines, blocks, i);
        let cost = block_q(lines, blocks, spacing, i, count == 0);
        if cost > 4 * cap {
            if count > 0 {
                (count, i)
            } else {
                (min_int(block, cap), min_int(i + block, lines.len() as int))
            }
        } else if used + cost > 4 * cap {
            (count, i)
        } else {
            fill_page(
                lines,
                blocks,
                cap,
                spacing,
                min_int(i + block, lines.len() as int),
                count + block,
                used + cost,
            )
        }
    }
}

pub open spec fn min_int(a: int, b: int) -> int {
    if a <= b {
        a
    } else {
        b
    }
}

/// The record of a page of `count` lines from `start`.
pub open spec fn page_of(lines: Seq<LineLayout>, start: int, count: int) -> PageLayout {
    PageLayout {
        first_line: min_int(start, 65535) as u16,
        line_count: count as u8,
        flags: 0,
        start_byte: lines[start].start_byte,
        end_byte: lines[min_int(start + count, lines.len() as int) - 1].end_byte,
    }
}

/// The pages from line `start` on, before lines are moved.
pub open spec fn pages_from(
    lines: Seq<LineLayout>,
    blocks: Seq<u8>,
    cap: int,
    spacing: PageSpacing,
    start: int,
) -> Seq<PageLayout>
    decreases lines_left(lines, start),
{
    if start >= lines.len() {
        Seq::empty()
    } else {
        let (count, next) = fill_page(lines, blocks, cap, spacing, start, 0, 0);
        if next <= start {
            Seq::empty()
        } else {
            seq![page_of(lines, start, count)] + pages_from(lines, blocks, cap, spacing, next)
        }
    }
}

/// Every image block lies within the table.
pub open spec fn blocks_in_range(lines: Seq<LineLayout>, blocks: Seq<u8>) -> bool {
    forall|i: int|
        0 <= i < lines.len() && lines[i].image() ==> i + #[trigger] blocks[i] <= lines.len()
}

/// Filling a page makes progress and stays within the table and the page.
pub proof fn lemma_fill_page(
    lines: Seq<LineLayout>,
    blocks: Seq<u8>,
    cap: int,
    spacing: PageSpacing,
    i: int,
    count: int,
    used: int,
)
    requires
        lines.len() <= blocks.len(),
        0 <= i <= lines.len(),
        0 <= count <= cap,
        cap > 0,
        count == 0 ==> used == 0,
        4 * count <= used <= 4 * cap,
    ensures
        ({
            let (c, next) = fill_page(lines, blocks, cap, spacing, i, count, used);
            &&& i <= next <= lines.len()
            &&& count <= c <= cap
            &&& i < lines.len() && count == 0 ==> c >= 1 && next > i
            &&& blocks_in_range(lines, blocks) || next < lines.len() ==> c - count <= next - i
        }),
    decreases lines.len() - i,
{
    if i < lines.len() && count < cap {
        let block = block_at(lines, blocks, i);
        let cost = block_q(lines, blocks, spacing, i, count == 0);
        let behind = min_int(i + block, lines.len() as int);
        assert(blocks[i] >= 0);
        lemma_gap_bounds(spacing, lines[i].gap());
        if !(count > 0 && lines[i].page_break_before()) && cost <= 4 * cap && used + cost <= 4
            * cap {
            lemma_fill_page(lines, blocks, cap, spacing, behind, count + block, used + cost);
        }
    }
}

pub proof fn lemma_gap_bounds(spacing: PageSpacing, qem: u8)
    ensures
        0 <= spacing.gap(qem) <= 8,
{
    let lh: int = if spacing.line_h > 1 {
        spacing.line_h as int
    } else {
        1
    };
    assert(0 <= (qem * spacing.em_px + lh / 2) / lh) by (nonlinear_arith)
        requires
            lh >= 1,
            qem >= 0,
            spacing.em_px >= 0,
    ;
}

fn line_cost_q(line: &LineLayout, first_on_page: bool, spacing: &PageSpacing) -> (q: u16)
    ensures
        q == line_q(*line, first_on_page, *spacing),
        4 <= q <= 12,
{
    if first_on_page {
        LINE_Q
    } else {
        LINE_Q + spacing.gap_quarters(line.gap_qem())
    }
}

fn page_first_line_to_u16(idx: usize) -> (n: u16)
    ensures
        n == min_int(idx as int, 65535),
{
    if idx < 65535 {
        idx as u16
    } else {
        65535
    }
}

/// The line count of the page that starts at `start`, and where the next
/// page starts.
fn next_page(
    lines: &[LineLayout],
    cap: usize,
    blocks: &[u8],
    spacing: PageSpacing,
    start: usize,
) -> (r: (usize, usize))
    requires
        lines@.len() <= blocks@.len(),
        start < lines@.len(),
        0 < cap <= 255,
    ensures
        (r.0 as int, r.1 as int) == fill_page(
            lines@,
            blocks@,
            cap as int,
            spacing,
            start as int,
            0,
            0,
        ),
        1 <= r.0 <= cap,
        start < r.1 <= lines@.len(),
        blocks_in_range(lines@, blocks@) || r.1 < lines@.len() ==> r.0 <= r.1 - start,
{
    let cap_q: u16 = cap as u16 * LINE_Q;
    let mut i: usize = start;
    let mut count: usize = 0;
    let mut used_q: u16 = 0;
    proof {
        lemma_fill_page(lines@, blocks@, cap as int, spacing, start as int, 0, 0);
    }
    while i < lines.len() && count < cap
        invariant
            lines@.len() <= blocks@.len(),
            start <= i <= lines@.len(),
            start < lines@.len(),
            0 < cap <= 255,
            cap_q == 4 * cap,
            count <= cap,
            count == 0 ==> used_q == 0,
            4 * count <= used_q <= cap_q,
            ({
                let (c, next) = fill_page(
                    lines@,
                    blocks@,
                    cap as int,
                    spacing,
                    start as int,
                    0,
                    0,
                );
                &&& 1 <= c <= cap
                &&& start < next <= lines@.len()
                &&& blocks_in_range(lines@, blocks@) || next < lines@.len() ==> c <= next - start
            }),
            fill_page(
                lines@,
                blocks@,
                cap as int,
                spacing,
                i as int,
                count as int,
                used_q as int,
            ) == fill_page(lines@, blocks@, cap as int, spacing, start as int, 0, 0),
        decreases lines@.len() - i,
    {
        let line: LineLayout = lines[i];
        if count > 0 && line.is_page_break_before() {
            return (count, i);
        }
        let block: usize = if line.is_image() && blocks[i] > 1 {
            blocks[i] as usize
        } else {
            1
        };
        proof {
            assert(blocks@[i as int] >= 0);
            assert(block == block_at(lines@, blocks@, i as int));
        }
        let behind: usize = if block < lines.len() - i {
            i + block
        } else {
            lines.len()
        };
        let cost: u16 = line_cost_q(&line, count == 0, &spacing) + (block as u16 - 1) * LINE_Q;
        if cost > cap_q {
            if count > 0 {
                return (count, i);
            }
            return (if block < cap {
                block
            } else {
                cap
            }, behind);
        }
        if used_q + cost > cap_q {
            return (count, i);
        }
        used_q = used_q + cost;
        count = count + block;
        i = behind;
    }
    (count, i)
}

// ── widows and orphans ────────────────────────────────────────────

/// Fill of the first `k` lines of a page that starts at `first`.
pub open spec fn fill_q(lines: Seq<LineLayout>, spacing: PageSpacing, first: int, k: int) -> int
    decreases k,
{
    if k <= 0 {
        0
    } else {
        fill_q(lines, spacing, first, k - 1) + line_q(lines[first + k - 1], k == 1, spacing)
    }
}

/// Fill of a page, as far as the table goes.
pub open spec fn page_q(lines: Seq<LineLayout>, page: PageLayout, spacing: PageSpacing) -> int {
    fill_q(
        lines,
        spacing,
        page.first_line as int,
        min_int(page.line_count as int, lines.len() - page.first_line),
    )
}

/// Whether the last line of `prev` moves to the start of `cur`.
///
/// It moves against a widow (the first line of `cur` ends a paragraph that
/// `prev` began) and against an orphan (the last line of `prev` begins a
/// paragraph that `cur` goes on with). It stays when `prev` would get short,
/// when `cur` has no room for it and for the gap that its old first line
/// regains, next to an image, and for headings.
pub open spec fn moves_line(
    lines: Seq<LineLayout>,
    blocks: Seq<u8>,
    max_lines: u8,
    spacing: PageSpacing,
    prev: PageLayout,
    cur: PageLayout,
) -> bool {
    let head = lines[cur.first_line as int];
    let tail_idx = prev.first_line + prev.line_count - 1;
    let tail = lines[tail_idx];
    let widow = head.paragraph_end() && !tail.paragraph_end() && !head.heading();
    let begins = tail_idx == prev.first_line || lines[tail_idx - 1].paragraph_end();
    let orphan = begins && !tail.paragraph_end() && !tail.heading();
    &&& prev.line_count > max_lines / 2 + 1
    &&& page_q(lines, cur, spacing) + 4 + spacing.gap(head.gap()) <= 4 * max_lines
    &&& !head.image() && !tail.image()
    &&& blocks[cur.first_line as int] == 0 && blocks[tail_idx] == 0
    &&& widow || orphan
}

/// `prev` without its last line.
pub open spec fn without_tail(lines: Seq<LineLayout>, prev: PageLayout) -> PageLayout {
    PageLayout {
        line_count: (prev.line_count - 1) as u8,
        end_byte: lines[prev.first_line + prev.line_count - 2].end_byte,
        ..prev
    }
}

/// `cur` with one more line in front.
pub open spec fn with_head(
    lines: Seq<LineLayout>,
    prev: PageLayout,
    cur: PageLayout,
) -> PageLayout {
    PageLayout {
        first_line: (cur.first_line - 1) as u16,
        line_count: (cur.line_count + 1) as u8,
        start_byte: lines[prev.first_line + prev.line_count - 1].start_byte,
        ..cur
    }
}

/// The pages after the boundary before page `p` is settled.
pub open spec fn settle(
    lines: Seq<LineLayout>,
    blocks: Seq<u8>,
    max_lines: u8,
    spacing: PageSpacing,
    pages: Seq<PageLayout>,
    p: int,
) -> Seq<PageLayout> {
    let prev = pages[p - 1];
    let cur = pages[p];
    if moves_line(lines, blocks, max_lines, spacing, prev, cur) {
        pages.update(p - 1, without_tail(lines, prev)).update(p, with_head(lines, prev, cur))
    } else {
        pages
    }
}

/// The pages after the boundaries before pages `1..p` are settled in turn.
pub open spec fn settled(
    lines: Seq<LineLayout>,
    blocks: Seq<u8>,
    max_lines: u8,
    spacing: PageSpacing,
    pages: Seq<PageLayout>,
    p: int,
) -> Seq<PageLayout>
    decreases p,
{
    if p <= 1 {
        pages
    } else {
        settle(
            lines,
            blocks,
            max_lines,
            spacing,
            settled(lines, blocks, max_lines, spacing, pages, p - 1),
            p - 1,
        )
    }
}

/// The boundary before page `p` can be settled: the lines that decide are
/// there, and a line that moves has a place in both records.
pub open spec fn boundary_sound(
    lines: Seq<LineLayout>,
    blocks: Seq<u8>,
    max_lines: u8,
    spacing: PageSpacing,
    pages: Seq<PageLayout>,
    p: int,
) -> bool {
    let prev = pages[p - 1];
    let cur = pages[p];
    &&& prev.line_count > max_lines / 2 + 1 ==> prev.first_line + prev.line_count <= lines.len()
        && cur.first_line < lines.len()
    &&& moves_line(lines, blocks, max_lines, spacing, prev, cur) ==> cur.first_line >= 1
        && cur.line_count < 255
}

/// Every boundary can be settled in its turn.
pub open spec fn can_settle(
    lines: Seq<LineLayout>,
    blocks: Seq<u8>,
    max_lines: u8,
    spacing: PageSpacing,
    pages: Seq<PageLayout>,
) -> bool {
    forall|p: int|
        1 <= p < pages.len() ==> boundary_sound(
            lines,
            blocks,
            max_lines,
            spacing,
            #[trigger] settled(lines, blocks, max_lines, spacing, pages, p),
            p,
        )
}

/// Every line of a page costs four quarters, and at most twelve.
pub proof fn lemma_fill_q_lower(lines: Seq<LineLayout>, spacing: PageSpacing, first: int, k: int)
    requires
        k >= 0,
    ensures
        4 * k <= fill_q(lines, spacing, first, k) <= 12 * k,
    decreases k,
{
    if k > 0 {
        lemma_fill_q_lower(lines, spacing, first, k - 1);
        lemma_gap_bounds(spacing, lines[first + k - 1].gap());
    }
}

fn page_fill_q(lines: &[LineLayout], page: &PageLayout, spacing: &PageSpacing) -> (q: u16)
    requires
        page.first_line <= lines@.len(),
    ensures
        q == page_q(lines@, *page, *spacing),
        q <= 12 * page.line_count,
{
    let first: usize = page.first_line as usize;
    let left: usize = lines.len() - first;
    let count: usize = if (page.line_count as usize) < left {
        page.line_count as usize
    } else {
        left
    };
    let mut q: u16 = 0;
    let mut k: usize = 0;
    while k < count
        invariant
            k <= count <= 255,
            first + count <= lines@.len(),
            q == fill_q(lines@, *spacing, first as int, k as int),
            q <= 12 * k,
        decreases count - k,
    {
        q = q + line_cost_q(&lines[first + k], k == 0, spacing);
        k = k + 1;
    }
    q
}

fn should_move(
    lines: &[LineLayout],
    blocks: &[u8],
    max_lines: u8,
    spacing: PageSpacing,
    prev: &PageLayout,
    cur: &PageLayout,
) -> (b: bool)
    requires
        lines@.len() <= blocks@.len(),
        prev.line_count > max_lines / 2 + 1 ==> prev.first_line + prev.line_count <= lines@.len()
            && cur.first_line < lines@.len(),
    ensures
        b == moves_line(lines@, blocks@, max_lines, spacing, *prev, *cur),
{
    if prev.line_count <= max_lines / 2 || prev.line_count - 1 <= max_lines / 2 {
        return false;
    }
    let cur_first: usize = cur.first_line as usize;
    let prev_last: usize = prev.first_line as usize + prev.line_count as usize - 1;
    let head: LineLayout = lines[cur_first];
    let tail: LineLayout = lines[prev_last];
    let grown_q: u16 = page_fill_q(lines, cur, &spacing) + LINE_Q + spacing.gap_quarters(
        head.gap_qem(),
    );
    proof {
        lemma_gap_bounds(spacing, head.gap());
    }
    if grown_q > max_lines as u16 * LINE_Q {
        return false;
    }
    if head.is_image() || tail.is_image() || blocks[cur_first] > 0 || blocks[prev_last] > 0 {
        return false;
    }
    let widow: bool = head.is_paragraph_end() && !tail.is_paragraph_end() && !head.is_heading();
    if widow {
        return true;
    }
    let begins: bool = prev_last == prev.first_line as usize
        || lines[prev_last - 1].is_paragraph_end();
    begins && !tail.is_paragraph_end() && !tail.is_heading()
}

/// Settle every page boundary in turn: at most one line moves from the end of
/// a page to the start of the next.
fn apply_widow_orphan(
    lines: &[LineLayout],
    blocks: &[u8],
    max_lines: u8,
    spacing: PageSpacing,
    pages: &mut Vec<PageLayout>,
)
    requires
        lines@.len() <= blocks@.len(),
        can_settle(lines@, blocks@, max_lines, spacing, old(pages)@),
    ensures
        final(pages)@ == settled(
            lines@,
            blocks@,
            max_lines,
            spacing,
            old(pages)@,
            old(pages)@.len() as int,
        ),
{
    let n: usize = pages.len();
    let mut p: usize = 1;
    if n == 0 {
        return ;
    }
    while p < n
        invariant
            1 <= p <= n,
            n == pages@.len(),
            n == old(pages)@.len(),
            lines@.len() <= blocks@.len(),
            can_settle(lines@, blocks@, max_lines, spacing, old(pages)@),
            pages@ == settled(lines@, blocks@, max_lines, spacing, old(pages)@, p as int),
        decreases n - p,
    {
        let prev: PageLayout = pages[p - 1];
        let cur: PageLayout = pages[p];
        proof {
            let now = settled(lines@, blocks@, max_lines, spacing, old(pages)@, p as int);
            assert(boundary_sound(lines@, blocks@, max_lines, spacing, now, p as int));
        }
        if should_move(lines, blocks, max_lines, spacing, &prev, &cur) {
            let prev_last: usize = prev.first_line as usize + prev.line_count as usize - 1;
            let shorter = PageLayout {
                line_count: prev.line_count - 1,
                end_byte: lines[prev_last - 1].end_byte,
                ..prev
            };
            let longer = PageLayout {
                first_line: cur.first_line - 1,
                line_count: cur.line_count + 1,
                start_byte: lines[prev_last].start_byte,
                ..cur
            };
            pages.set(p - 1, shorter);
            pages.set(p, longer);
        }
        p = p + 1;
    }
}

// ── the whole chapter ─────────────────────────────────────────────

/// The pages of a chapter before lines are moved.
pub open spec fn raw_pages(
    lines: Seq<LineLayout>,
    max_lines: u8,
    blocks: Seq<u8>,
    spacing: PageSpacing,
) -> Seq<PageLayout> {
    pages_from(lines, blocks, max_lines as int, spacing, 0)
}

/// The pages of a chapter.
pub open spec fn chapter_pages(
    lines: Seq<LineLayout>,
    max_lines: u8,
    blocks: Seq<u8>,
    spacing: PageSpacing,
) -> Seq<PageLayout> {
    let raw = raw_pages(lines, max_lines, blocks, spacing);
    settled(lines, blocks, max_lines, spacing, raw, raw.len() as int)
}

/// The pages of a chapter behind those that are held already: every boundary
/// is settled, that of the pages held too.
pub open spec fn pages_behind(
    held: Seq<PageLayout>,
    lines: Seq<LineLayout>,
    max_lines: u8,
    blocks: Seq<u8>,
    spacing: PageSpacing,
) -> Seq<PageLayout> {
    let all = held + raw_pages(lines, max_lines, blocks, spacing);
    settled(lines, blocks, max_lines, spacing, all, all.len() as int)
}

/// Why a chapter cannot be paginated behind `held` pages, if it cannot; `room`
/// says whether memory for the pages was granted.
pub open spec fn paginate_error(
    held: int,
    lines: Seq<LineLayout>,
    max_lines: u8,
    blocks: Seq<u8>,
    spacing: PageSpacing,
    room: bool,
) -> Option<PaginateError> {
    if lines.len() == 0 || blocks.len() < lines.len() {
        Some(PaginateError::EmptyChapter)
    } else if max_lines == 0 || !room {
        Some(PaginateError::TooManyPages)
    } else if held + raw_pages(lines, max_lines, blocks, spacing).len() > MAX_PAGES {
        Some(PaginateError::TooManyPages)
    } else {
        None
    }
}

/// What a failed pagination leaves behind: the pages held, and the new ones up
/// to the first one too many.
pub open spec fn paginate_leftover(
    held: Seq<PageLayout>,
    lines: Seq<LineLayout>,
    max_lines: u8,
    blocks: Seq<u8>,
    spacing: PageSpacing,
    room: bool,
) -> Seq<PageLayout> {
    if lines.len() == 0 || blocks.len() < lines.len() || max_lines == 0 || !room {
        held
    } else {
        let most = if held.len() > MAX_PAGES {
            held.len() as int
        } else {
            MAX_PAGES as int
        };
        (held + raw_pages(lines, max_lines, blocks, spacing)).take(most + 1)
    }
}

/// What `paginate` gives, with the answer of the allocator.
pub open spec fn paginates(
    held: Seq<PageLayout>,
    lines: Seq<LineLayout>,
    max_lines: u8,
    blocks: Seq<u8>,
    spacing: PageSpacing,
    room: bool,
    r: Result<(), PaginateError>,
    after: Seq<PageLayout>,
) -> bool {
    let e = paginate_error(held.len() as int, lines, max_lines, blocks, spacing, room);
    match r {
        Err(x) => e == Some(x) && after == paginate_leftover(
            held,
            lines,
            max_lines,
            blocks,
            spacing,
            room,
        ),
        Ok(_) => e is None && after == pages_behind(held, lines, max_lines, blocks, spacing),
    }
}

/// No line has to move where there is none. This holds of an empty page table,
/// unless a page can take 255 lines and an image block runs past the end of
/// the line table.
pub open spec fn can_paginate(
    held: Seq<PageLayout>,
    lines: Seq<LineLayout>,
    max_lines: u8,
    blocks: Seq<u8>,
    spacing: PageSpacing,
) -> bool {
    ||| lines.len() == 0 || blocks.len() < lines.len() || max_lines == 0
    ||| held.len() == 0 && (max_lines < 255 || blocks_in_range(lines, blocks))
    ||| can_settle(
        lines,
        blocks,
        max_lines,
        spacing,
        held + raw_pages(lines, max_lines, blocks, spacing),
    )
}

/// A page as it was filled: it has lines, at most a page full, and all of them
/// are in the table but for a block that runs past its end.
pub open spec fn page_filled(
    lines: Seq<LineLayout>,
    blocks: Seq<u8>,
    max_lines: u8,
    page: PageLayout,
    last: bool,
) -> bool {
    &&& 1 <= page.line_count <= max_lines
    &&& page.first_line < lines.len()
    &&& !last || blocks_in_range(lines, blocks) ==> page.first_line + page.line_count
        <= lines.len()
}

proof fn lemma_pages_filled(
    lines: Seq<LineLayout>,
    blocks: Seq<u8>,
    max_lines: u8,
    spacing: PageSpacing,
    start: int,
)
    requires
        lines.len() <= blocks.len(),
        0 <= start <= lines.len(),
        max_lines > 0,
    ensures
        ({
            let pages = pages_from(lines, blocks, max_lines as int, spacing, start);
            &&& start < lines.len() ==> pages.len() > 0
            &&& forall|q: int|
                0 <= q < pages.len() ==> page_filled(
                    lines,
                    blocks,
                    max_lines,
                    #[trigger] pages[q],
                    q == pages.len() - 1,
                ) && (start + q >= 1 ==> pages[q].first_line >= 1)
        }),
    decreases lines.len() - start,
{
    if start < lines.len() {
        let cap = max_lines as int;
        lemma_fill_page(lines, blocks, cap, spacing, start, 0, 0);
        let (count, next) = fill_page(lines, blocks, cap, spacing, start, 0, 0);
        lemma_pages_filled(lines, blocks, max_lines, spacing, next);
        let rest = pages_from(lines, blocks, cap, spacing, next);
        let pages = pages_from(lines, blocks, cap, spacing, start);
        assert(pages == seq![page_of(lines, start, count)] + rest);
        assert forall|q: int| 0 <= q < pages.len() implies page_filled(
            lines,
            blocks,
            max_lines,
            #[trigger] pages[q],
            q == pages.len() - 1,
        ) && (start + q >= 1 ==> pages[q].first_line >= 1) by {
            if q > 0 {
                assert(pages[q] == rest[q - 1]);
            } else if next >= lines.len() {
                assert(rest.len() == 0);
            }
        }
    }
}

/// The pages of a chapter can be settled: up to the boundary in turn nothing
/// has moved out of its table.
proof fn lemma_pages_settle(
    lines: Seq<LineLayout>,
    blocks: Seq<u8>,
    max_lines: u8,
    spacing: PageSpacing,
    pages: Seq<PageLayout>,
    p: int,
)
    requires
        1 <= p <= pages.len(),
        max_lines < 255 || blocks_in_range(lines, blocks),
        forall|q: int|
            0 <= q < pages.len() ==> page_filled(
                lines,
                blocks,
                max_lines,
                #[trigger] pages[q],
                q == pages.len() - 1,
            ) && (q >= 1 ==> pages[q].first_line >= 1),
    ensures
        ({
            let now = settled(lines, blocks, max_lines, spacing, pages, p);
            &&& now.len() == pages.len()
            &&& forall|q: int| p <= q < pages.len() ==> (#[trigger] now[q]) == pages[q]
            &&& now[p - 1].line_count >= 1
            &&& p < pages.len() ==> now[p - 1].first_line + now[p - 1].line_count <= lines.len()
            &&& p < pages.len() ==> boundary_sound(lines, blocks, max_lines, spacing, now, p)
        }),
    decreases p,
{
    if p > 1 {
        lemma_pages_settle(lines, blocks, max_lines, spacing, pages, p - 1);
    }
    let now = settled(lines, blocks, max_lines, spacing, pages, p);
    if p > 1 {
        let then = settled(lines, blocks, max_lines, spacing, pages, p - 1);
        assert(then[p - 1] == pages[p - 1]);
        assert(boundary_sound(lines, blocks, max_lines, spacing, then, p - 1));
        assert(now == settle(lines, blocks, max_lines, spacing, then, p - 1));
    }
    if p < pages.len() {
        let cur = pages[p];
        assert(now[p] == cur);
        let k = min_int(cur.line_count as int, lines.len() - cur.first_line);
        lemma_fill_q_lower(lines, spacing, cur.first_line as int, k);
        lemma_gap_bounds(spacing, lines[cur.first_line as int].gap());
    }
}

proof fn lemma_can_settle(
    held: Seq<PageLayout>,
    lines: Seq<LineLayout>,
    max_lines: u8,
    blocks: Seq<u8>,
    spacing: PageSpacing,
)
    requires
        can_paginate(held, lines, max_lines, blocks, spacing),
        0 < lines.len() <= blocks.len(),
        max_lines > 0,
    ensures
        can_settle(
            lines,
            blocks,
            max_lines,
            spacing,
            held + raw_pages(lines, max_lines, blocks, spacing),
        ),
{
    let raw = raw_pages(lines, max_lines, blocks, spacing);
    if held.len() == 0 && (max_lines < 255 || blocks_in_range(lines, blocks)) {
        assert(held + raw =~= raw);
        lemma_pages_filled(lines, blocks, max_lines, spacing, 0);
        assert forall|p: int| 1 <= p < raw.len() implies boundary_sound(
            lines,
            blocks,
            max_lines,
            spacing,
            #[trigger] settled(lines, blocks, max_lines, spacing, raw, p),
            p,
        ) by {
            lemma_pages_settle(lines, blocks, max_lines, spacing, raw, p);
        }
    }
}

/// `paginate` with the answer of the allocator as an argument.
pub fn paginate_granted(
    lines: &[LineLayout],
    max_lines: u8,
    image_block_lines: &[u8],
    spacing: PageSpacing,
    out_pages: &mut Vec<PageLayout>,
    room: bool,
) -> (r: Result<(), PaginateError>)
    requires
        can_paginate(old(out_pages)@, lines@, max_lines, image_block_lines@, spacing),
    ensures
        paginates(
            old(out_pages)@,
            lines@,
            max_lines,
            image_block_lines@,
            spacing,
            room,
            r,
            final(out_pages)@,
        ),
{
    if lines.len() == 0 || image_block_lines.len() < lines.len() {
        return Err(PaginateError::EmptyChapter);
    }
    if max_lines == 0 || !room {
        return Err(PaginateError::TooManyPages);
    }
    let cap: usize = max_lines as usize;
    let ghost blocks = image_block_lines@;
    let ghost held = out_pages@;
    let ghost all = held + raw_pages(lines@, max_lines, blocks, spacing);
    let mut i: usize = 0;
    while i < lines.len()
        invariant
            i <= lines@.len(),
            blocks == image_block_lines@,
            lines@.len() <= blocks.len(),
            cap == max_lines,
            0 < cap <= 255,
            room,
            held == old(out_pages)@,
            all == held + raw_pages(lines@, max_lines, blocks, spacing),
            i == 0 ==> out_pages@ == held,
            i > 0 ==> held.len() < out_pages@.len() <= MAX_PAGES,
            out_pages@ + pages_from(lines@, blocks, cap as int, spacing, i as int) == all,
        decreases lines@.len() - i,
    {
        let (count, next): (usize, usize) = next_page(lines, cap, image_block_lines, spacing, i);
        let last: usize = if count < lines.len() - i {
            i + count - 1
        } else {
            lines.len() - 1
        };
        let page = PageLayout {
            first_line: page_first_line_to_u16(i),
            line_count: count as u8,
            flags: 0,
            start_byte: lines[i].start_byte,
            end_byte: lines[last].end_byte,
        };
        let ghost before = out_pages@;
        out_pages.push(page);
        proof {
            let rest = pages_from(lines@, blocks, cap as int, spacing, next as int);
            assert(page == page_of(lines@, i as int, count as int));
            assert(pages_from(lines@, blocks, cap as int, spacing, i as int) == seq![page] + rest);
            assert(out_pages@ + rest =~= before + (seq![page] + rest));
        }
        if out_pages.len() > MAX_PAGES {
            proof {
                assert(out_pages@ =~= all.take(out_pages@.len() as int));
            }
            return Err(PaginateError::TooManyPages);
        }
        i = next;
    }
    proof {
        assert(out_pages@ =~= all);
        lemma_can_settle(held, lines@, max_lines, blocks, spacing);
    }
    apply_widow_orphan(lines, image_block_lines, max_lines, spacing, out_pages);
    Ok(())
}

/// Turn a chapter's line table into a page table, behind what `out_pages`
/// holds.
///
/// `image_block_lines[i] > 0` says that line `i` is the origin of an image
/// and that so many lines (origin and filler) stay on one page; it is 0 for
/// every other line.
///
/// Memory may be refused, and then there are too many pages.
pub fn paginate(
    lines: &[LineLayout],
    max_lines: u8,
    image_block_lines: &[u8],
    spacing: PageSpacing,
    out_pages: &mut Vec<PageLayout>,
) -> (r: Result<(), PaginateError>)
    requires
        can_paginate(old(out_pages)@, lines@, max_lines, image_block_lines@, spacing),
    ensures
        exists|room: bool| #[trigger]
            paginates(
                old(out_pages)@,
                lines@,
                max_lines,
                image_block_lines@,
                spacing,
                room,
                r,
                final(out_pages)@,
            ),
{
    let mut room: bool = true;
    if lines.len() > 0 && image_block_lines.len() >= lines.len() && max_lines > 0 {
        let cap: usize = max_lines as usize;
        let n: usize = (lines.len() - 1) / cap + 1;
        room = out_pages.try_reserve(n).is_ok();
    }
    paginate_granted(lines, max_lines, image_block_lines, spacing, out_pages, room)
}

/// Two calls that succeed on the same lines give the same pages: memory decides
/// whether there are pages, not which.
pub proof fn law_memory_does_not_move_pages(
    held: Seq<PageLayout>,
    lines: Seq<LineLayout>,
    max_lines: u8,
    blocks: Seq<u8>,
    spacing: PageSpacing,
    room1: bool,
    room2: bool,
    after1: Seq<PageLayout>,
    after2: Seq<PageLayout>,
)
    requires
        paginates(held, lines, max_lines, blocks, spacing, room1, Ok(()), after1),
        paginates(held, lines, max_lines, blocks, spacing, room2, Ok(()), after2),
    ensures
        after1 == after2,
{
}

/// Behind an empty page table the pages are those of the chapter.
pub proof fn law_first_pages(
    lines: Seq<LineLayout>,
    max_lines: u8,
    blocks: Seq<u8>,
    spacing: PageSpacing,
)
    ensures
        pages_behind(Seq::empty(), lines, max_lines, blocks, spacing) == chapter_pages(
            lines,
            max_lines,
            blocks,
            spacing,
        ),
{
    let raw = raw_pages(lines, max_lines, blocks, spacing);
    assert(Seq::<PageLayout>::empty() + raw =~= raw);
}

} // verus!
