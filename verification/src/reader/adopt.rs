//! Taking over a stored chapter layout: restoring the table of image blocks,
//! and building new pages for another line height.

use crate::layout::chapter;
use crate::layout::chapter::{Chapter, Setting, Stop};
use crate::layout::convert;
use crate::layout::events;
use crate::layout::events::EventState;
use crate::layout::items;
use crate::layout::items::{Item, ParagraphBuilder, ParagraphEnd, ParagraphMeta};
use crate::layout::paginate;
use crate::layout::paginate::PageSpacing;
use crate::layout::pipeline;
use crate::layout::pipeline::{Counts, ImageHeightHint, Sheet, StepOutcome, Told, TypesetError};
use crate::layout::table::{LineLayout, PageLayout, MAX_LINES_PER_CHAPTER, MAX_PAGES};
use vstd::prelude::*;

verus! {

/// A line that an image reserves behind its origin.
pub open spec fn filler(l: LineLayout) -> bool {
    l.image() && l.start_byte == 0 && l.end_byte == 0
}

/// Fillers that stand one behind the other from line `i` on.
pub open spec fn filler_run(lines: Seq<LineLayout>, i: int) -> nat
    decreases lines.len() - i,
{
    if 0 <= i < lines.len() && filler(lines[i]) {
        1 + filler_run(lines, i + 1)
    } else {
        0
    }
}

/// Line `i` opens an image block: it is an image line, and not a filler behind
/// another image line.
pub open spec fn opens_block(lines: Seq<LineLayout>, i: int) -> bool {
    lines[i].image() && !(i > 0 && filler(lines[i]) && lines[i - 1].image())
}

/// Length of the image block that line `i` opens, at most 255, or 0.
pub open spec fn block_len(lines: Seq<LineLayout>, i: int) -> u8 {
    if !opens_block(lines, i) {
        0
    } else if 1 + filler_run(lines, i + 1) < 255 {
        (1 + filler_run(lines, i + 1)) as u8
    } else {
        255
    }
}

/// The block table of a line table.
pub open spec fn blocks_of(lines: Seq<LineLayout>) -> Seq<u8> {
    Seq::new(lines.len(), |i: int| block_len(lines, i))
}

proof fn lemma_filler_run(lines: Seq<LineLayout>, i: int)
    requires
        0 <= i <= lines.len(),
    ensures
        0 <= filler_run(lines, i) <= lines.len() - i,
        forall|k: int| i <= k < i + filler_run(lines, i) ==> filler(#[trigger] lines[k]),
        i + filler_run(lines, i) < lines.len() ==> !filler(lines[i + filler_run(lines, i)]),
    decreases lines.len() - i,
{
    if i < lines.len() && filler(lines[i]) {
        lemma_filler_run(lines, i + 1);
    }
}

fn is_filler(l: &LineLayout) -> (b: bool)
    ensures
        b == filler(*l),
{
    l.is_image() && l.start_byte == 0 && l.end_byte == 0
}

/// Length of the block of image lines at `i`: the line there and the fillers
/// behind it.
fn block_run(lines: &[LineLayout], i: usize) -> (n: usize)
    requires
        i < lines@.len(),
    ensures
        n == 1 + filler_run(lines@, i + 1),
        1 <= n,
        i + n <= lines@.len(),
{
    let len: usize = lines.len();
    let mut n: usize = 1;
    while i + n < len && is_filler(&lines[i + n])
        invariant
            len == lines@.len(),
            i + n <= len,
            n >= 1,
            (n - 1) + filler_run(lines@, i + n) == filler_run(lines@, i + 1),
        decreases len - n,
    {
        n = n + 1;
    }
    n
}

/// Restore the block table of a stored line table.
pub fn restore_blocks(lines: &[LineLayout]) -> (blocks: Vec<u8>)
    ensures
        blocks@ == blocks_of(lines@),
{
    let len: usize = lines.len();
    let mut blocks: Vec<u8> = Vec::new();
    let mut i: usize = 0;
    while i < len
        invariant
            len == lines@.len(),
            i <= len,
            blocks@.len() == i,
            forall|k: int| 0 <= k < i ==> #[trigger] blocks@[k] == block_len(lines@, k),
            0 < i < len && filler(lines@[i as int]) ==> !lines@[i - 1].image(),
        decreases len - i,
    {
        if lines[i].is_image() {
            let n: usize = block_run(lines, i);
            proof {
                lemma_filler_run(lines@, i + 1);
            }
            blocks.push(
                if n < 255 {
                    n as u8
                } else {
                    255
                },
            );
            let mut k: usize = 1;
            while k < n
                invariant
                    1 <= k <= n,
                    i + n <= len == lines@.len(),
                    blocks@.len() == i + k,
                    n == 1 + filler_run(lines@, i + 1),
                    lines@[i as int].image(),
                    forall|j: int| i < j < i + n ==> filler(#[trigger] lines@[j]),
                    forall|j: int|
                        0 <= j < i + k ==> #[trigger] blocks@[j] == block_len(lines@, j),
                decreases n - k,
            {
                proof {
                    let j = i + k;
                    assert(filler(lines@[j]));
                    assert(lines@[j - 1].image()) by {
                        if j - 1 > i {
                            assert(filler(lines@[j - 1]));
                        }
                    }
                }
                blocks.push(0);
                k = k + 1;
            }
            i = i + n;
        } else {
            blocks.push(0);
            i = i + 1;
        }
    }
    proof {
        assert(blocks@ =~= blocks_of(lines@));
    }
    blocks
}

// ── another line height ───────────────────────────────────────────

/// Lines of a stored image block at another line height: from the height that
/// its origin keeps in units of four pixels, or as many as before where it
/// keeps none.
pub open spec fn block_at_height(l: LineLayout, old_block: int, line_h: u16) -> int {
    let stored = l.extra as int * 4;
    if stored > 0 {
        pipeline::max_int(
            pipeline::min_int(
                pipeline::ceil_div(stored, pipeline::max_int(line_h as int, 1)),
                255,
            ),
            1,
        )
    } else {
        old_block
    }
}

/// A line and its fillers.
pub open spec fn image_lines(l: LineLayout, n: int) -> Seq<LineLayout> {
    Seq::new(
        n as nat,
        |k: int|
            if k == 0 {
                l
            } else {
                convert::image_filler()
            },
    )
}

pub open spec fn image_counts(n: int) -> Seq<u8> {
    Seq::new(
        n as nat,
        |k: int|
            if k > 0 {
                0u8
            } else if n < 255 {
                n as u8
            } else {
                255
            },
    )
}

/// The line table from line `i` on for another line height, behind `lines` and
/// `blocks`; none where an image block would exceed the limit of lines.
pub open spec fn rebuilt(
    src: Seq<LineLayout>,
    line_h: u16,
    i: int,
    lines: Seq<LineLayout>,
    blocks: Seq<u8>,
) -> Option<(Seq<LineLayout>, Seq<u8>)>
    decreases paginate::lines_left(src, i),
{
    if i < 0 || i >= src.len() {
        Some((lines, blocks))
    } else if src[i].image() {
        let old_block = 1 + filler_run(src, i + 1) as int;
        let n = block_at_height(src[i], old_block, line_h);
        if lines.len() + n > MAX_LINES_PER_CHAPTER {
            None
        } else {
            rebuilt(
                src,
                line_h,
                i + old_block,
                lines + image_lines(src[i], n),
                blocks + image_counts(n),
            )
        }
    } else {
        rebuilt(src, line_h, i + 1, lines.push(src[i]), blocks.push(0))
    }
}

/// The chapter's lines and blocks at another line height.
pub open spec fn at_height(src: Seq<LineLayout>, line_h: u16) -> Option<
    (Seq<LineLayout>, Seq<u8>),
> {
    rebuilt(src, line_h, 0, Seq::empty(), Seq::empty())
}

fn push_image(l: LineLayout, n: usize, lines: &mut Vec<LineLayout>, blocks: &mut Vec<u8>)
    requires
        n >= 1,
    ensures
        final(lines)@ == old(lines)@ + image_lines(l, n as int),
        final(blocks)@ == old(blocks)@ + image_counts(n as int),
{
    lines.push(l);
    blocks.push(
        if n < 255 {
            n as u8
        } else {
            255
        },
    );
    let mut k: usize = 1;
    while k < n
        invariant
            1 <= k <= n,
            lines@ =~= old(lines)@ + image_lines(l, n as int).take(k as int),
            blocks@ =~= old(blocks)@ + image_counts(n as int).take(k as int),
        decreases n - k,
    {
        lines.push(
            LineLayout {
                start_byte: 0,
                end_byte: 0,
                flags: LineLayout::FLAG_IMAGE,
                indent: 0,
                align: LineLayout::ALIGN_DEFAULT,
                extra: 0,
            },
        );
        blocks.push(0);
        k = k + 1;
    }
    proof {
        assert(image_lines(l, n as int).take(n as int) =~= image_lines(l, n as int));
        assert(image_counts(n as int).take(n as int) =~= image_counts(n as int));
    }
}

fn rows_at_height(l: &LineLayout, old_block: usize, line_h: u16) -> (n: usize)
    requires
        old_block >= 1,
    ensures
        n == block_at_height(*l, old_block as int, line_h),
        n >= 1,
{
    let stored: u16 = l.extra as u16 * 4;
    if stored > 0 {
        let lh: u16 = if line_h > 1 {
            line_h
        } else {
            1
        };
        let up: u16 = pipeline::div_up(stored, lh);
        if up > 255 {
            255
        } else if up < 1 {
            1
        } else {
            up as usize
        }
    } else {
        old_block
    }
}

/// Lines of the table at another line height.
fn count_at_height(src: &[LineLayout], line_h: u16) -> (r: Option<usize>)
    requires
        src@.len() <= 0x7fff_ffff,
    ensures
        r is Some == at_height(src@, line_h) is Some,
        r matches Some(n) ==> n == (at_height(src@, line_h)->0).0.len(),
{
    let mut n: usize = 0;
    let mut i: usize = 0;
    let ghost mut lines = Seq::<LineLayout>::empty();
    let ghost mut blocks = Seq::<u8>::empty();
    while i < src.len()
        invariant
            i <= src@.len() <= 0x7fff_ffff,
            n == lines.len(),
            n <= MAX_LINES_PER_CHAPTER + i,
            rebuilt(src@, line_h, i as int, lines, blocks) == at_height(src@, line_h),
        decreases src@.len() - i,
    {
        let ghost l = src@[i as int];
        if src[i].is_image() {
            let old_block: usize = block_run(src, i);
            let more: usize = rows_at_height(&src[i], old_block, line_h);
            if n > MAX_LINES_PER_CHAPTER || more > MAX_LINES_PER_CHAPTER - n {
                return None;
            }
            n = n + more;
            i = i + old_block;
            proof {
                lines = lines + image_lines(l, more as int);
                blocks = blocks + image_counts(more as int);
            }
        } else {
            n = n + 1;
            i = i + 1;
            proof {
                lines = lines.push(l);
                blocks = blocks.push(0);
            }
        }
    }
    Some(n)
}

/// Build the table at another line height.
fn rebuild(src: &[LineLayout], line_h: u16, lines: &mut Vec<LineLayout>, blocks: &mut Vec<u8>)
    requires
        old(lines)@.len() == 0,
        old(blocks)@.len() == 0,
        at_height(src@, line_h) is Some,
    ensures
        at_height(src@, line_h) == Some((final(lines)@, final(blocks)@)),
{
    let mut i: usize = 0;
    proof {
        assert(lines@ =~= Seq::<LineLayout>::empty());
        assert(blocks@ =~= Seq::<u8>::empty());
    }
    while i < src.len()
        invariant
            i <= src@.len(),
            rebuilt(src@, line_h, i as int, lines@, blocks@) == at_height(src@, line_h),
            at_height(src@, line_h) is Some,
        decreases src@.len() - i,
    {
        if src[i].is_image() {
            let old_block: usize = block_run(src, i);
            let n: usize = rows_at_height(&src[i], old_block, line_h);
            push_image(src[i], n, lines, blocks);
            i = i + old_block;
        } else {
            lines.push(src[i]);
            blocks.push(0);
            i = i + 1;
        }
    }
}

/// What new pages of a stored line table come to: none where an image block
/// would exceed the limit of lines, where the pages would exceed theirs, or
/// where memory is refused for the tables (`room`) or the pages (`page_room`).
pub open spec fn repaginated(
    src: Seq<LineLayout>,
    max_lines: u8,
    spacing: PageSpacing,
    room: bool,
    page_room: bool,
) -> Option<(Seq<LineLayout>, Seq<u8>, Seq<PageLayout>)> {
    match at_height(src, spacing.line_h) {
        None => None,
        Some((lines, blocks)) => if !room || paginate::paginate_error(
            0,
            lines,
            max_lines,
            blocks,
            spacing,
            page_room,
        ) is Some {
            None
        } else {
            Some((lines, blocks, paginate::chapter_pages(lines, max_lines, blocks, spacing)))
        },
    }
}

/// The outcome `r` is what `want` says.
pub open spec fn chapter_is(
    r: Option<Chapter>,
    want: Option<(Seq<LineLayout>, Seq<u8>, Seq<PageLayout>)>,
) -> bool {
    match (r, want) {
        (Some(c), Some((lines, blocks, pages))) => c.lines@ == lines && c.blocks@ == blocks
            && c.pages@ == pages,
        (None, None) => true,
        _ => false,
    }
}

proof fn lemma_rebuilt_in_range(
    src: Seq<LineLayout>,
    line_h: u16,
    i: int,
    lines: Seq<LineLayout>,
    blocks: Seq<u8>,
)
    requires
        lines.len() == blocks.len(),
        paginate::blocks_in_range(lines, blocks),
        0 <= i,
    ensures
        rebuilt(src, line_h, i, lines, blocks) matches Some((l, b)) ==> l.len() == b.len()
            && paginate::blocks_in_range(l, b),
    decreases paginate::lines_left(src, i),
{
    if i < src.len() {
        if src[i].image() {
            let old_block = 1 + filler_run(src, i + 1) as int;
            let n = block_at_height(src[i], old_block, line_h);
            if lines.len() + n <= MAX_LINES_PER_CHAPTER {
                let l = lines + image_lines(src[i], n);
                let b = blocks + image_counts(n);
                assert forall|k: int| 0 <= k < l.len() && l[k].image() implies k + #[trigger] b[k]
                    <= l.len() by {
                    if k < lines.len() {
                        assert(b[k] == blocks[k]);
                        assert(l[k] == lines[k]);
                    } else {
                        assert(b[k] == image_counts(n)[k - lines.len()]);
                    }
                }
                lemma_rebuilt_in_range(src, line_h, i + old_block, l, b);
            }
        } else {
            let l = lines.push(src[i]);
            let b = blocks.push(0);
            assert forall|k: int| 0 <= k < l.len() && l[k].image() implies k + #[trigger] b[k]
                <= l.len() by {
                if k < lines.len() {
                    assert(b[k] == blocks[k]);
                    assert(l[k] == lines[k]);
                }
            }
            lemma_rebuilt_in_range(src, line_h, i + 1, l, b);
        }
    }
}

/// `adopt_lines_repaginate` with the answer of the allocator for the tables as
/// an argument, and empty tables to fill.
pub fn repaginate_granted(
    src: &[LineLayout],
    max_lines: u8,
    spacing: PageSpacing,
    room: bool,
    page_room: bool,
) -> (r: Option<Chapter>)
    requires
        src@.len() <= 0x7fff_ffff,
    ensures
        chapter_is(r, repaginated(src@, max_lines, spacing, room, page_room)),
{
    if !room || count_at_height(src, spacing.line_h).is_none() {
        return None;
    }
    let mut lines: Vec<LineLayout> = Vec::new();
    let mut blocks: Vec<u8> = Vec::new();
    rebuild(src, spacing.line_h, &mut lines, &mut blocks);
    proof {
        lemma_rebuilt_in_range(src@, spacing.line_h, 0, Seq::empty(), Seq::empty());
    }
    let mut pages: Vec<PageLayout> = Vec::new();
    match paginate::paginate_granted(
        lines.as_slice(),
        max_lines,
        blocks.as_slice(),
        spacing,
        &mut pages,
        page_room,
    ) {
        Ok(_) => Some(Chapter { lines, blocks, pages }),
        Err(_) => None,
    }
}

/// Build new pages for a stored line table whose pages were built for another
/// line height or page length: each image block gets the lines that its stored
/// height needs, and the chapter is paginated anew. None where the tables
/// would exceed their limits or memory is refused; the chapter is then typeset
/// from its text.
pub fn adopt_lines_repaginate(src: &[LineLayout], max_lines: u8, spacing: PageSpacing) -> (r: Option<
    Chapter,
>)
    requires
        src@.len() <= 0x7fff_ffff,
    ensures
        exists|room: bool, page_room: bool|
            chapter_is(r, #[trigger] repaginated(src@, max_lines, spacing, room, page_room)),
{
    let n: usize = match count_at_height(src, spacing.line_h) {
        Some(n) => n,
        None => {
            proof {
                assert(chapter_is(None, repaginated(src@, max_lines, spacing, false, false)));
            }
            return None;
        },
    };
    let mut lines: Vec<LineLayout> = Vec::new();
    let mut blocks: Vec<u8> = Vec::new();
    let mut pages: Vec<PageLayout> = Vec::new();
    if lines.try_reserve(n).is_err() || blocks.try_reserve(n).is_err() {
        proof {
            assert(chapter_is(None, repaginated(src@, max_lines, spacing, false, false)));
        }
        return None;
    }
    rebuild(src, spacing.line_h, &mut lines, &mut blocks);
    proof {
        lemma_rebuilt_in_range(src@, spacing.line_h, 0, Seq::empty(), Seq::empty());
    }
    proof {
        assert(pages@ =~= Seq::empty());
    }
    let paged = paginate::paginate(
        lines.as_slice(),
        max_lines,
        blocks.as_slice(),
        spacing,
        &mut pages,
    );
    let ghost page_room = choose|page_room: bool| #[trigger]
        paginate::paginates(
            Seq::empty(),
            lines@,
            max_lines,
            blocks@,
            spacing,
            page_room,
            paged,
            pages@,
        );
    proof {
        paginate::law_first_pages(lines@, max_lines, blocks@, spacing);
    }
    let r: Option<Chapter> = match paged {
        Ok(_) => Some(Chapter { lines, blocks, pages }),
        Err(_) => None,
    };
    proof {
        assert(chapter_is(r, repaginated(src@, max_lines, spacing, true, page_room)));
    }
    r
}

/// The chapter of a layout that was stored with its pages.
pub fn adopt_loaded_chapter(lines: Vec<LineLayout>, mut pages: Vec<PageLayout>) -> (c: Chapter)
    ensures
        c.lines@ == lines@,
        c.blocks@ == blocks_of(lines@),
        c.pages@ == (if pages@.len() > MAX_PAGES {
            pages@.take(MAX_PAGES as int)
        } else {
            pages@
        }),
{
    if pages.len() > MAX_PAGES {
        pages.truncate(MAX_PAGES);
    }
    let blocks: Vec<u8> = restore_blocks(lines.as_slice());
    Chapter { lines, blocks, pages }
}

// ── what holds of every adopted chapter ───────────────────────────

/// The lines that are not fillers.
pub open spec fn without_fillers(lines: Seq<LineLayout>) -> Seq<LineLayout> {
    lines.filter(|l: LineLayout| !filler(l))
}

proof fn lemma_all_fillers(s: Seq<LineLayout>)
    requires
        forall|k: int| 0 <= k < s.len() ==> filler(#[trigger] s[k]),
    ensures
        without_fillers(s) == Seq::<LineLayout>::empty(),
    decreases s.len(),
{
    reveal(Seq::filter);
    if s.len() > 0 {
        lemma_all_fillers(s.drop_last());
    } else {
        assert(s =~= Seq::<LineLayout>::empty());
    }
}

/// Of a block only its origin can be left.
proof fn lemma_block_kept(s: Seq<LineLayout>)
    requires
        s.len() > 0,
        forall|k: int| 1 <= k < s.len() ==> filler(#[trigger] s[k]),
    ensures
        without_fillers(s) == without_fillers(seq![s[0]]),
{
    let rest = s.skip(1);
    assert(s =~= seq![s[0]] + rest);
    lemma_all_fillers(rest);
    Seq::filter_distributes_over_add(seq![s[0]], rest, |l: LineLayout| !filler(l));
    assert(without_fillers(s) =~= without_fillers(seq![s[0]]) + Seq::<LineLayout>::empty());
}

proof fn lemma_rebuilt_keeps(
    src: Seq<LineLayout>,
    line_h: u16,
    i: int,
    lines: Seq<LineLayout>,
    blocks: Seq<u8>,
)
    requires
        0 <= i <= src.len(),
    ensures
        rebuilt(src, line_h, i, lines, blocks) matches Some((l, b)) ==> without_fillers(l)
            == without_fillers(lines) + without_fillers(src.skip(i)),
    decreases paginate::lines_left(src, i),
{
    let p = |l: LineLayout| !filler(l);
    if i >= src.len() {
        assert(src.skip(i) =~= Seq::<LineLayout>::empty());
        lemma_all_fillers(src.skip(i));
        assert(without_fillers(lines) + Seq::<LineLayout>::empty() =~= without_fillers(lines));
    } else if src[i].image() {
        lemma_filler_run(src, i + 1);
        let old_block = 1 + filler_run(src, i + 1) as int;
        let n = block_at_height(src[i], old_block, line_h);
        if lines.len() + n <= MAX_LINES_PER_CHAPTER {
            let block = src.subrange(i, i + old_block);
            let fresh = image_lines(src[i], n);
            lemma_rebuilt_keeps(src, line_h, i + old_block, lines + fresh, blocks + image_counts(n));
            lemma_block_kept(block);
            lemma_block_kept(fresh);
            assert(seq![block[0]] =~= seq![fresh[0]]);
            assert(src.skip(i) =~= block + src.skip(i + old_block));
            Seq::filter_distributes_over_add(block, src.skip(i + old_block), p);
            Seq::filter_distributes_over_add(lines, fresh, p);
            assert(without_fillers(lines + fresh) + without_fillers(src.skip(i + old_block))
                =~= without_fillers(lines) + without_fillers(src.skip(i)));
        }
    } else {
        lemma_rebuilt_keeps(src, line_h, i + 1, lines.push(src[i]), blocks.push(0));
        let one = seq![src[i]];
        assert(src.skip(i) =~= one + src.skip(i + 1));
        assert(lines.push(src[i]) =~= lines + one);
        Seq::filter_distributes_over_add(one, src.skip(i + 1), p);
        Seq::filter_distributes_over_add(lines, one, p);
        assert(without_fillers(lines + one) + without_fillers(src.skip(i + 1))
            =~= without_fillers(lines) + without_fillers(src.skip(i)));
    }
}

/// Another line height changes no line but image fillers: text lines and image
/// origins stay, in their order.
pub proof fn law_text_survives_repagination(src: Seq<LineLayout>, line_h: u16)
    requires
        at_height(src, line_h) is Some,
    ensures
        without_fillers((at_height(src, line_h)->0).0) == without_fillers(src),
{
    lemma_rebuilt_keeps(src, line_h, 0, Seq::empty(), Seq::empty());
    assert(src.skip(0) =~= src);
    lemma_all_fillers(Seq::empty());
    assert(Seq::<LineLayout>::empty() + without_fillers(src) =~= without_fillers(src));
}

/// A line that is no filler ends every run of fillers before it.
proof fn lemma_run_ends(lines: Seq<LineLayout>, more: Seq<LineLayout>, i: int)
    requires
        0 <= i <= lines.len(),
        more.len() == 0 || !filler(more[0]),
    ensures
        filler_run(lines + more, i) == filler_run(lines, i),
    decreases lines.len() - i,
{
    let all = lines + more;
    if i < lines.len() {
        assert(all[i] == lines[i]);
        lemma_run_ends(lines, more, i + 1);
    } else if more.len() > 0 {
        assert(all[i] == more[0]);
    }
}

proof fn lemma_text_blocks(lines: Seq<LineLayout>, more: Seq<LineLayout>)
    requires
        forall|k: int| 0 <= k < more.len() ==> !(#[trigger] more[k]).image(),
    ensures
        blocks_of(lines + more) == pipeline::zeros_behind(blocks_of(lines), more.len() as int),
{
    let all = lines + more;
    let want = pipeline::zeros_behind(blocks_of(lines), more.len() as int);
    assert forall|i: int| 0 <= i < all.len() implies block_len(all, i) == #[trigger] want[i] by {
        if i < lines.len() {
            lemma_run_ends(lines, more, i + 1);
            assert(all[i] == lines[i]);
            if i > 0 {
                assert(all[i - 1] == lines[i - 1]);
            }
        } else {
            assert(all[i] == more[i - lines.len()]);
        }
    }
    assert(blocks_of(all) =~= want);
}

proof fn lemma_filler_block(lines: Seq<LineLayout>, i: int)
    requires
        0 <= i <= lines.len(),
        forall|k: int| i <= k < lines.len() ==> filler(#[trigger] lines[k]),
    ensures
        filler_run(lines, i) == lines.len() - i,
    decreases lines.len() - i,
{
    if i < lines.len() {
        lemma_filler_block(lines, i + 1);
    }
}

proof fn lemma_image_blocks(
    lines: Seq<LineLayout>,
    meta: ParagraphMeta,
    n: u8,
    reserved: u16,
    pending: bool,
)
    requires
        n >= 1,
        meta.image matches Some(img) && img.end > 0,
    ensures
        blocks_of(lines + convert::image_block(meta, n, reserved, pending))
            == pipeline::zeros_behind(blocks_of(lines).push(n), n - 1),
{
    let block = convert::image_block(meta, n, reserved, pending);
    let all = lines + block;
    let at = lines.len() as int;
    let want = pipeline::zeros_behind(blocks_of(lines).push(n), n - 1);
    assert(!filler(block[0]));
    assert forall|k: int| at + 1 <= k < all.len() implies filler(#[trigger] all[k]) by {
        assert(all[k] == block[k - at]);
    }
    lemma_filler_block(all, at + 1);
    assert forall|i: int| 0 <= i < all.len() implies block_len(all, i) == #[trigger] want[i] by {
        if i < at {
            lemma_run_ends(lines, block, i + 1);
            assert(all[i] == lines[i]);
            if i > 0 {
                assert(all[i - 1] == lines[i - 1]);
            }
        } else if i == at {
            assert(all[i] == block[0]);
            assert(want[i] == n);
        } else {
            assert(filler(all[i]));
            if i - 1 > at {
                assert(filler(all[i - 1]));
            } else {
                assert(all[i - 1] == block[0]);
            }
        }
    }
    assert(blocks_of(all) =~= want);
}

/// A paragraph that ends in an image ends behind the image's record.
proof fn lemma_paragraph_image(
    adv: items::Advance,
    buf: Seq<u8>,
    em_px: u16,
    s: EventState,
    b: ParagraphBuilder,
    its: Seq<Item>,
)
    requires
        0 <= s.pos <= buf.len() <= u32::MAX,
    ensures
        ({
            let (_, meta, after) = items::paragraph(adv, buf, em_px, s, b, its);
            &&& s.pos <= after.pos <= buf.len()
            &&& meta.end_kind == ParagraphEnd::ImageBlock ==> (meta.image matches Some(img)
                && img.end > 0)
        }),
    decreases buf.len() - s.pos,
{
    events::law_events_advance(buf, s);
    let (ev, after) = events::next_event(buf, s);
    if let Some(e) = ev {
        let (more, b2, m) = items::fed(adv, em_px, e, items::word_of(buf, e), b, its);
        if m is None {
            lemma_paragraph_image(adv, buf, em_px, after, b2, more);
        }
    }
}

proof fn lemma_run_blocks<H: ImageHeightHint>(
    k: Setting,
    a: Stop<H>,
    run: Seq<Stop<H>>,
    i: int,
)
    requires
        chapter::is_run(k, a, run),
        a.sheet.blocks == blocks_of(a.sheet.lines),
        0 <= a.st.pos <= k.bytes.len() <= u32::MAX,
        0 <= i < run.len(),
    ensures
        run[i].sheet.blocks == blocks_of(run[i].sheet.lines),
        0 <= run[i].st.pos <= k.bytes.len(),
    decreases i,
{
    if i > 0 {
        lemma_run_blocks(k, a, run, i - 1);
        assert(chapter::step_of_run(k, run, i - 1));
        let st = run[i - 1].st;
        let s0 = run[i - 1].sheet;
        let r: Result<StepOutcome, TypesetError> = Ok(StepOutcome::More);
        let (para, meta, _) = items::paragraph(
            pipeline::by_face(k.adv),
            k.bytes,
            k.em_px,
            st,
            items::builder_at(st),
            Seq::<Item>::empty(),
        );
        let t = choose|t: Told| #[trigger] chapter::sets(k, run[i - 1], t, run[i], r);
        lemma_paragraph_image(
            pipeline::by_face(k.adv),
            k.bytes,
            k.em_px,
            st,
            items::builder_at(st),
            Seq::<Item>::empty(),
        );
        assert(pipeline::padded(s0.blocks, s0.lines.len() as int) =~= s0.blocks);
        if meta.end_kind == ParagraphEnd::ImageBlock {
            let reserved = pipeline::reserved_height(meta.image, k.budget, t.peeked);
            lemma_image_blocks(
                s0.lines,
                meta,
                pipeline::lines_for(reserved, k.budget.line_h) as u8,
                reserved as u16,
                s0.pending,
            );
        } else if para.len() > 0 {
            let more = chapter::lemma_text_appended(
                para,
                meta,
                pipeline::config_for(k.budget, meta).line_width,
                t.choices,
                s0,
            );
            lemma_text_blocks(s0.lines, more);
        }
    }
}

/// The block table of a typeset chapter need not be stored: its line table
/// gives it back.
pub proof fn law_blocks_come_back<H: ImageHeightHint>(
    k: Setting,
    pending: bool,
    before: Counts,
    asking: H,
    sheet: Sheet,
    counts: Counts,
    hint: H,
)
    requires
        k.bytes.len() <= u32::MAX,
        chapter::set_in_turn(k, chapter::start(pending, before, asking), sheet, counts, hint),
    ensures
        blocks_of(sheet.lines) == sheet.blocks,
{
    let a = chapter::start(pending, before, asking);
    let (run, st) = choose|run: Seq<Stop<H>>, st: EventState| #[trigger]
        chapter::ends_at(k, a, run, Stop { st, sheet, counts, hint });
    assert(a.sheet.blocks =~= blocks_of(a.sheet.lines));
    lemma_run_blocks(k, a, run, run.len() - 1);
}

} // verus!
