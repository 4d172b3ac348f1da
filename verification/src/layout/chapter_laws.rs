//! What holds of setting a chapter, paragraph by paragraph and page by page.

use crate::layout::breaker::BreakChoice;
use crate::layout::chapter::{self, Chapter, Setting, Stop};
use crate::layout::convert;
use crate::layout::items::{Item, ParagraphEnd, ParagraphMeta};
use crate::layout::paginate::{self as pg, PageSpacing, PaginateError};
use crate::layout::pipeline::{
    self, Counts, ImageBudget, ImageHeightHint, Sheet, StepOutcome, Told, TypesetError,
};
use crate::layout::scan::ImageRef;
use crate::layout::table::{LineLayout, PageLayout};
use vstd::prelude::*;

verus! {

// ── one paragraph ─────────────────────────────────────────────────

/// Without memory nothing is set, and the chapter ends there. One with more than
/// 4096 lines ends too. Every other paragraph is set, and one without text or
/// image needs no memory.
pub proof fn law_steps_end_as_they_must(
    items: Seq<Item>,
    meta: ParagraphMeta,
    budget: ImageBudget,
    t: Told,
    s: Sheet,
)
    ensures
        ({
            let (z, r) = pipeline::stepped(items, meta, budget, t, s);
            let sets = items.len() > 0 || meta.end_kind == ParagraphEnd::ImageBlock;
            &&& sets && !t.granted ==> z == s && r == Err::<StepOutcome, TypesetError>(
                TypesetError::OutOfMemory,
            )
            &&& sets && t.granted && z.lines.len() > 4096 ==> r == Err::<StepOutcome, TypesetError>(
                TypesetError::LineCapExceeded,
            )
            &&& sets && t.granted && z.lines.len() <= 4096 ==> r is Ok
            &&& !sets ==> r is Ok && z.lines == s.lines && z.blocks == s.blocks
        }),
{
}

/// A page break behind a paragraph is due before the next line, and only there:
/// the first line that is set takes it.
pub proof fn law_page_breaks_are_due_once(
    items: Seq<Item>,
    meta: ParagraphMeta,
    budget: ImageBudget,
    t: Told,
    s: Sheet,
)
    requires
        t.granted,
        pipeline::stepped(items, meta, budget, t, s).1 is Ok,
    ensures
        ({
            let z = pipeline::stepped(items, meta, budget, t, s).0;
            let ends = meta.end_kind == ParagraphEnd::PageBreakAfter;
            &&& ends ==> z.pending
            &&& items.len() == 0 && meta.end_kind != ParagraphEnd::ImageBlock ==> z.pending == (
            s.pending || ends)
            &&& meta.end_kind == ParagraphEnd::ImageBlock ==> !z.pending
            &&& items.len() > 0 && meta.end_kind != ParagraphEnd::ImageBlock && t.choices is Some
                && t.choices->0.len() > 0 ==> z.pending == ends
        }),
{
}

/// Every paragraph is counted, an image once it is set, and a paragraph with
/// text that no breaks were found for as set by first fit.
pub proof fn law_paragraphs_are_counted(
    items: Seq<Item>,
    meta: ParagraphMeta,
    t: Told,
    c: Counts,
)
    requires
        c.paragraphs < u32::MAX,
        c.images < u32::MAX,
        c.fallbacks < u32::MAX,
    ensures
        ({
            let d = pipeline::counted(items, meta, t, c);
            let image = meta.end_kind == ParagraphEnd::ImageBlock;
            &&& d.paragraphs == c.paragraphs + 1
            &&& image && t.granted ==> d.images == c.images + 1
            &&& !image || !t.granted ==> d.images == c.images
            &&& !image && items.len() > 0 && t.choices is None ==> d.fallbacks == c.fallbacks + 1
            &&& image || items.len() == 0 || t.choices is Some ==> d.fallbacks == c.fallbacks
        }),
{
}

/// An image takes its lines: its length stands at the first, and the others are
/// fillers.
pub proof fn law_images_are_placed(s: Sheet, meta: ParagraphMeta, n: u8, reserved: u16)
    requires
        n >= 1,
        s.blocks.len() == s.lines.len(),
    ensures
        ({
            let z = pipeline::with_image(s, meta, n, reserved);
            let at = s.lines.len() as int;
            &&& z.lines.len() == at + n && z.blocks.len() == at + n
            &&& z.lines.take(at) == s.lines && z.blocks.take(at) == s.blocks
            &&& z.lines[at].image() && z.blocks[at] == n
            &&& !z.pending
            &&& forall|k: int|
                at < k < at + n ==> (#[trigger] z.lines[k]).image() && z.lines[k].start_byte == 0
                    && z.lines[k].end_byte == 0 && z.blocks[k] == 0
        }),
{
    let z = pipeline::with_image(s, meta, n, reserved);
    let at = s.lines.len() as int;
    assert(pipeline::padded(s.blocks, at) =~= s.blocks);
    assert(z.lines.take(at) =~= s.lines);
    assert(z.blocks.take(at) =~= s.blocks);
    assert forall|k: int| at < k < at + n implies (#[trigger] z.lines[k]).image()
        && z.lines[k].start_byte == 0 && z.lines[k].end_byte == 0 && z.blocks[k] == 0 by {
        assert(z.lines[k] == convert::image_filler());
    }
}

/// Text takes a line for every break, and none of them is an image block.
pub proof fn law_text_is_placed(
    s: Sheet,
    items: Seq<Item>,
    meta: ParagraphMeta,
    w: u16,
    c: Seq<BreakChoice>,
)
    requires
        s.blocks.len() == s.lines.len(),
    ensures
        ({
            let z = pipeline::with_text(s, items, meta, w, Some(c));
            let at = s.lines.len() as int;
            &&& z.lines.len() == at + c.len() && z.blocks.len() == at + c.len()
            &&& z.lines.take(at) == s.lines
            &&& forall|k: int| at <= k < z.blocks.len() ==> #[trigger] z.blocks[k] == 0
        }),
{
    let z = pipeline::with_text(s, items, meta, w, Some(c));
    assert(z.lines.take(s.lines.len() as int) =~= s.lines);
}

/// A paragraph is broken to the column that its levels leave, with up to 2048
/// items; badness is tolerated up to 200.
pub proof fn law_paragraphs_are_broken_to_their_column(budget: ImageBudget, meta: ParagraphMeta)
    ensures
        ({
            let cfg = pipeline::config_for(budget, meta);
            &&& 24 * meta.block.left < budget.text_w ==> cfg.line_width + 24 * meta.block.left
                == budget.text_w
            &&& 24 * meta.block.left >= budget.text_w ==> cfg.line_width == 0
            &&& cfg.tolerance == 200 && cfg.max_items == 2048 && cfg.line_penalty == 10
            &&& cfg.double_hyphen_demerit == 100 && cfg.adjacent_loose_demerit == 100
            &&& cfg.emergency_stretch == 0
        }),
{
}

/// A hint is asked about an image whose record lacks a dimension, by the image's
/// own path, and about nothing else.
pub proof fn law_hints_are_asked_for_what_is_missing<H: ImageHeightHint>(
    bytes: Seq<u8>,
    meta: ParagraphMeta,
    img: ImageRef,
    a: H,
    peeked: Option<u16>,
    z: H,
)
    requires
        pipeline::heard(bytes, meta, a, peeked, z),
        meta.image == Some(img),
    ensures
        meta.end_kind != ParagraphEnd::ImageBlock || (img.attr_w > 0 && img.attr_h > 0)
            ==> peeked is None && z == a,
        meta.end_kind == ParagraphEnd::ImageBlock && (img.attr_w == 0 || img.attr_h == 0)
            ==> a.answers(pipeline::image_src(bytes, meta.image), peeked, z),
        img.path_start + img.path_len <= bytes.len() ==> pipeline::image_src(bytes, meta.image)
            == bytes.subrange(img.path_start as int, img.path_start + img.path_len),
{
}

// ── the chapter ───────────────────────────────────────────────────

/// A run counts its paragraphs, however each of them came out.
pub proof fn law_runs_count_their_paragraphs<H: ImageHeightHint>(
    k: Setting,
    a: Stop<H>,
    run: Seq<Stop<H>>,
    n: int,
)
    requires
        chapter::is_run(k, a, run),
        0 <= n < run.len(),
        a.counts.paragraphs + n <= u32::MAX,
    ensures
        run[n].counts.paragraphs == a.counts.paragraphs + n,
    decreases n,
{
    if n > 0 {
        law_runs_count_their_paragraphs(k, a, run, n - 1);
        assert(chapter::step_of_run(k, run, n - 1));
    }
}

/// What a run has set stays as it goes on: the lines of any two stops of it
/// begin alike.
pub proof fn law_runs_keep_what_is_set<H: ImageHeightHint>(
    k: Setting,
    a: Stop<H>,
    run: Seq<Stop<H>>,
    i: int,
    j: int,
)
    requires
        chapter::is_run(k, a, run),
        a.sheet.lines.len() == a.sheet.blocks.len(),
        0 <= i <= j < run.len(),
    ensures
        run[i].sheet.lines.is_prefix_of(run[j].sheet.lines),
        run[j].sheet.lines.len() == run[j].sheet.blocks.len(),
    decreases j,
{
    if j > 0 {
        law_runs_keep_what_is_set(
            k,
            a,
            run,
            if i < j {
                i
            } else {
                j - 1
            },
            j - 1,
        );
        assert(chapter::step_of_run(k, run, j - 1));
        let t = choose|t: Told| #[trigger]
            chapter::sets(
                k,
                run[j - 1],
                t,
                run[j],
                Ok::<StepOutcome, TypesetError>(StepOutcome::More),
            );
        let (para, meta, behind) = crate::layout::items::paragraph(
            pipeline::by_face(k.adv),
            k.bytes,
            k.em_px,
            run[j - 1].st,
            crate::layout::items::builder_at(run[j - 1].st),
            Seq::<Item>::empty(),
        );
        chapter::law_step_appends(
            para,
            meta,
            k.budget,
            t,
            run[j - 1].sheet,
            run[j].sheet,
            Ok::<StepOutcome, TypesetError>(StepOutcome::More),
        );
    }
}

/// A chapter without lines has one page with nothing on it; every other one has
/// a page for every line at most.
pub proof fn law_empty_chapters_have_a_page(c: Chapter, max_lines: u8, spacing: PageSpacing)
    requires
        c.paged(max_lines, spacing),
        c.lines@.len() == 0,
    ensures
        c.pages@.len() == 1,
        c.pages@[0].line_count == 0,
        c.pages@[0].first_line == 0,
{
}

/// Pages cannot be made of no lines, of a table without blocks for them, for a
/// page without room, or beyond 512; what is held already counts.
pub proof fn law_pages_are_refused(
    held: int,
    lines: Seq<LineLayout>,
    max_lines: u8,
    blocks: Seq<u8>,
    spacing: PageSpacing,
    room: bool,
)
    requires
        0 <= held,
    ensures
        ({
            let e = pg::paginate_error(held, lines, max_lines, blocks, spacing, room);
            let n = pg::raw_pages(lines, max_lines, blocks, spacing).len();
            let tables = lines.len() > 0 && blocks.len() >= lines.len();
            &&& !tables ==> e == Some(PaginateError::EmptyChapter)
            &&& tables && (max_lines == 0 || !room || held + n > 512) ==> e == Some(
                PaginateError::TooManyPages,
            )
            &&& tables && max_lines > 0 && room && held + n <= 512 ==> e is None
        }),
{
}

/// What is left after pages were refused: those that were held, and no more than
/// 513 in all.
pub proof fn law_refused_pages_leave_those_held(
    held: Seq<PageLayout>,
    lines: Seq<LineLayout>,
    max_lines: u8,
    blocks: Seq<u8>,
    spacing: PageSpacing,
    room: bool,
)
    requires
        pg::paginate_error(held.len() as int, lines, max_lines, blocks, spacing, room) is Some,
        held.len() <= 512,
    ensures
        ({
            let z = pg::paginate_leftover(held, lines, max_lines, blocks, spacing, room);
            &&& z.len() >= held.len()
            &&& z.take(held.len() as int) == held
            &&& z.len() <= 513
            &&& lines.len() == 0 || max_lines == 0 || !room ==> z == held
        }),
{
    let z = pg::paginate_leftover(held, lines, max_lines, blocks, spacing, room);
    assert(z.take(held.len() as int) =~= held);
}

/// An image stands on the page of the text before it while both fit, and else
/// starts the next page.
pub proof fn law_images_share_the_page(
    lines: Seq<LineLayout>,
    max_lines: u8,
    blocks: Seq<u8>,
    spacing: PageSpacing,
    m: int,
    n: int,
)
    requires
        1 <= m <= max_lines,
        2 <= n <= max_lines,
        m + n == lines.len(),
        lines.len() <= blocks.len(),
        forall|k: int| 0 <= k < m ==> !(#[trigger] lines[k]).image(),
        forall|k: int|
            0 <= k <= m ==> (#[trigger] lines[k]).gap() == 0 && !lines[k].page_break_before(),
        lines[m].image(),
        blocks[m] == n,
        max_lines < 128,
        spacing.line_h > 0,
    ensures
        ({
            let pages = pg::raw_pages(lines, max_lines, blocks, spacing);
            &&& m + n <= max_lines ==> pages.len() == 1 && pages[0].line_count == m + n
            &&& m + n > max_lines ==> pages.len() == 2 && pages[0].line_count == m
                && pages[1].first_line == m && pages[1].line_count == n
        }),
{
    let cap = max_lines as int;
    crate::layout::page_laws::law_gaps_are_quarters_of_a_line(0, spacing.em_px, spacing.line_h);
    assert(spacing.gap(0) == 0);
    lemma_text_then(lines, blocks, cap, spacing, m, 0);
    reveal_with_fuel(pg::fill_page, 3);
    reveal_with_fuel(pg::pages_from, 4);
    assert(pg::block_at(lines, blocks, m) == n);
    assert(pg::pages_from(lines, blocks, cap, spacing, lines.len() as int) =~= Seq::empty());
    if m + n <= cap {
        assert(pg::fill_page(lines, blocks, cap, spacing, m, m, 4 * m) == (m + n, m + n));
    } else {
        assert(pg::fill_page(lines, blocks, cap, spacing, m, m, 4 * m) == (m, m));
        assert(pg::fill_page(lines, blocks, cap, spacing, m, 0, 0) == (n, m + n));
    }
}

proof fn lemma_text_then(
    lines: Seq<LineLayout>,
    blocks: Seq<u8>,
    cap: int,
    spacing: PageSpacing,
    m: int,
    i: int,
)
    requires
        0 <= i <= m <= cap,
        m < lines.len(),
        spacing.gap(0) == 0,
        forall|k: int| 0 <= k < m ==> !(#[trigger] lines[k]).image(),
        forall|k: int|
            0 <= k <= m ==> (#[trigger] lines[k]).gap() == 0 && !lines[k].page_break_before(),
    ensures
        pg::fill_page(lines, blocks, cap, spacing, i, i, 4 * i) == pg::fill_page(
            lines,
            blocks,
            cap,
            spacing,
            m,
            m,
            4 * m,
        ),
    decreases m - i,
{
    if i < m {
        assert(!lines[i].image());
        assert(lines[i].gap() == 0);
        lemma_text_then(lines, blocks, cap, spacing, m, i + 1);
    }
}

/// A chapter that is refused for its length has a paragraph that takes it beyond
/// 4096 lines, and one that is refused for memory has one that could not be set:
/// what was set before it stays.
pub proof fn law_refused_chapters_have_their_reason<H: ImageHeightHint>(
    k: Setting,
    a: Stop<H>,
    run: Seq<Stop<H>>,
    z: Stop<H>,
    e: TypesetError,
)
    requires
        chapter::stopped(k, a, run, z, e),
    ensures
        e == TypesetError::LineCapExceeded ==> z.sheet.lines.len() > 4096,
        e == TypesetError::OutOfMemory ==> z.sheet == run.last().sheet,
        e != TypesetError::EmptyChapter,
{
}

/// Pages that are made stand behind those that are held, which keep their number;
/// where they are refused the held ones stay.
pub proof fn law_pages_stand_behind_those_held(
    held: Seq<PageLayout>,
    lines: Seq<LineLayout>,
    max_lines: u8,
    blocks: Seq<u8>,
    spacing: PageSpacing,
    room: bool,
    r: Result<(), PaginateError>,
    after: Seq<PageLayout>,
)
    requires
        pg::paginates(held, lines, max_lines, blocks, spacing, room, r, after),
    ensures
        r is Ok ==> after.len() == held.len() + pg::raw_pages(
            lines,
            max_lines,
            blocks,
            spacing,
        ).len() && after.len() <= 512,
        r is Ok ==> lines.len() > 0 && max_lines > 0 && room,
        r is Err && held.len() <= 512 ==> after.len() >= held.len(),
        held.len() == 0 && r is Ok ==> after == pg::chapter_pages(
            lines,
            max_lines,
            blocks,
            spacing,
        ),
{
    let raw = pg::raw_pages(lines, max_lines, blocks, spacing);
    let all = held + raw;
    lemma_settled_len(lines, blocks, max_lines, spacing, all, all.len() as int);
    if held.len() == 0 {
        assert(all =~= raw);
    }
}

proof fn lemma_settled_len(
    lines: Seq<LineLayout>,
    blocks: Seq<u8>,
    max_lines: u8,
    spacing: PageSpacing,
    pages: Seq<PageLayout>,
    p: int,
)
    requires
        p <= pages.len(),
    ensures
        pg::settled(lines, blocks, max_lines, spacing, pages, p).len() == pages.len(),
    decreases p,
{
    if p > 1 {
        lemma_settled_len(lines, blocks, max_lines, spacing, pages, p - 1);
    }
}

} // verus!
