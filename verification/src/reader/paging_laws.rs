//! What holds of pages and where they start, whatever text they show.

use vstd::prelude::*;

use crate::layout::table::{LineLayout, PageLayout};
use crate::reader::index::{self, PageIndex, TextSource};
use crate::reader::loading::{self, ByteWindow, TypesetEnd, TypesetNext, WindowAsk};
use crate::reader::paging::{self, Ahead, AheadSource, IndexWork, LoadWork, PageLoad, Preindex};
use crate::reader::span::{self, LineSpan};

verus! {

// ── the index of pages ───────────────────────────────────────────

/// A page table gives its page starts, 512 at most. Without a page the text
/// keeps its first one.
pub proof fn law_tables_give_their_starts(before: Seq<u32>, pages: Seq<PageLayout>)
    requires
        before.len() >= 1,
    ensures
        pages.len() == 0 ==> index::adopted(before, pages).len() == 1 && index::adopted(
            before,
            pages,
        )[0] == before[0],
        0 < pages.len() <= 512 ==> index::adopted(before, pages).len() == pages.len(),
        pages.len() > 512 ==> index::adopted(before, pages).len() == 512,
        forall|k: int|
            0 <= k < pages.len() && k < 512 ==> #[trigger] index::adopted(before, pages)[k]
                == pages[k].start_byte,
{
}

/// The page behind the last known one starts where that one ends, if it is
/// full and text is left. If not, all pages are known; so they are at 512.
/// Nothing is learnt from a page that others are known behind.
pub proof fn law_full_pages_lead_on(
    offsets: Seq<u32>,
    page: int,
    next: int,
    full: bool,
    size: u32,
)
    requires
        0 <= page < offsets.len() <= 512,
        0 <= next <= u32::MAX,
    ensures
        ({
            let (after, done) = index::grown(offsets, page, false, next, full, size);
            let last = page + 1 == offsets.len();
            &&& !last ==> after == offsets && !done
            &&& last && full && next < size && offsets.len() < 512 ==> !done && after.len()
                == offsets.len() + 1 && after.last() == next && after.drop_last() == offsets
            &&& last && !(full && next < size && offsets.len() < 512) ==> done && after == offsets
        }),
        index::grown(offsets, page, true, next, full, size) == (offsets, true),
{
    assert(offsets.push(next as u32).drop_last() =~= offsets);
}

/// Page by page the search for a byte goes on as long as the next page starts
/// at it or before; where it stops, the page is the one that holds it.
pub proof fn law_searches_stop_at_the_byte(p: PageIndex, target: u32)
    requires
        p.wf(),
        p.offsets@[p.page as int] <= target,
    ensures
        ({
            let (q, more) = p.scanned_on(target);
            &&& q.wf() && q.offsets == p.offsets && q.fully_indexed == p.fully_indexed
            &&& more ==> q.page == p.page + 1
            &&& !more ==> q.page == p.page
            &&& q.offsets@[q.page as int] <= target
            &&& !more && p.page + 1 < p.offsets@.len() ==> target < p.offsets@[p.page + 1]
            &&& more ==> p.page + 1 < p.offsets@.len()
        }),
{
}

/// The search for the end shows the last known page, and goes on until all
/// pages are known or there are 512.
pub proof fn law_searches_for_the_end(p: PageIndex)
    requires
        p.wf(),
    ensures
        p.scanned_to_end().0.page + 1 == p.offsets@.len(),
        p.scanned_to_end().0.offsets == p.offsets,
        p.scanned_to_end().1 <==> !p.fully_indexed && p.offsets@.len() < 512,
{
}

/// First fit starts a page where the one before ended, until a page is not
/// full, the text has ended or there are 512 pages; then all are known.
pub proof fn law_first_fit_goes_on_where_it_ended(
    offsets: Seq<u32>,
    fully: bool,
    offset: int,
    consumed: int,
    full: bool,
    total: int,
)
    requires
        0 <= offset,
        0 <= consumed,
        offset + consumed <= u32::MAX,
    ensures
        ({
            let next = index::first_fit_next(offsets.len() as int, offset, consumed, full, total);
            let (after, done) = index::first_fit_noted(offsets, fully, next);
            &&& next is Some <==> full && offset + consumed < total && offsets.len() < 512
            &&& next is Some ==> after.len() == offsets.len() + 1 && after.last() == offset
                + consumed && next == Some((offset + consumed) as usize) && done == fully
            &&& next is None ==> after == offsets && done
        }),
{
}

/// What is read ahead is the page behind the one shown, if it is known.
pub proof fn law_the_page_ahead(p: PageIndex)
    requires
        p.wf(),
    ensures
        p.page_ahead() is None <==> p.page + 1 == p.offsets@.len(),
        p.page_ahead() matches Some((n, at)) ==> n == p.page + 1 && at == p.offsets@[n as int],
{
}

// ── where text comes from ────────────────────────────────────────

/// A chapter in memory is read from there, from the page's start on and never
/// past its end, 8192 bytes at most.
pub proof fn law_memory_comes_first(
    at: u32,
    chapter_len: usize,
    prefetched: bool,
    base: Option<u32>,
    size: u32,
)
    requires
        chapter_len > 0,
    ensures
        index::text_source(at, chapter_len as int, prefetched, base, size) matches
            TextSource::Chapter { start, len } && start + len <= chapter_len && len <= 8192 && (at
            <= chapter_len ==> start == at) && (at > chapter_len ==> len == 0) && (at
            <= chapter_len && len < 8192 ==> start + len == chapter_len),
{
}

/// Without it, what was read ahead comes before the bundle, and that before the
/// file, which is read from its head as long as its size is not known.
pub proof fn law_then_what_is_nearest(at: u32, base: u32, size: u32)
    requires
        base + at <= u32::MAX,
    ensures
        index::text_source(at, 0, true, Some(base), size) == TextSource::Prefetched,
        index::text_source(at, 0, true, None, size) == TextSource::Prefetched,
        index::text_source(at, 0, false, Some(base), size) == (TextSource::Bundle {
            at: (base + at) as u32,
        }),
        index::text_source(at, 0, false, None, 0) == TextSource::FileStart,
        size > 0 ==> index::text_source(at, 0, false, None, size) == (TextSource::File { at }),
{
}

/// A page's bytes lie within its chapter and start where the page does; all of
/// them are taken up to 8192.
pub proof fn law_pages_hold_their_bytes(p: PageLayout, ch_len: int)
    requires
        0 <= ch_len,
        p.start_byte <= p.end_byte,
    ensures
        ({
            let (start, n) = loading::page_bytes(p, ch_len);
            &&& 0 <= start && 0 <= n && start + n <= ch_len && n <= 8192
            &&& p.end_byte <= ch_len ==> start == p.start_byte && (n == p.end_byte - p.start_byte
                || n == 8192)
            &&& p.start_byte >= ch_len ==> n == 0
        }),
{
}

/// A page shows its own lines in their order, 37 at most.
pub proof fn law_pages_show_their_lines(lines: Seq<LineLayout>, p: PageLayout, k: int)
    requires
        p.first_line + p.line_count <= lines.len(),
        p.line_count <= 37,
        0 <= k < p.line_count,
    ensures
        loading::page_lines(lines, p).len() == p.line_count,
        loading::page_lines(lines, p)[k] == lines[p.first_line + k],
        loading::page_spans(lines, p, 8192).len() == p.line_count,
{
}

/// A line keeps its bytes where it is shown: they start as far behind the page's
/// first byte as they do in the chapter, and are as many.
pub proof fn law_lines_keep_their_bytes(ll: LineLayout, page_start: u32, n: u32)
    requires
        n <= 8192,
        page_start <= ll.start_byte <= ll.end_byte,
        ll.end_byte <= page_start + n,
    ensures
        span::span_of(ll, page_start, n).start == ll.start_byte - page_start,
        span::span_of(ll, page_start, n).len == ll.end_byte - ll.start_byte,
{
}

/// The bits of a line's flags: bold, italic, heading, image, how it ended and
/// its tier, from the lowest on.
#[verifier::rlimit(60)]
pub proof fn law_line_flags_have_their_bits(ll: LineLayout)
    ensures
        ({
            let f = span::span_flags(ll);
            &&& 0 <= f < 256
            &&& f % 2 == ll.flags % 2
            &&& f / 2 % 2 == ll.flags / 2 % 2
            &&& f / 4 % 2 == 1 <==> ll.heading()
            &&& f / 8 % 2 == 1 <==> ll.image()
            &&& ll.paragraph_end() ==> f / 16 % 4 == 1
            &&& !ll.paragraph_end() ==> f / 16 % 4 == 2
            &&& ll.heading() ==> f / 64 == ll.flags / 64
            &&& !ll.heading() ==> f / 64 == 0
        }),
{
    let a = (ll.flags % 4) as int;
    let h = if ll.heading() {
        1int
    } else {
        0
    };
    let i = if ll.image() {
        1int
    } else {
        0
    };
    let e = if ll.paragraph_end() {
        1int
    } else {
        2
    };
    let t = if ll.heading() {
        (ll.flags / 64) as int
    } else {
        0
    };
    let f = span::span_flags(ll);
    assert(f == a + 4 * h + 8 * i + 16 * e + 64 * t);
    lemma_places(a, h, i, e, t);
    lemma_low_bits(f, ll.flags as int);
}

proof fn lemma_low_bits(x: int, y: int)
    requires
        x % 4 == y % 4,
    ensures
        x % 2 == y % 2,
        x / 2 % 2 == y / 2 % 2,
{
}

proof fn lemma_places(a: int, h: int, i: int, e: int, t: int)
    requires
        0 <= a < 4,
        0 <= h < 2,
        0 <= i < 2,
        0 <= e < 4,
        0 <= t < 4,
    ensures
        ({
            let f = a + 4 * h + 8 * i + 16 * e + 64 * t;
            &&& 0 <= f < 256
            &&& f % 4 == a
            &&& f / 4 % 2 == h
            &&& f / 8 % 2 == i
            &&& f / 16 % 4 == e
            &&& f / 64 == t
        }),
{
    let f = a + 4 * h + 8 * i + 16 * e + 64 * t;
    assert(f / 4 == h + 2 * i + 4 * e + 16 * t);
    assert(f / 8 == i + 2 * e + 8 * t);
    assert(f / 16 == e + 4 * t);
}

/// The tier bits stand for h1, h2, h3 and the rest; text that is no heading has
/// none.
pub proof fn law_tiers(s: LineSpan)
    ensures
        s.flags / 4 % 2 == 0 ==> s.heading_level() == 0,
        s.flags / 4 % 2 == 1 && s.flags / 64 == 2 ==> s.heading_level() == 1,
        s.flags / 4 % 2 == 1 && s.flags / 64 == 1 ==> s.heading_level() == 2,
        s.flags / 4 % 2 == 1 && s.flags / 64 == 0 ==> s.heading_level() == 3,
        s.flags / 4 % 2 == 1 && s.flags / 64 == 3 ==> s.heading_level() == 4,
{
}

/// A byte in the window costs no read, and one behind the text none. For any
/// other the part of 4096 bytes that it lies in is read, or what there is of
/// it, from a multiple of 4096 on.
pub proof fn law_windows_read_whole_parts(w: ByteWindow, pos: u32)
    requires
        w.wf(),
    ensures
        w.offset <= pos < w.offset + w.bytes@.len() ==> w.asked(pos) == WindowAsk::Inside,
        pos >= w.total_len ==> w.asked(pos) == WindowAsk::Beyond,
        pos < w.total_len && !(w.offset <= pos < w.offset + w.bytes@.len()) ==> (w.asked(
            pos,
        ) matches WindowAsk::Read { at, len } && at % 4096 == 0 && at <= pos < at + 4096 && len
            <= 4096 && at + len <= w.total_len && (len < 4096 ==> at + len == w.total_len)),
{
    let at = (pos / 4096) * 4096;
    assert(at % 4096 == 0 && at <= pos < at + 4096);
}

// ── indexing a chapter ───────────────────────────────────────────

/// A stored layout is used as far as it goes: with lines and pages as it is,
/// with lines alone paged anew, and without lines not at all.
pub proof fn law_stored_layouts_are_used(lines: usize, pages: usize)
    ensures
        paging::stored_work(None) == (IndexWork::Typeset { shed: false }),
        paging::stored_work(Some((0, pages))) == (IndexWork::Typeset { shed: false }),
        lines > 0 ==> paging::stored_work(Some((lines, 0))) == IndexWork::Repaginate,
        lines > 0 && pages > 0 ==> paging::stored_work(Some((lines, pages))) == IndexWork::Adopt,
{
}

/// A layout that was taken over ends the work and the waiting; one that was not
/// is typeset.
pub proof fn law_taken_over_or_typeset(p: Preindex)
    ensures
        paging::adopt_work(p, true).1 == IndexWork::Indexed,
        paging::adopt_work(p, true).0.waits == 0,
        paging::adopt_work(p, false) == (p, IndexWork::Typeset { shed: false }),
{
}

/// A chapter that does not fit in memory waits for a running decode, sixteen
/// times at most, then gives up its text if it has any, and only then falls to
/// first fit. What failed otherwise falls to first fit at once.
pub proof fn law_typesetting_gives_up_last(waits: u8, decoding: bool, cached: bool, second: bool)
    ensures
        loading::after_typeset(TypesetEnd::Done, waits, decoding, cached, second) == (
            TypesetNext::Keep,
            0u8,
        ),
        loading::after_typeset(TypesetEnd::Failed, waits, decoding, cached, second) == (
            TypesetNext::Greedy,
            0u8,
        ),
        loading::after_typeset(TypesetEnd::OutOfMemory, waits, decoding, cached, true) == (
            TypesetNext::Greedy,
            0u8,
        ),
        waits < 16 ==> loading::after_typeset(
            TypesetEnd::OutOfMemory,
            waits,
            true,
            cached,
            false,
        ) == (TypesetNext::RetryLater, (waits + 1) as u8),
        waits >= 16 || !decoding ==> loading::after_typeset(
            TypesetEnd::OutOfMemory,
            waits,
            decoding,
            true,
            false,
        ) == (TypesetNext::ShedAndRetry, waits),
        waits >= 16 || !decoding ==> loading::after_typeset(
            TypesetEnd::OutOfMemory,
            waits,
            decoding,
            false,
            false,
        ) == (TypesetNext::Greedy, 0u8),
{
}

/// Each way out of typesetting has its work; the text is given up once, and the
/// chapter remembers it.
pub proof fn law_typesetting_leads_to_its_work(p: Preindex, decoding: bool, cached: bool)
    ensures
        paging::typeset_work(p, TypesetEnd::Done, decoding, cached) == (
            Preindex { waits: 0, shed: p.shed },
            IndexWork::Store,
        ),
        paging::typeset_work(p, TypesetEnd::Failed, decoding, cached) == (
            Preindex { waits: 0, shed: p.shed },
            IndexWork::Greedy,
        ),
        p.shed ==> paging::typeset_work(p, TypesetEnd::OutOfMemory, decoding, cached).1
            == IndexWork::Greedy,
        !p.shed && p.waits < 16 ==> paging::typeset_work(p, TypesetEnd::OutOfMemory, true, cached)
            == (Preindex { waits: (p.waits + 1) as u8, shed: false }, IndexWork::RetryLater),
        !p.shed && !decoding ==> paging::typeset_work(p, TypesetEnd::OutOfMemory, false, true) == (
            Preindex { waits: p.waits, shed: true },
            IndexWork::Typeset { shed: true },
        ),
{
}

// ── loading a page ───────────────────────────────────────────────

/// A read that failed ends the load with its error. An empty file has no lines;
/// every other text is looked through for images and wrapped, all that was read
/// of it. The size of a file is learnt at its head and kept otherwise.
pub proof fn law_reads_are_wrapped(p: PageLoad, n: usize, size: u32, e: u16)
    ensures
        paging::read_work(p, Err(e)) == (p, LoadWork::Failed(e)),
        paging::read_work(p, Ok((n, size))).0.len == n,
        p.source == TextSource::FileStart && size == 0 ==> paging::read_work(p, Ok((n, size))).1
            == LoadWork::Empty,
        p.source != TextSource::FileStart || size > 0 ==> paging::read_work(p, Ok((n, size))).1
            == (LoadWork::Prescan { len: n }),
        p.source == TextSource::FileStart ==> paging::read_work(p, Ok((n, size))).0.file_size
            == size,
        p.source != TextSource::FileStart ==> paging::read_work(p, Ok((n, size))).0.file_size
            == p.file_size,
{
}

/// A chapter in memory needs nothing read ahead. For any other text the next
/// page is, from the bundle or the file; behind the last known page nothing
/// stays read ahead.
pub proof fn law_the_next_page_is_read_ahead(p: PageLoad, offsets: Seq<u32>, page: int)
    requires
        0 <= page < offsets.len() <= 512,
        p.bundle_base matches Some(b) ==> page + 1 < offsets.len() ==> b + offsets[page + 1]
            <= u32::MAX,
    ensures
        p.source is Chapter ==> paging::ahead_work(p, offsets, page) == (p, LoadWork::Decode),
        !(p.source is Chapter) && page + 1 == offsets.len() ==> {
            let (q, w) = paging::ahead_work(p, offsets, page);
            w == LoadWork::Decode && q.ahead.page is None && q.ahead.len == 0
        },
        !(p.source is Chapter) && page + 1 < offsets.len() ==> (paging::ahead_work(
            p,
            offsets,
            page,
        ).1 matches LoadWork::ReadAhead { page: next, from } && next == page + 1 && match from {
            AheadSource::Bundle { at } => p.bundle_base is Some && at == p.bundle_base->0
                + offsets[page + 1],
            AheadSource::File { at } => p.bundle_base is None && at == offsets[page + 1],
        }),
{
}

/// What was read ahead is kept while another text is read from the card, and
/// is gone once it was used or the chapter is in memory.
pub proof fn law_read_ahead_is_used_once(ahead: Ahead, at: u32, start: usize, len: usize)
    ensures
        paging::ahead_behind(TextSource::Prefetched, ahead).page is None,
        paging::ahead_behind(TextSource::Chapter { start, len }, ahead).page is None,
        paging::ahead_behind(TextSource::Bundle { at }, ahead) == ahead,
        paging::ahead_behind(TextSource::FileStart, ahead) == ahead,
        paging::ahead_behind(TextSource::File { at }, ahead) == ahead,
{
}

/// The style that a line starts in is told by its bits: bold, italic and the
/// heading's tier in its flags, underline and strike-through beside its alignment.
/// A record and the line on screen tell it alike.
pub proof fn law_start_styles_have_their_bits(s: LineSpan, l: LineLayout)
    ensures
        s.spec_start_style().bold == (s.flags % 2 == 1),
        s.spec_start_style().italic == (s.flags / 2 % 2 == 1),
        s.spec_start_style().underline == (s.align / 4 % 2 == 1),
        s.spec_start_style().strike == (s.align / 8 % 2 == 1),
        s.flags / 4 % 2 == 0 ==> s.spec_start_style().heading == 0,
        s.flags / 4 % 2 == 1 ==> s.spec_start_style().heading == (if s.flags / 64 == 2 {
            1int
        } else if s.flags / 64 == 1 {
            2
        } else if s.flags / 64 == 0 {
            3
        } else {
            4
        }),
        l.spec_start_style().bold == (l.flags % 2 == 1),
        l.spec_start_style().italic == (l.flags / 2 % 2 == 1),
        l.spec_start_style().underline == (l.align / 4 % 2 == 1),
        l.spec_start_style().strike == (l.align / 8 % 2 == 1),
        l.flags / 4 % 2 == 0 ==> l.spec_start_style().heading == 0,
        l.flags / 4 % 2 == 1 ==> l.spec_start_style().heading == (if l.flags / 64 == 2 {
            1int
        } else if l.flags / 64 == 1 {
            2
        } else if l.flags / 64 == 0 {
            3
        } else {
            4
        }),
{
}

} // verus!
