//! What progress, reading time and the loading screen are for.

use crate::book_record::{BookRecord, Position};
use crate::reader::persist;
use crate::reader::persist::ReadingLog;
use crate::reader::progress;
use crate::reader::screen;
use crate::reader::state::{
    BgCacheState, Loading, LoadingReason, Paint, PendingPositionChange, ReaderApp, State,
};
use vstd::prelude::*;

verus! {

// ── progress ──────────────────────────────────────────────────────

/// A book that was read to its last page is read in full: the last page of a
/// text, or of the last chapter, once all its pages are known. So is a text
/// without bytes.
pub proof fn law_the_last_page_is_all(a: ReaderApp)
    requires
        a.wf(),
    ensures
        a.pg.fully_indexed && a.pg.page + 1 == a.pg.offsets@.len() && (!a.book.is_epub || a.chapter
            + 1 >= a.book.spine_len) ==> progress::progress(a) == 100,
        !a.book.is_epub && a.book.file_size == 0 ==> progress::progress(a) == 100,
{
}

/// Before its last page the progress of a text is the part of its bytes before
/// the page shown, in whole percent.
pub proof fn law_progress_of_a_text_goes_by_bytes(a: ReaderApp)
    requires
        a.wf(),
        !a.book.is_epub,
        a.book.file_size > 0,
        !a.pg.fully_indexed || a.pg.page + 1 < a.pg.offsets@.len(),
        a.pg.offsets@[a.pg.page as int] < a.book.file_size,
    ensures
        ({
            let p = progress::progress(a);
            let at = a.pg.offsets@[a.pg.page as int];
            0 <= p < 100 && p * a.book.file_size <= at * 100 < (p + 1) * a.book.file_size
        }),
{
    let at = a.pg.offsets@[a.pg.page as int] as int;
    let size = a.book.file_size as int;
    let q = at * 100 / size;
    assert(q * size <= at * 100 < (q + 1) * size && 0 <= q < 100) by (nonlinear_arith)
        requires
            q == at * 100 / size,
            0 <= at < size,
    ;
}

/// In a book every chapter counts alike: the progress in a chapter lies between
/// the chapters before it and those up to it, and grows with the page's place in
/// it. The book starts at nothing.
pub proof fn law_chapters_count_alike(a: ReaderApp)
    requires
        a.wf(),
        a.book.is_epub,
        (a.chapter as int) < a.book.spine_len,
        !a.pg.fully_indexed || a.pg.page + 1 < a.pg.offsets@.len() || a.chapter + 1
            < a.book.spine_len,
    ensures
        ({
            let p = progress::progress(a);
            let n = a.book.spine_len as int;
            &&& a.chapter * 100 < (p + 1) * n
            &&& p * n <= (a.chapter + 1) * 100
            &&& a.pg.offsets@[a.pg.page as int] == 0 ==> p * n <= a.chapter * 100
            &&& a.chapter == 0 && a.pg.offsets@[a.pg.page as int] == 0 ==> p == 0
            &&& a.book.file_size > 0 && a.pg.offsets@[a.pg.page as int] >= a.book.file_size ==> (
            a.chapter + 1) * 100 < (p + 1) * n
        }),
{
    let n = a.book.spine_len as int;
    let at = a.pg.offsets@[a.pg.page as int] as int;
    let size = a.book.file_size as int;
    let part = if size == 0 {
        0
    } else {
        progress::percent(at, size)
    };
    if size > 0 {
        let q = at * 100 / size;
        assert(q >= 0 && (at == 0 ==> q == 0) && (at >= size ==> q >= 100)) by (nonlinear_arith)
            requires
                q == at * 100 / size,
                0 <= at,
                0 < size,
        ;
    }
    let t = a.chapter * 100 + part;
    let q = t / n;
    assert(q * n <= t < (q + 1) * n && 0 <= q <= 100) by (nonlinear_arith)
        requires
            q == t / n,
            0 <= t <= 100 * n,
            n > 0,
    ;
}

proof fn lemma_sum_moves(pages: Seq<u16>, more: Seq<u16>, ch: int, n: int)
    requires
        0 <= ch < pages.len() == more.len(),
        0 <= n <= pages.len(),
        more[ch] == pages[ch] + 1,
        forall|i: int| 0 <= i < pages.len() && i != ch ==> more[i] == pages[i],
    ensures
        progress::pages_before(more, n) == progress::pages_before(pages, n) + (if ch < n {
            1int
        } else {
            0
        }),
    decreases n,
{
    if n > 0 {
        lemma_sum_moves(pages, more, ch, n - 1);
    }
}

proof fn lemma_sum_bounds(pages: Seq<u16>, lo: int, n: int)
    requires
        0 <= lo <= n <= pages.len(),
    ensures
        0 <= progress::pages_before(pages, lo) <= progress::pages_before(pages, n) <= 65535 * n,
    decreases n,
{
    if lo < n {
        lemma_sum_bounds(pages, lo, n - 1);
    } else if n > 0 {
        lemma_sum_bounds(pages, n - 1, n - 1);
    }
}

/// The page of the book counts from one: the first page of the first chapter is
/// page one, a page on is one more, and the first page of the next chapter is as
/// many pages on as the chapter has. The last page of the last chapter is the
/// last of the book.
pub proof fn law_book_pages_count_on(a: ReaderApp, b: ReaderApp)
    requires
        a.wf(),
        a.book.is_epub,
        0 < a.book.spine_len,
        (a.chapter as int) < a.book.spine_len,
        forall|i: int| 0 <= i < a.book.spine_len ==> (#[trigger] a.contents.pages@[i]) > 0,
        b.book == a.book,
        b.contents == a.contents,
    ensures
        progress::book_place(a) matches Some((at, all)) && {
            &&& a.chapter == 0 ==> at == a.pg.page + 1
            &&& a.chapter + 1 == a.book.spine_len && a.pg.page + 1
                == a.contents.pages@[a.chapter as int] ==> at == all
            &&& b.chapter == a.chapter && b.pg.page == a.pg.page + 1 ==> progress::book_place(b)
                == Some(((at + 1) as u32, all))
            &&& b.chapter == a.chapter + 1 && b.pg.page == a.pg.page && (b.chapter as int)
                < a.book.spine_len ==> progress::book_place(b) == Some(
                ((at + a.contents.pages@[a.chapter as int]) as u32, all),
            )
        },
{
    let pages = a.contents.pages@;
    let n = a.book.spine_len as int;
    lemma_sum_bounds(pages, a.chapter as int, n);
    lemma_sum_bounds(pages, a.chapter + 1, n);
}

/// One more page in any chapter is one more page of the book, and the page shown
/// is one further on if the chapter is before the open one.
pub proof fn law_book_pages_add_up(a: ReaderApp, b: ReaderApp, ch: int)
    requires
        a.wf(),
        b.wf(),
        a.book.is_epub,
        b.book == a.book,
        b.pg == a.pg,
        b.chapter == a.chapter,
        0 <= ch < a.book.spine_len,
        (a.chapter as int) < a.book.spine_len,
        b.contents.pages@[ch] == a.contents.pages@[ch] + 1,
        forall|i: int|
            0 <= i < a.contents.pages@.len() && i != ch ==> b.contents.pages@[i]
                == a.contents.pages@[i],
        forall|i: int| 0 <= i < a.book.spine_len ==> (#[trigger] a.contents.pages@[i]) > 0,
    ensures
        progress::book_place(a) matches Some((at, all)) && progress::book_place(b) == Some(
            (
                (if ch < a.chapter {
                    at + 1
                } else {
                    at as int
                }) as u32,
                (all + 1) as u32,
            ),
        ),
{
    let pages = a.contents.pages@;
    let n = a.book.spine_len as int;
    lemma_sum_bounds(pages, a.chapter as int, n);
    lemma_sum_moves(pages, b.contents.pages@, ch, n);
    lemma_sum_moves(pages, b.contents.pages@, ch, a.chapter as int);
    assert forall|i: int| 0 <= i < b.book.spine_len implies (#[trigger] b.contents.pages@[i])
        > 0 by {
        assert(a.contents.pages@[i] > 0);
    }
}

/// The place in the book is told only once every chapter was laid out.
pub proof fn law_book_pages_wait_for_all_chapters(a: ReaderApp, ch: int)
    requires
        0 <= ch < a.book.spine_len,
        a.contents.pages@[ch] == 0,
    ensures
        progress::book_place(a) is None,
{
    assert(!(a.contents.pages@[ch] > 0));
}

proof fn lemma_count(done: Seq<bool>, n: int)
    requires
        0 <= n <= done.len(),
    ensures
        0 <= progress::count_set(done, n) <= n,
        (forall|i: int| 0 <= i < n ==> #[trigger] done[i]) ==> progress::count_set(done, n) == n,
        (forall|i: int| 0 <= i < n ==> !(#[trigger] done[i])) ==> progress::count_set(done, n) == 0,
        (exists|i: int| 0 <= i < n && !(#[trigger] done[i])) ==> progress::count_set(done, n) < n,
    decreases n,
{
    if n > 0 {
        lemma_count(done, n - 1);
    }
}

proof fn lemma_count_one_more(done: Seq<bool>, ch: int, n: int)
    requires
        0 <= ch < done.len(),
        0 <= n <= done.len(),
        !done[ch],
    ensures
        progress::count_set(done.update(ch, true), n) == progress::count_set(done, n) + (if ch < n {
            1int
        } else {
            0
        }),
    decreases n,
{
    if n > 0 {
        lemma_count_one_more(done, ch, n - 1);
    }
}

/// Cached chapters are counted: none, all, and one more for each that is added.
pub proof fn law_cached_chapters_are_counted(a: ReaderApp, b: ReaderApp, ch: int)
    requires
        a.wf(),
        0 <= ch < a.book.spine_len,
        b.book == a.book,
        !a.cache.done@[ch],
        b.cache.done@ == a.cache.done@.update(ch, true),
    ensures
        progress::cached_chapters(b) == progress::cached_chapters(a) + 1,
        (forall|i: int| 0 <= i < a.book.spine_len ==> !(#[trigger] a.cache.done@[i]))
            ==> progress::cached_chapters(a) == 0,
        (forall|i: int| 0 <= i < a.book.spine_len ==> #[trigger] b.cache.done@[i])
            ==> progress::cached_chapters(b) == a.book.spine_len,
{
    let n = a.book.spine_len as int;
    lemma_count_one_more(a.cache.done@, ch, n);
    lemma_count(a.cache.done@, n);
    lemma_count(b.cache.done@, n);
}

/// Caching is at nothing before the first chapter, below eighty percent while
/// chapters are missing, and from eighty on while images are; with every image
/// it is complete.
pub proof fn law_caching_progress(a: ReaderApp)
    requires
        a.wf(),
        0 < a.book.spine_len,
    ensures
        ({
            let n = a.book.spine_len as int;
            let p = progress::cache_pct(a);
            let chapters = a.cache.bg == BgCacheState::CacheChapter || a.cache.bg
                == BgCacheState::WaitNearbyImage;
            let missing = exists|i: int| 0 <= i < n && !(#[trigger] a.cache.done@[i]);
            &&& chapters && missing ==> p < 80 && p * n <= 80 * progress::cached_chapters(a) < (p
                + 1) * n
            &&& chapters && (forall|i: int| 0 <= i < n ==> !(#[trigger] a.cache.done@[i])) ==> p
                == 0
            &&& !chapters || !missing ==> 80 <= p <= 100
            &&& (!chapters || !missing) && a.cache.img_found > 0 && a.cache.img_cached
                >= a.cache.img_found ==> p == 100
            &&& (!chapters || !missing) && (a.cache.img_found == 0 || a.cache.img_cached == 0)
                ==> p == 80
            &&& (!chapters || !missing) && 0 < a.cache.img_cached < a.cache.img_found ==> (p - 80)
                * a.cache.img_found <= 20 * a.cache.img_cached < (p - 79) * a.cache.img_found
        }),
{
    let n = a.book.spine_len as int;
    lemma_count(a.cache.done@, n);
    let c = progress::cached_chapters(a);
    let q = c * 80 / n;
    if c < n {
        assert(q * n <= 80 * c < (q + 1) * n && 0 <= q < 80 && (c == 0 ==> q == 0)) by (nonlinear_arith)
            requires
                q == c * 80 / n,
                0 <= c < n,
        ;
    }
    if forall|i: int| 0 <= i < n ==> !(#[trigger] a.cache.done@[i]) {
        assert(!a.cache.done@[0]);
    }
    let found = a.cache.img_found as int;
    let cached = a.cache.img_cached as int;
    if found > 0 {
        let s = cached * 20 / found;
        assert(s * found <= 20 * cached < (s + 1) * found && 0 <= s && (cached >= found ==> s >= 20)
            && (cached < found ==> s < 20) && (cached == 0 ==> s == 0)) by (nonlinear_arith)
            requires
                s == cached * 20 / found,
                0 <= cached,
                0 < found,
        ;
    }
}

// ── reading time ──────────────────────────────────────────────────

/// A page turn counts one page, for the book and for the day, and the time since
/// the last one if it is less than ten minutes; the place is to be written half
/// a minute later.
pub proof fn law_a_turn_counts_a_page(a: ReadingLog, now: u32)
    requires
        a.stats.pages < u32::MAX,
        a.day_pages < 65535,
        a.stats.time_secs <= 0x7fff_ffff,
        a.day_secs <= 0x7fff_ffff,
        a.last_uptime <= now <= 0x7fff_ffff,
    ensures
        ({
            let b = persist::committed(a, PendingPositionChange::PageTurn, now);
            let read: int = if now - a.last_uptime < 600 {
                now - a.last_uptime
            } else {
                0
            };
            &&& b.stats.pages == a.stats.pages + 1
            &&& b.day_pages == a.day_pages + 1
            &&& b.stats.time_secs == a.stats.time_secs + read
            &&& b.day_secs == a.day_secs + read
            &&& b.stats.sessions == a.stats.sessions
            &&& b.last_uptime == now
            &&& b.dirty && b.recent_dirty
            &&& b.flush_at == Some((now + 30) as u32)
            &&& b.record_seq == a.record_seq && b.last_saved_pos == a.last_saved_pos
        }),
{
    reveal(persist::committed);
}

/// A jump counts neither a page nor time; opening a book and waking up in it
/// start the clock and count nothing. The place is to be written each time.
pub proof fn law_other_changes_count_no_page(a: ReadingLog, change: PendingPositionChange, now: u32)
    requires
        change != PendingPositionChange::PageTurn,
        now <= 0x7fff_ffff,
    ensures
        ({
            let b = persist::committed(a, change, now);
            &&& b.stats == a.stats
            &&& b.day_pages == a.day_pages && b.day_secs == a.day_secs
            &&& b.dirty && b.recent_dirty
            &&& b.flush_at == Some((now + 30) as u32)
            &&& change == PendingPositionChange::Jump ==> b.running == a.running && b.last_uptime
                == a.last_uptime
            &&& change != PendingPositionChange::Jump ==> b.running && b.last_uptime == now
        }),
{
    reveal(persist::committed);
}

/// The clock counts what lies between its start and its stop, for the book and
/// for the day, if that is less than ten minutes.
pub proof fn law_the_clock_counts_what_it_ran(a: ReadingLog, from: u32, to: u32)
    requires
        from <= to,
        a.stats.time_secs <= 0x7fff_ffff,
        a.day_secs <= 0x7fff_ffff,
    ensures
        ({
            let (b, added) = persist::clock_stopped(persist::clock_started(a, from), to);
            let read: int = if to - from < 600 {
                to - from
            } else {
                0
            };
            &&& b.stats.time_secs == a.stats.time_secs + read
            &&& b.day_secs == a.day_secs + read
            &&& b.stats.pages == a.stats.pages
            &&& !b.running
            &&& added == (read > 0)
        }),
        ({
            let b = persist::suspended(persist::clock_started(a, from), to);
            let read: int = if to - from < 600 {
                to - from
            } else {
                0
            };
            &&& b.stats.time_secs == a.stats.time_secs + read
            &&& !b.running
            &&& read > 0 ==> b.dirty && b.flush_at is Some
        }),
{
    reveal(persist::suspended);
}

/// What changed is written half a minute later, not before, or when it is
/// forced; what did not change is not written.
pub proof fn law_changes_are_written_when_due(
    a: ReadingLog,
    change: PendingPositionChange,
    now: u32,
    later: u32,
)
    requires
        now <= 0x7fff_ffff,
    ensures
        ({
            let b = persist::committed(a, change, now);
            &&& later < now + 30 ==> persist::flush_plan(b, false, later) is None
            &&& later >= now + 30 ==> (persist::flush_plan(b, false, later) matches Some(p)
                && p.recent && p.record)
            &&& persist::flush_plan(b, true, later) matches Some(p) && p.recent && p.record
        }),
        !a.dirty && !a.recent_dirty ==> persist::flush_plan(a, true, later) is None,
        a.dirty && !a.recent_dirty ==> (persist::flush_plan(a, true, later) matches Some(p)
            && p.record && !p.recent),
        !a.dirty && a.recent_dirty ==> (persist::flush_plan(a, true, later) matches Some(p)
            && !p.record && p.recent),
{
    reveal(persist::committed);
}

/// A record that is read counts one more session; the next one that is written
/// carries the same counts, a number one higher, and the place on screen, or the
/// one that was read where there is none.
pub proof fn law_records_go_on(a: ReadingLog, rec: BookRecord, here: Option<Position>)
    requires
        rec.stats.sessions < u32::MAX,
        rec.seq < u32::MAX,
    ensures
        ({
            let next = persist::next_record(persist::with_record(a, rec), here);
            &&& next.stats.sessions == rec.stats.sessions + 1
            &&& next.stats.pages == rec.stats.pages
            &&& next.stats.time_secs == rec.stats.time_secs
            &&& next.seq == rec.seq + 1
            &&& here is Some ==> next.pos == here
            &&& here is None ==> next.pos == rec.pos
        }),
        persist::with_record(a, rec).dirty,
{
    reveal(persist::with_record);
}

// ── the loading screen ────────────────────────────────────────────

/// The loading screen is for the states between opening and reading.
pub proof fn law_loading_is_what_is_not_read(s: State)
    ensures
        screen::is_loading(s) <==> s == State::NeedBookmark || s == State::NeedInit || s
            == State::NeedOpf || s == State::NeedToc || s == State::NeedCache || s
            == State::NeedIndex || s == State::NeedPage,
{
}

/// The loading screen goes up after 400 milliseconds, and on waking up after
/// 1500. The first frame clears the screen; behind it entering a book paints the
/// page, and moving in it the text area.
pub proof fn law_loading_screen_is_due(l: Loading, ms: u64)
    requires
        !l.painted,
    ensures
        ({
            let wait: int = if l.reason == LoadingReason::Resume {
                1500
            } else {
                400
            };
            let (after, paint) = screen::ticked(l, true, ms);
            &&& ms < wait ==> after == l && paint == Paint::Nothing
            &&& ms >= wait ==> after.painted && !after.first_full && paint == (if l.first_full {
                Paint::Full
            } else if l.reason == LoadingReason::Open || l.reason == LoadingReason::Resume {
                Paint::Page
            } else {
                Paint::LoadingArea
            })
            &&& screen::ticked(l, false, ms) == (l, Paint::Nothing)
        }),
        !screen::begun(l, LoadingReason::Chapter).painted,
        screen::begun(l, LoadingReason::Chapter).reason == LoadingReason::Chapter,
{
}

/// The first page behind a book's opening clears the screen, and only that one.
pub proof fn law_first_frame_clears(l: Loading)
    ensures
        ({
            let (after, paint) = screen::page_up(l);
            &&& paint == (if l.first_full {
                Paint::Full
            } else {
                Paint::Page
            })
            &&& screen::page_up(after).1 == Paint::Page
        }),
{
}

} // verus!
