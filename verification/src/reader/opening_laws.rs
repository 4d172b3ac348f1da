//! What holds of opening a book and of the work behind its page, whatever the
//! outcome of each step.

use vstd::prelude::*;

use crate::book_record::{BookRecord, Position};
use crate::nav::BgOutcome;
use crate::reader::contents::{self, SheetRows};
use crate::reader::opening::{self, Bookmark, OpfInfo, Work};
use crate::reader::outcomes::{self, ImageTick};
use crate::reader::persist;
use crate::reader::screen;
use crate::reader::state::{
    BgCacheState, Cache, Indicator, LoadingReason, Paint, ReaderApp, Restore, State, TocEntry,
};

verus! {

// ── where a book opens ───────────────────────────────────────────

/// A text opens at the byte of its record. Where there is no position, an old
/// bookmark names chapter, byte and page, and page 0 names none. With neither,
/// the book opens where it stands.
pub proof fn law_texts_open_at_their_mark(
    a: ReaderApp,
    p: Position,
    b: Bookmark,
    stored: Option<Bookmark>,
)
    requires
        !a.book.is_epub,
    ensures
        opening::marked(a, Some(p), stored).restore.offset == Some(p.byte_offset),
        opening::marked(a, Some(p), stored).restore.page_hint is None,
        opening::marked(a, Some(p), stored).chapter == a.chapter,
        opening::marked(a, None, Some(b)).restore.offset == Some(b.byte_offset),
        opening::marked(a, None, Some(b)).chapter == b.chapter,
        b.page_hint > 0 ==> opening::marked(a, None, Some(b)).restore.page_hint == Some(
            b.page_hint as usize,
        ),
        b.page_hint == 0 ==> opening::marked(a, None, Some(b)).restore.page_hint is None,
        opening::marked(a, None, None).restore.offset == a.restore.offset,
        opening::marked(a, None, None).chapter == a.chapter,
{
    reveal(opening::marked);
}

/// The position of a book with chapters waits until they are known. It is taken
/// up if the file is still the one that it was counted in and has the chapter;
/// else the book opens at its start.
pub proof fn law_books_open_at_their_record(
    a: ReaderApp,
    p: Position,
    stored: Option<Bookmark>,
    n: int,
)
    requires
        a.book.is_epub,
        n >= 0,
    ensures
        ({
            let m = opening::marked(a, Some(p), stored);
            let r = opening::restored(m, n);
            let fits = p.archive_size == a.book.archive_size && (n == 0 || p.chapter < n);
            &&& m.chapter == a.chapter && m.restore.offset == a.restore.offset
            &&& m.restore.pending == Some(p)
            &&& r.restore.pending is None
            &&& fits ==> r.chapter == p.chapter && r.restore.offset == Some(p.byte_offset)
                && r.restore.page_hint == Some(p.page as usize) && r.restore.fmt == p.content_fmt
                && r.restore.layout_key == p.layout_key && r.restore.anchor == p.spec_anchor()
            &&& !fits ==> r.chapter == a.chapter && r.restore.offset == a.restore.offset
                && r.restore.page_hint == a.restore.page_hint
        }),
{
    reveal(opening::marked);
    reveal(opening::restored);
}

/// Once its chapters are known a book opens in one of them: in that of its mark,
/// or in the last where the mark is behind it. Its title is stored if it is the
/// real one, and a cover is made where there is one and the text is complete.
pub proof fn law_marks_behind_the_book_open_its_end(a: ReaderApp, info: OpfInfo)
    requires
        info.spine_len > 0,
        info.spine_len <= 65535,
        a.restore.pending is None,
    ensures
        ({
            let b = opening::opf_read(a, info);
            &&& a.chapter < info.spine_len ==> b.chapter == a.chapter
            &&& a.chapter >= info.spine_len ==> b.chapter == info.spine_len - 1
            &&& b.book.spine_len == info.spine_len && b.book.archive_size == info.archive_size
            &&& b.tasks.title_save == a.book.title_is_real
            &&& b.tasks.cover_thumb <==> info.has_cover && info.core_ready
            &&& b.state == State::NeedToc
        }),
{
    reveal(opening::opf_read);
    reveal(opening::restored);
}

/// A book whose chapters cannot be told opens in the chapter that it stands in.
pub proof fn law_books_without_chapters_stay(a: ReaderApp, info: OpfInfo)
    requires
        info.spine_len == 0,
        a.restore.pending is None,
    ensures
        opening::opf_read(a, info).chapter == a.chapter,
{
    reveal(opening::opf_read);
    reveal(opening::restored);
}

/// The record read, a text goes on to its page and a book to its archive, of
/// which nothing is known yet. A cover that came with it is painted.
pub proof fn law_records_lead_on(a: ReaderApp, rec: BookRecord, stored: Option<Bookmark>, cover: bool)
    ensures
        ({
            let (b, s) = opening::record_read(a, rec, stored, cover);
            &&& a.book.is_epub ==> b.state == State::NeedInit && b.book.spine_len == 0
                && !b.cache.ready && !b.goto_last_page
            &&& !a.book.is_epub ==> b.state == State::NeedPage
            &&& b.has_cover <==> a.has_cover || cover
            &&& cover <==> s.paint == Paint::LoadingArea
            &&& !cover ==> s.paint == Paint::Nothing
        }),
{
    reveal(opening::marked);
    reveal(persist::with_record);
}

/// A page hint holds only under the layout that it was counted under.
pub proof fn law_hints_hold_under_their_layout(r: Restore, hash: u32)
    ensures
        r.layout_key == hash ==> opening::settled_restore(r, hash).page_hint == r.page_hint,
        r.layout_key != hash ==> opening::settled_restore(r, hash).page_hint is None,
        opening::settled_restore(r, hash).offset == r.offset,
{
}

/// Without a mark the page that is wanted is loaded. With one and all pages
/// known, the page that holds its byte is; else pages are loaded from the first
/// on until it is found. A mark is taken up once.
pub proof fn law_marks_are_sought_once(a: ReaderApp, hash: u32)
    requires
        a.wf(),
    ensures
        ({
            let (b, w) = opening::page_work(a, hash);
            &&& b.restore.offset is None && b.restore.page_hint is None
            &&& a.restore.offset is None ==> w == (Work::LoadPage { seek: None }) && b.pg == a.pg
            &&& a.restore.offset matches Some(t) ==> {
                &&& !a.pg.fully_indexed ==> w == (Work::LoadPage { seek: Some(t) }) && b.pg.page
                    == 0
                &&& a.pg.fully_indexed ==> {
                    let p = b.pg.page as int;
                    &&& w == (Work::LoadPage { seek: None })
                    &&& 0 <= p < a.pg.offsets@.len()
                    &&& p == 0 || a.pg.offsets@[p] <= t
                    &&& p + 1 == a.pg.offsets@.len() || t < a.pg.offsets@[p + 1]
                }
            }
        }),
{
    if let Some(t) = a.restore.offset {
        let r = opening::settled_restore(a.restore, hash);
        crate::reader::index::law_located_page_holds_the_byte(a.pg.offsets@, t, r.page_hint);
    }
}

/// Where the form of a book's text changed since its position was counted, an
/// anchor is looked up, if there is one, and no page hint holds.
pub proof fn law_anchors_are_for_another_form(a: ReaderApp, hash: u32)
    requires
        a.wf(),
    ensures
        ({
            let (b, w) = opening::page_started(a, hash);
            let changed = a.book.is_epub && a.book.content_fmt != a.restore.fmt;
            &&& changed && a.restore.anchor is Some ==> w == Work::ResolveAnchor(
                a.restore.anchor->0,
            ) && b.restore.anchor is None && b.restore.offset == a.restore.offset
            &&& !changed || a.restore.anchor is None ==> w is LoadPage
            &&& b.restore.page_hint is None
        }),
{
}

/// An anchor that was found gives the byte to open at; else the recorded one
/// holds.
pub proof fn law_found_anchors_open(a: ReaderApp, at: u32, hash: u32)
    requires
        a.wf(),
        !a.pg.fully_indexed,
    ensures
        outcomes::anchor_resolved(a, Some(at), hash).1.work == (Work::LoadPage { seek: Some(at) }),
        a.restore.offset matches Some(t) ==> outcomes::anchor_resolved(a, None, hash).1.work == (
        Work::LoadPage { seek: Some(t) }),
        a.restore.offset is None ==> outcomes::anchor_resolved(a, None, hash).1.work == (
        Work::LoadPage { seek: None }),
{
}

// ── ready, or failed ─────────────────────────────────────────────

/// A page that is loaded is read, or lies under its contents where these were
/// asked for and there are any. What was asked for is done with.
pub proof fn law_loaded_pages_are_read(a: ReaderApp, rows: SheetRows, now: u32)
    ensures
        ({
            let (b, s) = opening::ready(a, rows, now);
            let sheet = a.contents.open_on_ready && a.book.is_epub && a.contents.toc@.len() > 0;
            &&& sheet ==> b.state == State::ShowToc
            &&& !sheet ==> b.state == State::Ready
            &&& !b.contents.open_on_ready || sheet
            &&& b.contents.pages_stale || sheet
            &&& b.pending_change is None
            &&& a.pending_change is None ==> b.log == a.log
            &&& b.pg == a.pg && b.chapter == a.chapter && b.book == a.book
            &&& s.indicator == Indicator::Clear
            &&& a.loading.first_full ==> s.paint == Paint::Full
            &&& !a.loading.first_full ==> s.paint == Paint::Page
            &&& s.work == Work::Return(BgOutcome::Progress { more: true })
            &&& (a.tasks.toc_parse || a.tasks.title_save || a.tasks.cover_thumb)
                ==> b.tasks.defer_once
        }),
{
    reveal(opening::ready);
}

/// An error takes the place of the book and changes nothing of where it stood.
/// A change of position that never came on screen does not count.
pub proof fn law_errors_keep_the_place(a: ReaderApp, e: u16, now: u32)
    ensures
        ({
            let (b, s) = opening::failed(a, e, now);
            &&& b.state == State::Error && b.error == Some(e)
            &&& b.pending_change is None
            &&& !b.cache.open && b.cache.done == a.cache.done
            &&& b.pg == a.pg && b.chapter == a.chapter && b.book == a.book && b.restore == a.restore
            &&& s.indicator == Indicator::Clear
        }),
{
    reveal(opening::failed);
}

/// A page that could not be read is an error. While a byte is looked for, the
/// next page is loaded as long as it starts at the byte or before.
pub proof fn law_pages_are_loaded_up_to_the_mark(
    a: ReaderApp,
    e: u16,
    target: u32,
    rows: SheetRows,
    now: u32,
)
    requires
        a.wf(),
    ensures
        outcomes::page_loaded(a, Err(e), Some(target), rows, now) == opening::failed(a, e, now),
        outcomes::page_loaded(a, Err(e), None, rows, now) == opening::failed(a, e, now),
        outcomes::page_loaded(a, Ok(()), None, rows, now) == opening::ready(a, rows, now),
        ({
            let (b, s) = outcomes::page_loaded(a, Ok(()), Some(target), rows, now);
            let next = a.pg.page + 1;
            &&& next < a.pg.offsets@.len() && a.pg.offsets@[next] <= target ==> b.pg.page == next
                && s.work == (Work::LoadPage { seek: Some(target) })
            &&& next >= a.pg.offsets@.len() || a.pg.offsets@[next] > target ==> (b, s)
                == opening::ready(a, rows, now)
        }),
{
}

// ── the work of each state ───────────────────────────────────────

/// Each state of opening has its own work.
pub proof fn law_states_have_their_work(a: ReaderApp, hash: u32, paint: bool, shown: bool)
    ensures
        ({
            let w = opening::state_work(a, hash, paint, shown).1.work;
            &&& a.state == State::NeedBookmark ==> w == Work::LoadRecord
            &&& a.state == State::NeedInit ==> w == Work::OpenZip
            &&& a.state == State::NeedOpf ==> w == Work::ParseOpf
            &&& a.state == State::NeedToc ==> w == Work::LoadToc
            &&& a.state == State::NeedCache ==> w == Work::CheckCache
            &&& a.state == State::NeedPage ==> w is LoadPage || w is ResolveAnchor
            &&& a.state == State::Error ==> w == Work::Return(BgOutcome::Idle)
        }),
{
}

/// A chapter is indexed once it is in the cache; one that is not is added to it
/// first, from where adding it stopped.
pub proof fn law_chapters_are_cached_before_they_are_indexed(
    a: ReaderApp,
    hash: u32,
    paint: bool,
    shown: bool,
)
    requires
        a.wf(),
        a.state == State::NeedIndex,
        (a.chapter as int) < 256,
    ensures
        ({
            let w = opening::state_work(a, hash, paint, shown).1.work;
            let missing = a.book.is_epub && a.cache.ready && !a.cache.done@[a.chapter as int];
            &&& missing && a.cache.open ==> w == Work::CacheStep
            &&& missing && !a.cache.open ==> w == Work::CacheBegin
            &&& !missing && a.book.is_epub && !a.loading.painted ==> w == Work::AskLayout
            &&& !missing && (!a.book.is_epub || a.loading.painted) ==> (w matches Work::Index {
                fresh,
                last,
            } && last == a.goto_last_page && (fresh <==> a.typesetting.waits == 0
                || a.typesetting.retry_ch != a.chapter))
        }),
{
}

/// While a page is read, what was put off comes first and one by one: the
/// contents, the title, the cover. Caching comes last.
pub proof fn law_what_was_put_off_comes_in_order(a: ReaderApp, paint: bool, shown: bool)
    requires
        !a.tasks.defer_once,
        !a.contents.pages_stale,
    ensures
        ({
            let (b, s) = opening::reading_work(a, paint, shown);
            let t = a.tasks;
            &&& t.toc_parse ==> s.work == Work::LoadToc && !b.tasks.toc_parse && b.tasks.title_save
                == t.title_save && b.tasks.cover_thumb == t.cover_thumb
            &&& !t.toc_parse && t.title_save ==> s.work == Work::SaveTitle && !b.tasks.title_save
                && b.tasks.cover_thumb == t.cover_thumb
            &&& !t.toc_parse && !t.title_save && t.cover_thumb ==> s.work == Work::MakeCover
                && !b.tasks.cover_thumb
            &&& !t.toc_parse && !t.title_save && !t.cover_thumb && a.cache.bg
                != BgCacheState::Idle ==> s.work == Work::StepCache
            &&& !t.toc_parse && !t.title_save && !t.cover_thumb && a.cache.bg
                == BgCacheState::Idle ==> s.work == Work::Return(BgOutcome::Idle) && b == a
        }),
{
}

/// Before that the page gets a step to itself, and then the counts of pages are
/// brought up to date.
pub proof fn law_the_page_has_a_step_to_itself(a: ReaderApp, paint: bool, shown: bool)
    ensures
        a.tasks.defer_once ==> {
            let (b, s) = opening::reading_work(a, paint, shown);
            &&& !b.tasks.defer_once && b.contents == a.contents
            &&& s.work is Return
        },
        !a.tasks.defer_once && a.contents.pages_stale ==> {
            let (b, s) = opening::reading_work(a, paint, shown);
            s.work == Work::RefreshPages && !b.contents.pages_stale
        },
{
}

/// The indicator of caching comes up at the first step at which it may be
/// painted.
pub proof fn law_indicators_come_up_when_they_may(a: ReaderApp, paint: bool, shown: bool)
    requires
        a.cache.bg != BgCacheState::Idle,
    ensures
        ({
            let (b, s) = opening::cache_work(a, paint, shown);
            &&& s.work == Work::StepCache
            &&& s.indicator == Indicator::Caching <==> !shown && paint
            &&& s.indicator != Indicator::Clear
            &&& !shown && !paint ==> b.cache.ui_stale
            &&& shown || paint ==> b == a
        }),
{
}

/// An indicator that could not be painted is as soon as it can: it goes up
/// while caching runs and down once it is over.
pub proof fn law_indicators_catch_up(c: Cache, paint: bool)
    ensures
        c.ui_stale && paint && c.bg == BgCacheState::Idle ==> opening::caught_up(c, paint).1
            == Indicator::Clear,
        c.ui_stale && paint && c.bg != BgCacheState::Idle ==> opening::caught_up(c, paint).1
            == Indicator::Caching,
        c.ui_stale && paint ==> !opening::caught_up(c, paint).0.ui_stale,
        !c.ui_stale || !paint ==> opening::caught_up(c, paint) == (c, Indicator::Keep),
{
}

// ── outcomes ─────────────────────────────────────────────────────

/// Contents that could not be read leave those that there were. While the book
/// is opened its cache is looked at next; else it stays as it is.
pub proof fn law_contents_are_taken_over(a: ReaderApp, toc: Vec<TocEntry>)
    ensures
        outcomes::toc_read(a, Some(toc)).0.contents.toc == toc,
        outcomes::toc_read(a, None).0.contents == a.contents,
        a.state == State::NeedToc ==> outcomes::toc_read(a, None).0.state == State::NeedCache
            && outcomes::toc_read(a, Some(toc)).0.state == State::NeedCache,
        a.state != State::NeedToc ==> outcomes::toc_read(a, None).0 == a && outcomes::toc_read(
            a,
            Some(toc),
        ).0.state == a.state,
{
}

/// A book that is in the cache is indexed; of one that is not, the chapter is
/// added, behind a loading screen.
pub proof fn law_cached_books_are_indexed(a: ReaderApp, e: u16, now: u32)
    ensures
        outcomes::cache_checked(a, Ok(true), now).0.state == State::NeedIndex,
        outcomes::cache_checked(a, Ok(false), now).0.loading.painted,
        a.cache.open ==> outcomes::cache_checked(a, Ok(false), now).1.work == Work::CacheStep,
        !a.cache.open ==> outcomes::cache_checked(a, Ok(false), now).1.work == Work::CacheBegin,
        outcomes::cache_checked(a, Ok(false), now).0.state == a.state,
        outcomes::cache_checked(a, Err(e), now).0.state == State::Error,
        outcomes::cache_begun(a, Ok(()), now).0.cache.open,
        outcomes::cache_begun(a, Ok(()), now).1.work == Work::CacheStep,
        outcomes::cache_begun(a, Err(e), now).0.state == State::Error,
{
    reveal(opening::failed);
}

/// The first chapter of a book makes its cache ready, and caching in the
/// background starts over; a later one only joins it.
pub proof fn law_the_first_chapter_makes_the_cache(a: ReaderApp, done: Vec<bool>)
    ensures
        ({
            let b = outcomes::chapter_added(a, done);
            &&& !b.cache.open && b.cache.done == done
            &&& a.state == State::NeedCache ==> b.cache.ready && b.cache.next == 0
            &&& a.state != State::NeedCache ==> b.cache.ready == a.cache.ready && b.cache.next
                == a.cache.next
            &&& b.state == a.state
        }),
{
}

/// With an image at the decoder caching waits for it, and else it goes on with
/// chapters; either way the chapter is indexed next.
pub proof fn law_indexing_follows_the_image(a: ReaderApp)
    ensures
        outcomes::nearby_sent(a, true).0.cache.bg == BgCacheState::WaitNearbyImage,
        outcomes::nearby_sent(a, false).0.cache.bg == BgCacheState::CacheChapter,
        outcomes::nearby_sent(a, true).0.state == State::NeedIndex,
        outcomes::nearby_sent(a, false).0.state == State::NeedIndex,
{
}

/// A chapter without a layout is announced by the loading screen, one with a
/// layout is not. Either way it is indexed, to its last page if that is where
/// to go.
pub proof fn law_slow_chapters_are_announced(a: ReaderApp)
    ensures
        outcomes::layout_asked(a, true).1.paint == Paint::Nothing,
        outcomes::layout_asked(a, true).0.loading == a.loading,
        outcomes::layout_asked(a, false).0.loading.painted,
        !a.loading.painted ==> outcomes::layout_asked(a, false).1.paint != Paint::Nothing,
        outcomes::layout_asked(a, true).1.work matches Work::Index { fresh, last } && last
            == a.goto_last_page,
        outcomes::layout_asked(a, false).1.work matches Work::Index { fresh, last } && last
            == a.goto_last_page,
{
}

/// A chapter that waits for memory keeps the wish for its last page, and is
/// known again. One that is indexed goes to its last page if that is wished
/// for, and else to its first.
pub proof fn law_indexed_chapters_show_a_page(a: ReaderApp, last: bool)
    ensures
        outcomes::indexed(a, true, last).0.goto_last_page == last,
        outcomes::indexed(a, true, last).0.typesetting.retry_ch == a.chapter,
        outcomes::indexed(a, true, last).0.state == a.state,
        outcomes::indexed(a, true, last).1.work == Work::TakeImage,
        outcomes::indexed(a, false, true).1.work == Work::ScanToEnd,
        outcomes::indexed(a, false, false).0.state == State::NeedPage,
{
}

/// The counts of pages: of the open chapter those that are known, of the others
/// of the book those that are stored, and nothing changes behind its end.
pub proof fn law_pages_are_counted_by_chapter(a: ReaderApp, stored: Seq<u16>, i: int)
    requires
        a.wf(),
        a.book.spine_len <= stored.len(),
        0 <= i < 256,
    ensures
        ({
            let n = outcomes::counted(a, stored);
            &&& n.len() == 256
            &&& i >= a.book.spine_len ==> n[i] == a.contents.pages@[i]
            &&& i < a.book.spine_len && i != a.chapter ==> n[i] == stored[i]
            &&& i < a.book.spine_len && i == a.chapter && a.pg.fully_indexed ==> n[i]
                == a.pg.offsets@.len()
            &&& i < a.book.spine_len && i == a.chapter && !a.pg.fully_indexed ==> n[i] == stored[i]
        }),
{
}

// ── caching in the background ────────────────────────────────────

/// The end of caching takes the indicator down. Over a page it is painted again
/// for each tenth of the way, on the loading screen for each change.
pub proof fn law_indicators_go_by_tenths(a: ReaderApp, before: outcomes::CacheMark)
    requires
        a.wf(),
    ensures
        ({
            let m = outcomes::mark_of(a);
            let i = outcomes::indicates(a, before);
            let reading = a.state == State::Ready || a.state == State::ShowToc || a.state
                == State::Error;
            &&& a.cache.bg == BgCacheState::Idle ==> i == Some(Indicator::Clear)
            &&& a.cache.bg != BgCacheState::Idle ==> i != Some(Indicator::Clear)
            &&& m.chapters == before.chapters && m.bg == before.bg && m.img_found
                == before.img_found && m.img_cached == before.img_cached && m.bg
                != BgCacheState::Idle ==> i is None
            &&& reading && m.pct / 10 == before.pct / 10 && m.bg != BgCacheState::Idle ==> i is None
            &&& m.chapters != before.chapters && m.bg != BgCacheState::Idle && (!reading || m.pct
                / 10 != before.pct / 10) ==> i == Some(Indicator::Caching)
        }),
{
}

/// An indicator that may not be painted now is noted, and nothing is lost.
pub proof fn law_indicators_are_not_lost(a: ReaderApp, before: outcomes::CacheMark)
    ensures
        outcomes::indicates(a, before) is Some ==> outcomes::cache_stepped(
            a,
            before,
            false,
        ).0.cache.ui_stale,
        outcomes::cache_stepped(a, before, false).1 == Indicator::Keep,
        outcomes::indicates(a, before) matches Some(i) ==> outcomes::cache_stepped(
            a,
            before,
            true,
        ).1 == i && !outcomes::cache_stepped(a, before, true).0.cache.ui_stale,
        outcomes::indicates(a, before) is None ==> outcomes::cache_stepped(a, before, true).0 == a,
{
}

/// Caching waits as long as the decoder is at work. An answer, a failure and a
/// decoder at rest all end the wait, unless another image near the page went
/// out. What waited for a nearby image goes on with chapters, what waited for
/// another with images.
pub proof fn law_waits_end_with_the_decoder(c: Cache, sent: bool, rest: bool)
    ensures
        outcomes::ticked_bg(BgCacheState::WaitNearbyImage, ImageTick::Nothing { at_rest: false })
            == BgCacheState::WaitNearbyImage,
        outcomes::ticked_bg(BgCacheState::WaitImage, ImageTick::Nothing { at_rest: false })
            == BgCacheState::WaitImage,
        outcomes::ticked_bg(BgCacheState::WaitNearbyImage, ImageTick::Nothing { at_rest: true })
            == BgCacheState::CacheChapter,
        outcomes::ticked_bg(BgCacheState::WaitImage, ImageTick::Nothing { at_rest: true })
            == BgCacheState::CacheImage,
        outcomes::ticked_bg(BgCacheState::WaitNearbyImage, ImageTick::Failed)
            == BgCacheState::CacheChapter,
        outcomes::ticked_bg(BgCacheState::WaitImage, ImageTick::Failed) == BgCacheState::CacheImage,
        outcomes::ticked_bg(
            BgCacheState::WaitNearbyImage,
            ImageTick::Received { dispatched: true },
        ) == BgCacheState::WaitNearbyImage,
        outcomes::ticked_bg(
            BgCacheState::WaitNearbyImage,
            ImageTick::Received { dispatched: false },
        ) == BgCacheState::CacheChapter,
        outcomes::ticked_bg(BgCacheState::WaitImage, ImageTick::Received { dispatched: sent })
            == BgCacheState::CacheImage,
{
}

/// An image that was waited for is counted once it comes, and nothing else is.
pub proof fn law_received_images_are_counted(c: Cache, tick: ImageTick)
    requires
        c.img_cached < 65535,
    ensures
        ({
            let waited = c.bg == BgCacheState::WaitNearbyImage || c.bg == BgCacheState::WaitImage;
            let n = outcomes::ticked_cache(c, tick).img_cached;
            &&& waited && tick is Received ==> n == c.img_cached + 1
            &&& !waited || !(tick is Received) ==> n == c.img_cached
            &&& outcomes::ticked_cache(c, tick).img_found == c.img_found
            &&& !waited ==> outcomes::ticked_cache(c, tick).bg == c.bg
        }),
{
}

/// A covered reader has work only while a book is being cached, and then waits
/// for the decoder; it changes nothing but the cache.
pub proof fn law_covered_readers_only_wait(a: ReaderApp, tick: ImageTick)
    ensures
        !a.book.is_epub || a.cache.bg == BgCacheState::Idle ==> outcomes::covered_step(a, tick) == (
            a,
            BgOutcome::Idle,
        ),
        a.book.is_epub && a.cache.bg != BgCacheState::Idle ==> outcomes::covered_step(a, tick).1
            == BgOutcome::WaitingExternal,
        outcomes::covered_step(a, tick).0.pg == a.pg,
        outcomes::covered_step(a, tick).0.state == a.state,
{
}

/// A step paints the loading screen once it is overdue, before anything else; and
/// an indicator that is due with the state's work wins over one that is late.
pub proof fn law_overdue_screens_come_first(
    a: ReaderApp,
    ms: u64,
    hash: u32,
    paint: bool,
    shown: bool,
)
    ensures
        ({
            let (b, s) = opening::started(a, ms, hash, paint, shown);
            let loading = a.state != State::Ready && a.state != State::ShowToc && a.state
                != State::Error;
            let due: int = if a.loading.reason == LoadingReason::Resume {
                1500
            } else {
                400
            };
            &&& loading && ms >= due && !a.loading.painted ==> b.loading.painted && s.paint
                != Paint::Nothing
            &&& a.cache.ui_stale && paint ==> s.indicator != Indicator::Keep
            &&& !a.cache.ui_stale && a.state == State::Error ==> s.indicator == Indicator::Keep
            &&& a.state == State::Error ==> s.work == Work::Return(BgOutcome::Idle)
        }),
{
    let (cache, indicator) = opening::caught_up(a.cache, paint);
    let (loading, p) = screen::ticked(a.loading, screen::is_loading(a.state), ms);
    let c = ReaderApp { cache, loading, ..a };
    lemma_page_keeps_loading(c, hash);
}

proof fn lemma_page_keeps_loading(a: ReaderApp, hash: u32)
    ensures
        opening::page_started(a, hash).0.loading == a.loading,
        opening::index_work(a).0.loading == a.loading,
{
}

} // verus!
