//! What holds of the reader's records and captions, wherever it is.

use vstd::prelude::*;

use crate::book_record::Position;
use crate::markup::Anchor;
use crate::reader::contents::{self, SheetRows};
use crate::reader::labels;
use crate::reader::persist::{self, ReadingLog};
use crate::reader::progress;
use crate::reader::state::{
    BgCacheState, Contents, LoadingReason, Paint, ReaderApp, State, TocEntry,
};
use crate::ui;

verus! {

// ── numbers of chapters ──────────────────────────────────────────

/// With contents the chapter has the number of its first entry, counted from 1,
/// and 0 without one; without contents it has its own.
pub proof fn law_chapters_are_numbered_by_the_contents(a: ReaderApp, k: int)
    requires
        0 <= k <= a.contents.toc@.len(),
        forall|i: int| 0 <= i < k ==> (#[trigger] a.contents.toc@[i]).spine_idx != a.chapter,
    ensures
        a.contents.toc@.len() == 0 ==> labels::numbering(a) == (
            a.chapter + 1,
            a.book.spine_len as int,
        ),
        k < a.contents.toc@.len() && a.contents.toc@[k].spine_idx == a.chapter
            ==> labels::numbering(a) == (k + 1, a.contents.toc@.len() as int),
        0 < k == a.contents.toc@.len() ==> labels::numbering(a) == (0int, k),
{
    lemma_entry(a.contents.toc@, a.chapter, 0, k);
}

proof fn lemma_entry(toc: Seq<TocEntry>, chapter: u16, j: int, k: int)
    requires
        0 <= j <= k <= toc.len(),
        forall|i: int| j <= i < k ==> (#[trigger] toc[i]).spine_idx != chapter,
    ensures
        k < toc.len() && toc[k].spine_idx == chapter ==> labels::find_entry(toc, chapter, j)
            == Some(k),
        k == toc.len() ==> labels::find_entry(toc, chapter, j) is None,
    decreases k - j,
{
    if j < k {
        lemma_entry(toc, chapter, j + 1, k);
    }
}

proof fn lemma_titled(toc: Seq<TocEntry>, chapter: u16, j: int, k: int)
    requires
        0 <= j <= k <= toc.len(),
        forall|i: int|
            j <= i < k ==> (#[trigger] toc[i]).spine_idx != chapter || toc[i].title@.len() == 0,
    ensures
        k < toc.len() && toc[k].spine_idx == chapter && toc[k].title@.len() > 0
            ==> labels::find_titled(toc, chapter, j) == Some(k),
        k == toc.len() ==> labels::find_titled(toc, chapter, j) is None,
    decreases k - j,
{
    if j < k {
        lemma_titled(toc, chapter, j + 1, k);
    }
}

/// The menu names the chapter by its first title, and by its number where it
/// has none; a text by its page. How much is read follows.
pub proof fn law_menus_name_the_chapter(a: ReaderApp, k: int)
    requires
        a.state == State::Ready || a.state == State::ShowToc,
        0 <= k <= a.contents.toc@.len(),
        forall|i: int|
            0 <= i < k ==> (#[trigger] a.contents.toc@[i]).spine_idx != a.chapter
                || a.contents.toc@[i].title@.len() == 0,
    ensures
        ({
            let read = " \u{00B7} "@ + ui::num(progress::progress(a) as nat) + "% read"@;
            let book = a.book.is_epub && a.book.spine_len > 0;
            &&& book && k < a.contents.toc@.len() && a.contents.toc@[k].spine_idx == a.chapter
                && a.contents.toc@[k].title@.len() > 0 ==> labels::menu_caption(a)
                =~= a.contents.toc@[k].title@ + read
            &&& book && k == a.contents.toc@.len() ==> labels::menu_caption(a) =~= "Chapter "@
                + ui::num((a.chapter + 1) as nat) + " of "@ + ui::num(a.book.spine_len as nat)
                + read
            &&& !book ==> labels::menu_caption(a) =~= "Page "@ + ui::num((a.pg.page + 1) as nat)
                + " of "@ + ui::num(a.pg.offsets@.len()) + read
        }),
{
    lemma_titled(a.contents.toc@, a.chapter, 0, k);
}

// ── the place that is kept ───────────────────────────────────────

/// A place is told while a page is on screen: its first byte and its page. Of a
/// book with chapters it names the chapter and the anchor; of a text neither.
pub proof fn law_places_are_those_on_screen(a: ReaderApp, key: u32, anchor: Option<Anchor>)
    requires
        a.wf(),
    ensures
        labels::place(a, key, anchor) is Some <==> a.state == State::Ready || a.state
            == State::ShowToc,
        labels::place(a, key, anchor) matches Some(p) ==> {
            &&& p.byte_offset == a.pg.offsets@[a.pg.page as int]
            &&& p.page == a.pg.page
            &&& p.layout_key == key
            &&& p.progress_pct == progress::progress(a) as u8
            &&& p.font_idx == a.look.chosen.font_size_idx
            &&& a.book.is_epub ==> p.chapter == a.chapter && p.archive_size == a.book.archive_size
                && p.content_fmt == a.book.content_fmt
            &&& a.book.is_epub && anchor is Some ==> p.para == anchor->0.para && p.word
                == anchor->0.word
            &&& a.book.is_epub && anchor is None ==> p.spec_anchor() is None
            &&& !a.book.is_epub ==> p.chapter == 0 && p.archive_size == a.book.file_size
                && p.content_fmt == 0 && p.spec_anchor() is None && p.chapter_no == 0
                && p.chapter_count == 0
        },
{
}

/// A place that is kept is the one that a text opens at again.
pub proof fn law_kept_places_are_returned_to(a: ReaderApp, b: ReaderApp, key: u32, p: Position)
    requires
        a.wf(),
        !a.book.is_epub,
        !b.book.is_epub,
        labels::place(a, key, None) == Some(p),
    ensures
        crate::reader::opening::marked(b, Some(p), None).restore.offset == Some(
            a.pg.offsets@[a.pg.page as int],
        ),
{
    reveal(crate::reader::opening::marked);
}

// ── captions ─────────────────────────────────────────────────────

/// How far opening is rises from 5 to 100 percent, and an error has none.
pub proof fn law_stages_have_their_percentage(a: ReaderApp)
    ensures
        a.error is Some <==> labels::stage_pct(a) is None,
        a.error is None && (a.state == State::Ready || a.state == State::ShowToc)
            ==> labels::stage_pct(a) == Some(100u8),
        a.error is None && a.state == State::NeedBookmark ==> labels::stage_pct(a) == Some(5u8),
        a.error is None && a.state == State::NeedIndex ==> labels::stage_pct(a) == Some(75u8),
        labels::stage_pct(a) == Some(100u8) ==> a.state == State::Ready || a.state
            == State::ShowToc,
{
}

/// The overlay counts pages from 1, of all of them once they are known; before
/// that a text tells how much is read. Of several chapters it tells which.
pub proof fn law_overlays_count_from_one(a: ReaderApp)
    requires
        a.wf(),
    ensures
        ({
            let page = ui::num((a.pg.page + 1) as nat);
            let all = page + "/"@ + ui::num(a.pg.offsets@.len());
            let book = a.book.is_epub && a.book.spine_len >= 2;
            let head = "Ch "@ + ui::num((a.chapter + 1) as nat) + "/"@ + ui::num(
                a.book.spine_len as nat,
            );
            &&& !book && a.pg.fully_indexed ==> labels::overlay_caption(a) =~= "Page "@ + all
            &&& !book && !a.pg.fully_indexed ==> labels::overlay_caption(a) =~= "Page "@ + page
                + "  ("@ + ui::num(progress::progress(a) as nat) + "%)"@
            &&& book && a.pg.fully_indexed ==> labels::overlay_caption(a) =~= head + "  Page "@
                + all
            &&& book && !a.pg.fully_indexed ==> labels::overlay_caption(a) =~= head + "  Page "@
                + page
        }),
{
}

/// The footer tells of caching while it runs: chapters until all are cached,
/// then images.
pub proof fn law_footers_tell_of_caching(a: ReaderApp)
    requires
        a.wf(),
    ensures
        ({
            let n = progress::cached_chapters(a);
            let all = a.book.spine_len as int;
            let runs = a.book.is_epub && a.cache.bg != BgCacheState::Idle;
            &&& !runs ==> labels::footer_caption(a) == ""@
            &&& runs && n < all ==> labels::footer_caption(a) =~= "["@ + ui::num(n as nat) + "/"@
                + ui::num(all as nat) + "]"@
            &&& runs && n >= all && a.cache.img_found >= 1 ==> labels::footer_caption(a)
                =~= "[img "@ + ui::num(a.cache.img_cached as nat) + "/"@ + ui::num(
                a.cache.img_found as nat,
            ) + "]"@
            &&& runs && n >= all && a.cache.img_found == 0 ==> labels::footer_caption(a) == "[img]"@
        }),
{
}

/// Where a book opens: at its start if it is in the first chapter with no byte
/// to find or the first one; else in its chapter, with how much is read. A text
/// tells its page, counted from 1, or else its size.
pub proof fn law_the_line_tells_where_it_opens(a: ReaderApp)
    ensures
        ({
            let n = a.book.spine_len as int;
            let start = a.chapter == 0 && (a.restore.offset is None || a.restore.offset->0 == 0);
            &&& a.book.is_epub && n > 0 && start ==> labels::resume_line(a)
                =~= "From the start \u{00B7} "@ + ui::num(n as nat) + " chapters"@
            &&& a.book.is_epub && n > 0 && !start ==> labels::resume_line(a) =~= "Chapter "@
                + ui::num((a.chapter + 1) as nat) + " of "@ + ui::num(n as nat) + " \u{00B7} "@
                + ui::num(progress::progress(a) as nat) + "% read"@
            &&& a.book.is_epub && n == 0 && a.book.spine_hint == 0 && a.chapter == 0
                ==> labels::resume_line(a) == ""@
            &&& a.book.is_epub && n == 0 && a.book.spine_hint > 0 && a.chapter == 0
                ==> labels::resume_line(a) =~= ui::num(a.book.spine_hint as nat) + " chapters"@
            &&& a.book.is_epub && n == 0 && a.book.spine_hint > 0 && a.chapter > 0
                ==> labels::resume_line(a) =~= "Chapter "@ + ui::num((a.chapter + 1) as nat)
                + " of "@ + ui::num(a.book.spine_hint as nat)
            &&& !a.book.is_epub && a.book.file_size == 0 ==> labels::resume_line(a) == ""@
            &&& !a.book.is_epub && a.book.file_size > 0 ==> {
                &&& a.restore.page_hint matches Some(p) ==> p >= 1 ==> labels::resume_line(a)
                    =~= "Page "@ + ui::num((p + 1) as nat)
                &&& a.restore.page_hint is None || a.restore.page_hint->0 == 0
                    ==> labels::resume_line(a) =~= ui::num((a.book.file_size / 1024) as nat)
                    + " KB"@
            }
        }),
{
}

/// The sheet tells the pages of the book once every chapter is laid out, and
/// before that how many are not.
pub proof fn law_sheets_wait_for_all_chapters(a: ReaderApp, author: Seq<char>, i: int)
    requires
        a.wf(),
        author.len() > 0,
        0 <= i < a.book.spine_len,
    ensures
        ({
            let head = author + " \u{00B7} "@ + (ui::num(a.book.spine_len as nat) + " chapters"@);
            let unknown = labels::not_laid_out(a.contents.pages@, a.book.spine_len as int);
            &&& a.contents.pages@[i] == 0 ==> unknown > 0
            &&& unknown > 0 ==> labels::sheet_caption(a, author) =~= head + " \u{00B7} "@
                + ui::num(unknown as nat) + " not yet laid out"@
            &&& unknown == 0 ==> labels::sheet_caption(a, author) =~= head + " \u{00B7} "@
                + ui::num(
                progress::pages_before(a.contents.pages@, a.book.spine_len as int) as nat,
            ) + " pages"@
        }),
{
    lemma_unknown(a.contents.pages@, a.book.spine_len as int, i);
}

proof fn lemma_unknown(pages: Seq<u16>, n: int, i: int)
    requires
        0 <= i < n <= pages.len(),
    ensures
        0 <= labels::not_laid_out(pages, n) <= n,
        pages[i] == 0 ==> labels::not_laid_out(pages, n) > 0,
    decreases n,
{
    if n == 1 {
        assert(labels::not_laid_out(pages, 0) == 0);
    } else if i == n - 1 {
        lemma_unknown(pages, n - 1, 0);
    } else {
        lemma_unknown(pages, n - 1, i);
    }
}

/// Laying out one chapter more leaves one less to lay out.
pub proof fn law_laying_out_counts(pages: Seq<u16>, n: int, i: int, count: u16)
    requires
        0 <= i < n <= pages.len(),
        pages[i] == 0,
        count > 0,
    ensures
        labels::not_laid_out(pages.update(i, count), n) == labels::not_laid_out(pages, n) - 1,
    decreases n,
{
    if i == n - 1 {
        lemma_same(pages, pages.update(i, count), n - 1);
    } else {
        law_laying_out_counts(pages, n - 1, i, count);
    }
}

proof fn lemma_same(p: Seq<u16>, q: Seq<u16>, n: int)
    requires
        n <= p.len(),
        p.len() == q.len(),
        forall|k: int| 0 <= k < n ==> #[trigger] p[k] == q[k],
    ensures
        labels::not_laid_out(p, n) == labels::not_laid_out(q, n),
    decreases n,
{
    if n > 0 {
        lemma_same(p, q, n - 1);
    }
}

/// The row of the open chapter tells its page, that of another its pages, and a
/// dot stands for what is not known.
pub proof fn law_rows_tell_their_pages(a: ReaderApp, idx: int)
    requires
        a.wf(),
        0 <= idx < a.contents.toc@.len(),
    ensures
        ({
            let at = a.contents.toc@[idx].spine_idx;
            let here = at == a.chapter && at < 65535;
            &&& labels::is_here(a, idx) <==> here
            &&& here ==> labels::row_value(a, idx) =~= ui::num((a.pg.page + 1) as nat) + " / "@
                + ui::num(a.pg.offsets@.len())
            &&& !here && at < 256 && a.contents.pages@[at as int] > 0 ==> labels::row_value(a, idx)
                == ui::num(a.contents.pages@[at as int] as nat)
            &&& !here && (at >= 256 || a.contents.pages@[at as int] == 0) ==> labels::row_value(
                a,
                idx,
            ) == "\u{00B7}"@
        }),
{
}

// ── the contents sheet ───────────────────────────────────────────

/// A step on the sheet goes to the next entry and around its ends. A sheet that
/// need not scroll repaints the two rows, one that scrolls itself.
pub proof fn law_sheets_repaint_what_moved(c: Contents, rows: SheetRows, forward: bool)
    requires
        c.shown(rows),
        c.toc@.len() <= usize::MAX,
    ensures
        ({
            let (d, p) = contents::moved_by(c, forward, rows);
            let n = c.toc@.len() as int;
            let vis = rows.seen(c.expanded);
            &&& forward && c.selected + 1 < n ==> d.selected == c.selected + 1
            &&& forward && c.selected + 1 == n ==> d.selected == 0
            &&& !forward && c.selected > 0 ==> d.selected == c.selected - 1
            &&& !forward && c.selected == 0 ==> d.selected == n - 1
            &&& d.toc == c.toc && d.expanded == c.expanded
            &&& d.scroll == c.scroll ==> p == Paint::Rows(
                (c.selected - c.scroll) as usize,
                (d.selected - c.scroll) as usize,
            )
            &&& d.scroll != c.scroll ==> p == Paint::Sheet
            &&& c.scroll <= d.selected < c.scroll + vis && c.scroll + vis <= n ==> d.scroll
                == c.scroll
            &&& n <= vis ==> d.scroll == 0
        }),
{
}

// ── writing ──────────────────────────────────────────────────────

/// A forced flush stops the clock and writes all that is out of date, a plain
/// one only what is due. What the clock counted is written with it.
pub proof fn law_forced_flushes_write_all(a: ReadingLog, now: u32)
    ensures
        ({
            let (b, plan) = persist::flush_started(a, true, now);
            let counted = a.running && a.last_uptime < now < a.last_uptime + 600;
            &&& !b.running
            &&& b.stats.pages == a.stats.pages
            &&& counted ==> plan is Some && plan->0.record
            &&& a.dirty || a.recent_dirty ==> plan is Some
            &&& a.recent_dirty ==> plan->0.recent
            &&& a.dirty ==> plan->0.record
            &&& !a.dirty && !a.recent_dirty && !counted ==> plan is None
        }),
        ({
            let (b, plan) = persist::flush_started(a, false, now);
            let due = a.flush_at matches Some(t) && t <= now;
            &&& b == a
            &&& plan is Some <==> due && (a.dirty || a.recent_dirty)
        }),
{
}

/// A flush that failed is tried again in half a minute; one that did not is
/// over. What was written is up to date.
pub proof fn law_failed_flushes_are_tried_again(a: ReadingLog, wrote: bool, now: u32)
    requires
        now <= u32::MAX - 30,
    ensures
        persist::flush_ended(a, wrote, true, now).flush_at == Some((now + 30) as u32),
        persist::flush_ended(a, wrote, false, now).flush_at is None,
        !persist::flush_ended(a, true, false, now).recent_dirty,
        !persist::flush_ended(a, true, true, now).recent_dirty,
        persist::flush_ended(a, false, true, now).recent_dirty == a.recent_dirty,
        persist::flush_ended(a, wrote, true, now).dirty == a.dirty,
{
}

/// A record is written if it is out of date and a book is open. It holds the
/// place on screen, or the one that was written last, and the time that the
/// running clock counted.
pub proof fn law_records_hold_the_place(
    a: ReadingLog,
    here: Position,
    now: u32,
    named: bool,
)
    ensures
        persist::record_due(a, named, Some(here), now).1 is Some <==> a.dirty && named,
        a.dirty && named ==> {
            let shown = persist::record_due(a, named, Some(here), now).1->0;
            let last = persist::record_due(a, named, None, now).1->0;
            &&& shown.pos == Some(here)
            &&& last.pos == a.last_saved_pos
            &&& shown.stats == last.stats
            &&& shown.stats.pages == a.stats.pages
            &&& !a.running || now <= a.last_uptime || now >= a.last_uptime + 600
                ==> shown.stats.time_secs == a.stats.time_secs
            &&& a.running && a.last_uptime < now < a.last_uptime + 600 && a.stats.time_secs + now
                - a.last_uptime <= u32::MAX ==> shown.stats.time_secs == a.stats.time_secs + now
                - a.last_uptime
        },
        !(a.dirty && named) ==> persist::record_due(a, named, Some(here), now).0 == a,
{
}

// ── what the loading screen says ──────────────────────────────────

/// The stage names what is done: a book is opened or resumed, its chapter cached
/// and typeset, its page opened. An error comes before all of it.
pub proof fn law_stages_are_named(a: ReaderApp, size: Seq<char>)
    ensures
        ({
            let s = labels::stage_caption(a, size);
            let ch = ui::num((a.chapter + 1) as nat) + " OF "@ + ui::num(a.book.spine_len as nat);
            let opens = a.state == State::NeedBookmark || a.state == State::NeedInit || a.state
                == State::NeedOpf || a.state == State::NeedToc;
            &&& a.error is Some ==> s == "COULD NOT OPEN"@
            &&& a.error is None && opens && a.loading.reason == LoadingReason::Resume ==> s
                == "RESUMING"@
            &&& a.error is None && opens && a.loading.reason != LoadingReason::Resume ==> s
                == "OPENING"@
            &&& a.error is None && a.state == State::NeedCache && a.book.spine_len > 0 ==> s
                =~= "CACHING CHAPTER "@ + ch
            &&& a.error is None && a.state == State::NeedCache && a.book.spine_len == 0 ==> s
                == "CACHING"@
            &&& a.error is None && a.state == State::NeedIndex && a.typesetting.waits >= 1 ==> s
                == "WAITING FOR IMAGES"@
            &&& a.error is None && a.state == State::NeedIndex && a.typesetting.waits == 0 ==> {
                &&& a.loading.reason == LoadingReason::Font ==> s =~= "TYPESETTING \u{00B7} "@
                    + size
                &&& a.loading.reason != LoadingReason::Font && a.book.is_epub && a.book.spine_len
                    > 0 ==> s =~= "TYPESETTING CHAPTER "@ + ch
                &&& a.loading.reason != LoadingReason::Font && (!a.book.is_epub
                    || a.book.spine_len == 0) ==> s == "TYPESETTING"@
            }
            &&& a.error is None && a.state == State::NeedPage ==> s == "OPENING PAGE"@
        }),
{
}

/// The indicator counts chapters while they are cached, and images behind them.
pub proof fn law_the_indicator_counts(a: ReaderApp)
    requires
        a.wf(),
    ensures
        ({
            let s = labels::cache_caption(a);
            let n = progress::cached_chapters(a);
            let chapters = (a.cache.bg == BgCacheState::CacheChapter || a.cache.bg
                == BgCacheState::WaitNearbyImage) && n < a.book.spine_len;
            &&& chapters ==> s =~= "Caching "@ + ui::num(n as nat) + "/"@ + ui::num(
                a.book.spine_len as nat,
            )
            &&& !chapters && a.cache.img_found >= 1 ==> s =~= "Caching images "@ + ui::num(
                a.cache.img_cached as nat,
            ) + "/"@ + ui::num(a.cache.img_found as nat)
            &&& !chapters && a.cache.img_found == 0 ==> s == "Caching images"@
        }),
{
}

} // verus!
