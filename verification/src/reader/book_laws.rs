//! What holds of the open book: how it is entered, left and found again, and
//! what the rest of the device learns of it.

use vstd::prelude::*;

use crate::hash;
use crate::reader::lifecycle::{self, Resumed};
use crate::reader::look;
use crate::reader::persist;
use crate::reader::session::{self, BundleHead};
use crate::reader::state::{
    BgCacheState, Book, FontMetrics, LoadingReason, Look, Paint, ReaderApp, State,
};

verus! {

/// A book that is opened starts at its first page, with nothing of another book
/// left, and its name for a title until the real one is known.
pub proof fn law_books_open_clean(
    a: ReaderApp,
    b: ReaderApp,
    name: Seq<u8>,
    is_epub: bool,
    reason: LoadingReason,
)
    requires
        lifecycle::reopened(a, b, name, is_epub, reason),
    ensures
        b.state == State::NeedBookmark,
        b.pg.offsets@ == seq![0u32] && b.pg.page == 0 && !b.pg.fully_indexed,
        b.chapter == 0,
        b.book.filename@ == name && b.book.title@ == name && !b.book.title_is_real,
        b.book.is_epub == is_epub,
        forall|i: int| 0 <= i < 256 ==> !#[trigger] b.cache.done@[i],
        b.cache.bg == BgCacheState::Idle && b.cache.text_len == 0,
        b.loading.reason == reason && !b.loading.painted && b.loading.first_full,
        b.error is None && !b.goto_last_page && !b.show_position,
        !b.tasks.toc_parse && !b.tasks.title_save && !b.tasks.cover_thumb && !b.tasks.defer_once,
{
}

/// A book that was left keeps its place and its look. What was wanted of it is
/// dropped, and a change that never came on screen does not count; the cache of
/// a book with chapters rests.
pub proof fn law_left_books_keep_their_place(a: ReaderApp, b: ReaderApp, now: u32)
    requires
        lifecycle::left(a, b, now),
    ensures
        b.pg == a.pg && b.chapter == a.chapter && b.book == a.book && b.look == a.look,
        b.restore.offset is None && b.restore.page_hint is None,
        b.pending_change is None,
        !b.show_position && !b.has_cover,
        b.cache.text_len == 0 && b.cache.done == a.cache.done,
        a.book.is_epub ==> b.cache.bg == BgCacheState::Idle && b.contents.toc@.len() == 0,
        !a.book.is_epub ==> b.cache.bg == a.cache.bg && b.contents.toc == a.contents.toc,
        !b.log.running,
{
    reveal(persist::suspended);
}

/// Coming back shows the same page where nothing is out of date. Else the
/// chapter is laid out anew and the byte on top of the page found again, if a
/// page was on screen and no other place is wanted. Stored lines are dropped
/// only where the lines are out of date.
pub proof fn law_coming_back_finds_the_place(
    a: ReaderApp,
    b: ReaderApp,
    r: Resumed,
    m: Option<FontMetrics>,
    pct: u16,
    now: u32,
)
    requires
        lifecycle::came_back(a, b, r, m, pct, now),
        a.wf(),
    ensures
        ({
            let paged = a.state == State::NeedIndex || a.state == State::NeedPage || a.state
                == State::Ready || a.state == State::ShowToc;
            let on_screen = a.state == State::Ready || a.state == State::ShowToc;
            let anew = paged && (a.look.typeset_stale || a.look.pagination_stale);
            &&& !anew ==> b.state == a.state && b.pg == a.pg && b.restore == a.restore && r.paint
                == Paint::Page && !r.invalidate
            &&& anew ==> b.pg.offsets@.len() == 1 && b.pg.offsets@[0] == 0 && b.pg.page == 0
            &&& anew && on_screen && a.restore.offset is None ==> b.restore.offset == Some(
                a.pg.offsets@[a.pg.page as int],
            ) && b.restore.page_hint == Some(a.pg.page)
            &&& anew && a.restore.offset is Some ==> b.restore.offset == a.restore.offset
            &&& anew && a.book.is_epub && a.cache.ready ==> b.state == State::NeedIndex
            &&& anew && !(a.book.is_epub && a.cache.ready) ==> b.state == State::NeedPage
            &&& r.invalidate <==> anew && a.look.typeset_stale && a.book.is_epub
            &&& b.chapter == a.chapter && b.book == a.book
            &&& !b.look.typeset_stale && !b.look.pagination_stale
            &&& b.log.running && b.log.last_uptime == now && b.log.stats == a.log.stats
        }),
{
}

/// The look after coming back has its area from the theme, and its lines from
/// the font; nothing is out of date.
pub proof fn law_looks_are_laid_out(l: Look, m: Option<FontMetrics>, pct: u16)
    ensures
        ({
            let n = lifecycle::laid_out(l, m, pct);
            &&& n.chosen == l.chosen
            &&& n.area == look::area_of(l.chosen.theme, l.chosen.show_chrome)
            &&& n.fit == look::fit_of(n.area, m, pct)
            &&& !n.typeset_stale && !n.pagination_stale
        }),
{
}

/// Only another font size changes anything, and only the size. A page that is
/// read is laid out anew for it, behind the loading screen.
pub proof fn law_sizes_are_cycled(
    a: ReaderApp,
    id: u8,
    value: u8,
    m: Option<FontMetrics>,
    pct: u16,
)
    ensures
        ({
            let (b, p) = lifecycle::cycled(a, id, value, m, pct);
            let other = id == 1 && value != a.look.chosen.font_size_idx;
            &&& !other ==> b == a && p == Paint::Nothing
            &&& other ==> b.look.chosen.font_size_idx == value && b.look.area == a.look.area
                && b.look.fit == look::fit_of(a.look.area, m, pct)
            &&& other && a.state != State::Ready ==> b.state == a.state && p == Paint::Nothing
            &&& other && a.state == State::Ready ==> b.state == (if a.book.is_epub
                && a.cache.ready {
                State::NeedIndex
            } else {
                State::NeedPage
            }) && b.loading.painted && b.loading.reason == LoadingReason::Font && (p
                == Paint::LoadingArea || p == Paint::Full)
            &&& b.pg == a.pg && b.chapter == a.chapter
        }),
{
}

// ── what the device learns of the book ───────────────────────────

/// A book with chapters stands in by its own number, any other by the hash of
/// its name.
pub proof fn law_stand_ins_go_by_the_book(b: Book)
    ensures
        b.is_epub && b.name_hash != 0 ==> session::stand_in_id(b) == b.name_hash,
        !b.is_epub || b.name_hash == 0 ==> session::stand_in_id(b) == hash::fnv(b.filename@),
{
}

/// A stored head is believed if it is of a book of this name and complete; it
/// gives the number of chapters, and its title if it has one. A real title is
/// never replaced, and a text has no head.
pub proof fn law_heads_are_believed(b: Book, h: BundleHead)
    ensures
        ({
            let n = session::headed(b, h);
            let ours = b.is_epub && !b.title_is_real && h.core_ready && h.name_hash == hash::fnv(
                b.filename@,
            );
            &&& !ours ==> n == b
            &&& ours ==> n.spine_hint == h.spine_count
            &&& ours && h.title@.len() > 0 ==> n.title == h.title && n.title_is_real
            &&& ours && h.title@.len() == 0 ==> n.title == b.title && !n.title_is_real
            &&& n.filename == b.filename && n.spine_len == b.spine_len
        }),
{
}

/// A title is noted once: when it is real, has a file, and is not the one that
/// is known already.
pub proof fn law_titles_are_noted_once(b: Book, known: Seq<u8>)
    ensures
        session::title_is_new(b, Some(known)) ==> known != b.title@,
        !session::title_is_new(b, Some(b.title@)),
        session::title_is_new(b, None) <==> b.title_is_real && b.title@.len() > 0
            && b.filename@.len() > 0,
        !b.title_is_real ==> !session::title_is_new(b, Some(known)),
{
}

/// The pages of a text are told once all are known, counted from 1.
pub proof fn law_known_pages_are_told(a: ReaderApp)
    requires
        a.wf(),
    ensures
        !a.pg.fully_indexed ==> session::text_pages(a) is None,
        a.pg.fully_indexed ==> session::text_pages(a) == Some(
            ((a.pg.page + 1) as u32, a.pg.offsets@.len() as u32),
        ),
        session::text_pages(a) matches Some((p, n)) ==> 1 <= p <= n <= 512,
{
}

/// A chapter has a layout if its pages are known or stored, and needs none if
/// the book has no such chapter. Stored counts are taken over only where the
/// chapter's own is not known.
pub proof fn law_layouts_are_known_by_their_pages(a: ReaderApp, stored: Seq<u16>, i: int)
    requires
        a.wf(),
        a.book.spine_len <= stored.len(),
        0 <= i < 256,
    ensures
        ({
            let (pages, there) = session::layout_sought(a, stored);
            let ch = a.chapter as int;
            &&& ch >= a.book.spine_len ==> there && pages == a.contents.pages@
            &&& ch < a.book.spine_len && a.contents.pages@[ch] > 0 ==> there && pages
                == a.contents.pages@
            &&& ch < a.book.spine_len && a.contents.pages@[ch] == 0 ==> {
                &&& there <==> stored[ch] > 0
                &&& i < a.book.spine_len ==> pages[i] == stored[i]
                &&& i >= a.book.spine_len ==> pages[i] == a.contents.pages@[i]
            }
        }),
{
}

} // verus!
