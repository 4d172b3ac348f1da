//! Entering a book, leaving it, and coming back to it.

use crate::book_record::ReadingStats;
use crate::bytes;
use crate::reader::clock::LoadingClock;
use crate::reader::index::PageIndex;
use crate::reader::look;
use crate::reader::persist;
use crate::reader::persist::ReadingLog;
use crate::reader::screen;
use crate::reader::state::{
    BgCacheState, Book, Cache, Choices, Contents, FontMetrics, LineFit, Loading, LoadingReason, Look,
    OpenTasks, Paint, PendingPositionChange, ReaderApp, ReadingTheme, Restore, State, TextArea,
    Typesetting, LINE_H, MARGIN, MAX_CACHE_CHAPTERS, MAX_SPINE, TEXT_AREA_H, TEXT_W, TEXT_Y,
};
use crate::reader::turning::QA_FONT_SIZE;
use crate::reader::wrap::LINES_PER_PAGE;
use vstd::prelude::*;

verus! {

fn all_false(n: usize) -> (v: Vec<bool>)
    ensures
        v@ == Seq::new(n as nat, |i: int| false),
{
    let mut v: Vec<bool> = Vec::new();
    let mut i: usize = 0;
    while i < n
        invariant
            i <= n,
            v@ =~= Seq::new(i as nat, |k: int| false),
        decreases n - i,
    {
        v.push(false);
        i = i + 1;
    }
    v
}

fn all_zero(n: usize) -> (v: Vec<u16>)
    ensures
        v@ == Seq::new(n as nat, |i: int| 0u16),
{
    let mut v: Vec<u16> = Vec::new();
    let mut i: usize = 0;
    while i < n
        invariant
            i <= n,
            v@ =~= Seq::new(i as nat, |k: int| 0u16),
        decreases n - i,
    {
        v.push(0);
        i = i + 1;
    }
    v
}

pub open spec fn no_restore() -> Restore {
    Restore { offset: None, page_hint: None, pending: None, anchor: None, fmt: 0, layout_key: 0 }
}

pub open spec fn no_tasks() -> OpenTasks {
    OpenTasks { defer_once: false, toc_parse: false, title_save: false, cover_thumb: false }
}

fn nothing_to_restore() -> (r: Restore)
    ensures
        r == no_restore(),
{
    Restore { offset: None, page_hint: None, pending: None, anchor: None, fmt: 0, layout_key: 0 }
}

fn nothing_to_do() -> (t: OpenTasks)
    ensures
        t == no_tasks(),
{
    OpenTasks { defer_once: false, toc_parse: false, title_save: false, cover_thumb: false }
}

impl ReaderApp {
    /// A reader without a book.
    pub fn new() -> (a: ReaderApp)
        ensures
            a.wf(),
            a.in_book(),
            a.look.wf(),
            a.state == State::NeedPage,
            a.book == (Book {
                filename: a.book.filename,
                title: a.book.title,
                title_is_real: false,
                is_epub: false,
                file_size: 0,
                spine_len: 0,
                spine_hint: 0,
                name_hash: 0,
                archive_size: 0,
                content_fmt: 0,
            }),
            a.book.filename@.len() == 0,
            a.book.title@.len() == 0,
            a.pg.is_fresh(),
            a.chapter == 0,
            a.cache == (Cache {
                ready: false,
                done: a.cache.done,
                open: false,
                next: 0,
                text_len: 0,
                bg: BgCacheState::Idle,
                img_found: 0,
                img_cached: 0,
                ui_stale: false,
            }),
            a.cache.done@ == Seq::new(MAX_CACHE_CHAPTERS as nat, |i: int| false),
            a.contents == (Contents {
                toc: a.contents.toc,
                selected: 0,
                scroll: 0,
                expanded: false,
                pages: a.contents.pages,
                pages_stale: false,
                open_on_ready: false,
            }),
            a.contents.toc@.len() == 0,
            a.contents.pages@ == Seq::new(MAX_SPINE as nat, |i: int| 0u16),
            a.look.chosen == (Choices {
                theme_idx: 0,
                theme: ReadingTheme { margin_h: MARGIN, margin_v: 0 },
                line_spacing_idx: 0,
                show_chrome: true,
                text_alignment: 0,
                font_size_idx: 0,
                font: 0,
                ui_font_idx: 1,
            }),
            a.look.fit == (LineFit {
                line_h: LINE_H,
                ascent: LINE_H,
                max_lines: LINES_PER_PAGE as u8,
            }),
            !a.look.typeset_stale,
            !a.look.pagination_stale,
            a.loading == (Loading {
                reason: LoadingReason::Open,
                painted: false,
                first_full: false,
            }),
            a.typesetting == (Typesetting { waits: 0, retry_ch: 0 }),
            a.error is None,
            a.restore == no_restore(),
            a.tasks == no_tasks(),
            a.pending_change is None,
            !a.show_position,
            !a.goto_last_page,
            !a.has_cover,
            !a.defer_image_decode,
            a.log == (ReadingLog {
                stats: ReadingStats { pages: 0, time_secs: 0, sessions: 0 },
                last_uptime: 0,
                running: false,
                dirty: false,
                recent_dirty: false,
                day_pages: 0,
                day_secs: 0,
                flush_at: None,
                record_seq: 0,
                last_saved_pos: None,
            }),
    {
        ReaderApp {
            book: Book {
                filename: Vec::new(),
                title: Vec::new(),
                title_is_real: false,
                is_epub: false,
                file_size: 0,
                spine_len: 0,
                spine_hint: 0,
                name_hash: 0,
                archive_size: 0,
                content_fmt: 0,
            },
            pg: PageIndex::new(),
            chapter: 0,
            cache: Cache {
                ready: false,
                done: all_false(MAX_CACHE_CHAPTERS),
                open: false,
                next: 0,
                text_len: 0,
                bg: BgCacheState::Idle,
                img_found: 0,
                img_cached: 0,
                ui_stale: false,
            },
            contents: Contents {
                toc: Vec::new(),
                selected: 0,
                scroll: 0,
                expanded: false,
                pages: all_zero(MAX_SPINE),
                pages_stale: false,
                open_on_ready: false,
            },
            log: ReadingLog {
                stats: ReadingStats { pages: 0, time_secs: 0, sessions: 0 },
                last_uptime: 0,
                running: false,
                dirty: false,
                recent_dirty: false,
                day_pages: 0,
                day_secs: 0,
                flush_at: None,
                record_seq: 0,
                last_saved_pos: None,
            },
            restore: nothing_to_restore(),
            look: Look {
                chosen: Choices {
                    theme_idx: 0,
                    theme: ReadingTheme { margin_h: MARGIN, margin_v: 0 },
                    line_spacing_idx: 0,
                    show_chrome: true,
                    text_alignment: 0,
                    font_size_idx: 0,
                    font: 0,
                    ui_font_idx: 1,
                },
                area: TextArea { margin: MARGIN, y: TEXT_Y, w: TEXT_W, h: TEXT_AREA_H },
                fit: LineFit { line_h: LINE_H, ascent: LINE_H, max_lines: LINES_PER_PAGE as u8 },
                typeset_stale: false,
                pagination_stale: false,
            },
            loading: Loading { reason: LoadingReason::Open, painted: false, first_full: false },
            tasks: nothing_to_do(),
            typesetting: Typesetting { waits: 0, retry_ch: 0 },
            state: State::NeedPage,
            error: None,
            show_position: false,
            goto_last_page: false,
            pending_change: None,
            has_cover: false,
            defer_image_decode: false,
        }
    }
}

// ── opening ───────────────────────────────────────────────────────

/// The log at the start of a book.
pub open spec fn fresh_log(l: ReadingLog, now: u32) -> ReadingLog {
    ReadingLog {
        last_uptime: now,
        running: false,
        dirty: false,
        recent_dirty: false,
        flush_at: None,
        last_saved_pos: None,
        ..l
    }
}

/// The look with its text area and lines laid out anew, and nothing out of
/// date.
pub open spec fn laid_out(l: Look, m: Option<FontMetrics>, spacing_pct: u16) -> Look {
    let area = look::area_of(l.chosen.theme, l.chosen.show_chrome);
    Look {
        area,
        fit: look::fit_of(area, m, spacing_pct),
        typeset_stale: false,
        pagination_stale: false,
        ..l
    }
}

/// What opening a book and waking up in one have in common: `b` is the reader
/// `a` with the file `name` open at its start and all work on another book
/// dropped.
pub open spec fn reopened(
    a: ReaderApp,
    b: ReaderApp,
    name: Seq<u8>,
    is_epub: bool,
    reason: LoadingReason,
) -> bool {
    &&& b.wf()
    &&& b.book == (Book {
        filename: b.book.filename,
        title: b.book.title,
        title_is_real: false,
        is_epub,
        file_size: 0,
        spine_hint: 0,
        ..a.book
    })
    &&& b.book.filename@ == name
    &&& b.book.title@ == name
    &&& b.pg.is_fresh()
    &&& b.chapter == 0
    &&& b.cache == (Cache {
        done: b.cache.done,
        bg: BgCacheState::Idle,
        text_len: 0,
        ui_stale: false,
        ..a.cache
    })
    &&& b.cache.done@ == Seq::new(MAX_CACHE_CHAPTERS as nat, |i: int| false)
    &&& b.tasks == no_tasks()
    &&& b.state == State::NeedBookmark
    &&& b.loading == (Loading { reason, painted: false, first_full: true })
    &&& b.error is None
    &&& !b.show_position
    &&& !b.goto_last_page
    &&& !b.has_cover
    &&& b.defer_image_decode
    &&& b.typesetting == a.typesetting
}

/// `a` woke up in a book as `b`.
pub open spec fn restored(
    a: ReaderApp,
    b: ReaderApp,
    name: Seq<u8>,
    is_epub: bool,
    font_size: u8,
    m: Option<FontMetrics>,
    spacing_pct: u16,
    now: u32,
) -> bool {
    &&& reopened(a, b, name, is_epub, LoadingReason::Resume)
    &&& b.contents == a.contents
    &&& b.restore == (Restore {
        offset: None,
        page_hint: None,
        pending: None,
        anchor: None,
        ..a.restore
    })
    &&& b.look == laid_out(
        Look { chosen: Choices { font_size_idx: font_size, ..a.look.chosen }, ..a.look },
        m,
        spacing_pct,
    )
    &&& b.log == fresh_log(a.log, now)
    &&& b.pending_change == Some(PendingPositionChange::RestoreReady)
}

/// The reader `a` left its book as `b`.
pub open spec fn left(a: ReaderApp, b: ReaderApp, now: u32) -> bool {
    &&& b == (ReaderApp {
        cache: Cache {
            bg: if a.book.is_epub {
                BgCacheState::Idle
            } else {
                a.cache.bg
            },
            text_len: 0,
            ..a.cache
        },
        contents: Contents { toc: b.contents.toc, ..a.contents },
        log: persist::suspended(a.log, now),
        restore: Restore { offset: None, page_hint: None, ..a.restore },
        pending_change: None,
        tasks: no_tasks(),
        has_cover: false,
        show_position: false,
        ..a
    })
    &&& if a.book.is_epub {
        b.contents.toc@.len() == 0
    } else {
        b.contents.toc == a.contents.toc
    }
}

impl ReaderApp {
    /// Drop the book that was open, and open `name` at its start.
    fn reopen(
        &mut self,
        name: Vec<u8>,
        is_epub: bool,
        reason: LoadingReason,
        m: Option<FontMetrics>,
        spacing_pct: u16,
        now: u32,
        clock: &mut LoadingClock,
    )
        requires
            old(self).wf(),
            old(self).look.chosen.theme.fits(),
            look::measurable(m, spacing_pct),
        ensures
            reopened(*old(self), *final(self), name@, is_epub, reason),
            final(self).contents == old(self).contents,
            final(self).restore == old(self).restore,
            final(self).look == laid_out(old(self).look, m, spacing_pct),
            final(self).log == fresh_log(old(self).log, now),
            final(self).pending_change == old(self).pending_change,
    {
        self.book.title = bytes::copied(name.as_slice());
        self.book.filename = name;
        self.book.title_is_real = false;
        self.book.is_epub = is_epub;
        self.book.file_size = 0;
        self.book.spine_hint = 0;
        self.cache.bg = BgCacheState::Idle;
        self.cache.done = all_false(MAX_CACHE_CHAPTERS);
        self.cache.text_len = 0;
        self.cache.ui_stale = false;
        self.look.apply_theme_layout();
        self.look.typeset_stale = false;
        self.look.pagination_stale = false;
        self.look.apply_font_metrics(m, spacing_pct);
        self.pg.reset();
        self.chapter = 0;
        self.error = None;
        self.show_position = false;
        self.defer_image_decode = true;
        self.goto_last_page = false;
        self.tasks = nothing_to_do();
        self.has_cover = false;
        self.log.recent_dirty = false;
        self.log.flush_at = None;
        self.log.last_saved_pos = None;
        self.log.last_uptime = now;
        self.log.dirty = false;
        self.log.running = false;
        self.state = State::NeedBookmark;
        self.loading.reason = reason;
        self.loading.painted = false;
        self.loading.first_full = true;
        clock.restart();
    }

    /// Open a book: `name` is its file, and its contents sheet opens with it
    /// if `open_contents` says so.
    pub fn on_enter(
        &mut self,
        name: Vec<u8>,
        is_epub: bool,
        open_contents: bool,
        m: Option<FontMetrics>,
        spacing_pct: u16,
        now: u32,
        clock: &mut LoadingClock,
    )
        requires
            old(self).wf(),
            old(self).look.chosen.theme.fits(),
            look::measurable(m, spacing_pct),
        ensures
            reopened(*old(self), *final(self), name@, is_epub, LoadingReason::Open),
            final(self).contents == (Contents {
                open_on_ready: open_contents,
                expanded: false,
                pages: final(self).contents.pages,
                ..old(self).contents
            }),
            final(self).contents.pages@ == Seq::new(MAX_SPINE as nat, |i: int| 0u16),
            final(self).restore == no_restore(),
            final(self).look == laid_out(old(self).look, m, spacing_pct),
            final(self).log == (ReadingLog { record_seq: 0, ..fresh_log(old(self).log, now) }),
            final(self).pending_change == Some(PendingPositionChange::OpenReady),
    {
        self.reopen(name, is_epub, LoadingReason::Open, m, spacing_pct, now, clock);
        self.contents.open_on_ready = open_contents;
        self.contents.expanded = false;
        self.contents.pages = all_zero(MAX_SPINE);
        self.restore = nothing_to_restore();
        self.log.record_seq = 0;
        self.pending_change = Some(PendingPositionChange::OpenReady);
    }

    /// Wake up in a book. Its place comes from its record, which was written
    /// before the device went to sleep.
    pub fn restore_state(
        &mut self,
        name: Vec<u8>,
        is_epub: bool,
        font_size: u8,
        m: Option<FontMetrics>,
        spacing_pct: u16,
        now: u32,
        clock: &mut LoadingClock,
    )
        requires
            old(self).wf(),
            old(self).look.chosen.theme.fits(),
            look::measurable(m, spacing_pct),
        ensures
            restored(
                *old(self),
                *final(self),
                name@,
                is_epub,
                font_size,
                m,
                spacing_pct,
                now,
            ),
    {
        self.look.chosen.font_size_idx = font_size;
        self.reopen(name, is_epub, LoadingReason::Resume, m, spacing_pct, now, clock);
        self.restore.offset = None;
        self.restore.page_hint = None;
        self.restore.pending = None;
        self.restore.anchor = None;
        self.pending_change = Some(PendingPositionChange::RestoreReady);
    }

    /// Leave the book. What is to be written stays so: it is flushed before,
    /// and tried again later where that failed.
    pub fn on_exit(&mut self, now: u32)
        ensures
            left(*old(self), *final(self), now),
    {
        if self.book.is_epub {
            self.cache.bg = BgCacheState::Idle;
            self.contents.toc = Vec::new();
        }
        self.cache.text_len = 0;
        self.log.suspend(now);
        self.restore.offset = None;
        self.restore.page_hint = None;
        self.pending_change = None;
        self.tasks = nothing_to_do();
        self.has_cover = false;
        self.show_position = false;
    }

    /// Free what the device can load again after sleep.
    pub fn on_pre_sleep(&mut self)
        ensures
            *final(self) == (ReaderApp {
                cache: Cache { text_len: 0, ..old(self).cache },
                contents: Contents { toc: final(self).contents.toc, ..old(self).contents },
                has_cover: false,
                ..*old(self)
            }),
            final(self).contents.toc@.len() == 0,
    {
        self.cache.text_len = 0;
        self.contents.toc = Vec::new();
        self.has_cover = false;
    }
}

// ── coming back ───────────────────────────────────────────────────

/// There are pages, or they are about to be made.
pub open spec fn has_pages(s: State) -> bool {
    s == State::NeedIndex || s == State::NeedPage || s == State::Ready || s == State::ShowToc
}

/// A page is on screen.
pub open spec fn reading(s: State) -> bool {
    s == State::Ready || s == State::ShowToc
}

/// Where a new layout starts: a cached book is indexed, a text is filled page
/// by page.
pub open spec fn relayout_state(a: ReaderApp) -> State {
    if a.book.is_epub && a.cache.ready {
        State::NeedIndex
    } else {
        State::NeedPage
    }
}

/// The place to find again after a new layout: the page on screen, unless
/// another place is wanted.
pub open spec fn held_place(a: ReaderApp) -> Restore {
    if a.restore.offset is None && reading(a.state) {
        Restore { offset: Some(a.pg.here()), page_hint: Some(a.pg.page), ..a.restore }
    } else {
        a.restore
    }
}

/// What coming back to the book comes to.
#[derive(Clone, Copy, Debug, PartialEq, Eq, Structural)]
pub struct Resumed {
    pub paint: Paint,
    /// the stored layout of the book is out of date
    pub invalidate: bool,
}

/// The reader `a` came back as `b`, with `r`.
pub open spec fn came_back(
    a: ReaderApp,
    b: ReaderApp,
    r: Resumed,
    m: Option<FontMetrics>,
    spacing_pct: u16,
    now: u32,
) -> bool {
    let anew = (a.look.typeset_stale || a.look.pagination_stale) && has_pages(a.state);
    let first = a.loading.first_full;
    &&& b.wf()
    &&& b.look == laid_out(a.look, m, spacing_pct)
    &&& b.log == persist::clock_started(a.log, now)
    &&& anew ==> {
        &&& b == (ReaderApp {
            look: b.look,
            log: b.log,
            pg: b.pg,
            restore: held_place(a),
            state: relayout_state(a),
            loading: Loading { reason: LoadingReason::Font, painted: true, first_full: false },
            ..a
        })
        &&& b.pg.is_fresh()
        &&& r == (Resumed {
            paint: if first {
                Paint::Full
            } else {
                Paint::Page
            },
            invalidate: a.look.typeset_stale && a.book.is_epub,
        })
    }
    &&& !anew ==> {
        &&& b == (ReaderApp { look: b.look, log: b.log, ..a })
        &&& r == (Resumed { paint: Paint::Page, invalidate: false })
    }
}

/// The reader after the row `id` of the quick menu took the value `value`, and
/// what is painted.
pub open spec fn cycled(
    a: ReaderApp,
    id: u8,
    value: u8,
    m: Option<FontMetrics>,
    spacing_pct: u16,
) -> (ReaderApp, Paint) {
    let sized = ReaderApp {
        look: Look {
            chosen: Choices { font_size_idx: value, ..a.look.chosen },
            fit: look::fit_of(a.look.area, m, spacing_pct),
            ..a.look
        },
        ..a
    };
    let (loading, paint) = screen::put_up(screen::begun(a.loading, LoadingReason::Font));
    if id != QA_FONT_SIZE || value == a.look.chosen.font_size_idx {
        (a, Paint::Nothing)
    } else if a.state != State::Ready {
        (sized, Paint::Nothing)
    } else {
        (ReaderApp { state: relayout_state(a), loading, ..sized }, paint)
    }
}

impl ReaderApp {
    fn is_reading(&self) -> (b: bool)
        ensures
            b == reading(self.state),
    {
        match self.state {
            State::Ready => true,
            State::ShowToc => true,
            _ => false,
        }
    }

    fn relayout(&self) -> (s: State)
        ensures
            s == relayout_state(*self),
    {
        if self.book.is_epub && self.cache.ready {
            State::NeedIndex
        } else {
            State::NeedPage
        }
    }

    fn hold_place(&mut self)
        requires
            old(self).wf(),
        ensures
            *final(self) == (ReaderApp { restore: held_place(*old(self)), ..*old(self) }),
    {
        if self.restore.offset.is_none() && self.is_reading() {
            self.restore.offset = Some(self.pg.byte_offset());
            self.restore.page_hint = Some(self.pg.page);
        }
    }

    /// Come back to the book. A look that changed meanwhile lays the chapter
    /// out anew, and finds the place again by its byte. The stored layout is
    /// dropped only where line breaks moved: other pages are made from the
    /// stored lines.
    pub fn on_resume(
        &mut self,
        m: Option<FontMetrics>,
        spacing_pct: u16,
        now: u32,
        clock: &mut LoadingClock,
    ) -> (r: Resumed)
        requires
            old(self).wf(),
            old(self).look.chosen.theme.fits(),
            look::measurable(m, spacing_pct),
        ensures
            came_back(*old(self), *final(self), r, m, spacing_pct, now),
    {
        self.log.stats_resume_clock(now);
        let typeset_changed: bool = self.look.typeset_stale;
        let changed: bool = typeset_changed || self.look.pagination_stale;
        self.look.apply_theme_layout();
        self.look.apply_font_metrics(m, spacing_pct);
        self.look.typeset_stale = false;
        self.look.pagination_stale = false;
        let indexed: bool = match self.state {
            State::NeedIndex => true,
            State::NeedPage => true,
            State::Ready => true,
            State::ShowToc => true,
            _ => false,
        };
        if !(changed && indexed) {
            return Resumed { paint: Paint::Page, invalidate: false };
        }
        self.hold_place();
        self.pg.reset();
        self.state = self.relayout();
        self.begin_loading(LoadingReason::Font, clock);
        let p: Paint = self.loading.paint();
        Resumed {
            paint: match p {
                Paint::Full => Paint::Full,
                _ => Paint::Page,
            },
            invalidate: typeset_changed && self.book.is_epub,
        }
    }

    /// A value of the quick menu changed: another font size lays the chapter
    /// out anew.
    pub fn on_quick_cycle_update(
        &mut self,
        id: u8,
        value: u8,
        m: Option<FontMetrics>,
        spacing_pct: u16,
        clock: &mut LoadingClock,
    ) -> (p: Paint)
        requires
            look::measurable(m, spacing_pct),
        ensures
            (*final(self), p) == cycled(*old(self), id, value, m, spacing_pct),
    {
        if id != QA_FONT_SIZE || value == self.look.chosen.font_size_idx {
            return Paint::Nothing;
        }
        self.look.chosen.font_size_idx = value;
        self.look.apply_font_metrics(m, spacing_pct);
        if self.state == State::Ready {
            self.state = self.relayout();
            self.begin_loading(LoadingReason::Font, clock);
            self.loading.paint()
        } else {
            Paint::Nothing
        }
    }
}

/// A new layout finds the place again: coming back with another look, the
/// reader opens at the byte that was on top of the page, unless it was on its
/// way to another place.
pub proof fn law_relayout_keeps_the_place(a: ReaderApp)
    requires
        a.wf(),
        reading(a.state),
        a.restore.offset is None,
    ensures
        held_place(a).offset == Some(a.pg.here()),
{
}

} // verus!
