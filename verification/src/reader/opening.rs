//! Opening a book, step by step: which work comes next, and what its outcome
//! changes. The work itself reads the card and is done by the caller.

use crate::book_record::{BookRecord, Position};
use crate::markup::Anchor;
use crate::nav::BgOutcome;
use crate::reader::contents;
use crate::reader::contents::SheetRows;
use crate::reader::index;
use crate::reader::index::PageIndex;
use crate::reader::persist;
use crate::reader::screen;
use crate::reader::state::{
    BgCacheState, Book, Cache, Contents, Indicator, OpenTasks, Paint, ReaderApp, Restore, State,
    Typesetting, MAX_CACHE_CHAPTERS, MAX_SPINE,
};
use vstd::prelude::*;

verus! {

/// Work that is to be done next.
#[derive(Clone, Copy, Debug, PartialEq, Eq, Structural)]
pub enum Work {
    /// the step is over
    Return(BgOutcome),
    /// read the book's record and its old bookmarks
    LoadRecord,
    OpenZip,
    ParseOpf,
    LoadToc,
    CheckCache,
    /// start adding the open chapter to the cache
    CacheBegin,
    /// go on with it
    CacheStep,
    /// hand an image near the page to the decoder
    DispatchNearby,
    /// see whether the chapter has a stored layout
    AskLayout,
    /// index the open chapter; `fresh` where its text is not loaded yet
    Index { fresh: bool, last: bool },
    /// take an image from the decoder, if one is done
    TakeImage,
    /// go to the last page
    ScanToEnd,
    /// find the byte of an anchor
    ResolveAnchor(Anchor),
    /// load the page; while it is looked for, up to the byte `seek`
    LoadPage { seek: Option<u32> },
    /// count the pages of every chapter
    RefreshPages,
    SaveTitle,
    MakeCover,
    /// one step of caching in the background
    StepCache,
}

/// What a step asks for.
#[derive(Clone, Copy, Debug, PartialEq, Eq, Structural)]
pub struct Step {
    pub paint: Paint,
    /// the stage row is to be painted
    pub stage: bool,
    pub indicator: Indicator,
    pub work: Work,
}

/// A step that changes nothing on screen.
pub open spec fn quiet(work: Work) -> Step {
    Step { paint: Paint::Nothing, stage: false, indicator: Indicator::Keep, work }
}

pub fn quiet_step(work: Work) -> (s: Step)
    ensures
        s == quiet(work),
{
    Step { paint: Paint::Nothing, stage: false, indicator: Indicator::Keep, work }
}

pub open spec fn more() -> Work {
    Work::Return(BgOutcome::Progress { more: true })
}

/// A step that ends, with a new stage of loading.
pub open spec fn next_stage(a: ReaderApp) -> Step {
    Step {
        stage: a.loading.painted && screen::is_loading(a.state),
        ..quiet(more())
    }
}

// ── endings ───────────────────────────────────────────────────────

/// The book could not be opened: the clock stops, and the error is shown.
#[verifier::opaque]
pub open spec fn failed(a: ReaderApp, e: u16, now: u32) -> (ReaderApp, Step) {
    let (loading, paint) = screen::page_up(a.loading);
    (
        ReaderApp {
            cache: Cache { open: false, ..a.cache },
            log: persist::suspended(a.log, now),
            pending_change: None,
            error: Some(e),
            state: State::Error,
            loading,
            ..a
        },
        Step { paint, indicator: Indicator::Clear, ..quiet(more()) },
    )
}

/// Work waits for the first page to be on screen.
pub open spec fn tasks_wait(t: OpenTasks) -> bool {
    t.toc_parse || t.title_save || t.cover_thumb
}

/// The contents sheet is opened with the page.
pub open spec fn opens_with_page(a: ReaderApp) -> bool {
    a.contents.open_on_ready && a.book.is_epub && a.contents.toc@.len() > 0
}

/// The contents sheet behind a page that is ready.
pub open spec fn ready_contents(a: ReaderApp, rows: SheetRows) -> Contents {
    let c = Contents { pages_stale: true, open_on_ready: false, ..a.contents };
    if opens_with_page(a) {
        contents::opened(c, a.chapter, rows)
    } else {
        c
    }
}

/// The page is loaded: it is shown, and the change that led to it counts.
#[verifier::opaque]
pub open spec fn ready(a: ReaderApp, rows: SheetRows, now: u32) -> (ReaderApp, Step) {
    let (loading, paint) = screen::page_up(a.loading);
    (
        ReaderApp {
            defer_image_decode: false,
            state: if opens_with_page(a) {
                State::ShowToc
            } else {
                State::Ready
            },
            tasks: OpenTasks {
                defer_once: a.tasks.defer_once || tasks_wait(a.tasks),
                ..a.tasks
            },
            contents: ready_contents(a, rows),
            pending_change: None,
            log: match a.pending_change {
                Some(change) => persist::committed(a.log, change, now),
                None => a.log,
            },
            loading,
            ..a
        },
        Step { paint, indicator: Indicator::Clear, ..quiet(more()) },
    )
}

impl ReaderApp {
    /// Show an error in place of the book.
    pub fn enter_error(&mut self, e: u16, now: u32) -> (s: Step)
        ensures
            (*final(self), s) == failed(*old(self), e, now),
    {
        proof {
            reveal(failed);
        }
        self.log.suspend(now);
        self.cache.open = false;
        self.pending_change = None;
        self.error = Some(e);
        self.state = State::Error;
        let paint: Paint = self.loading.page_ready();
        Step {
            paint,
            stage: false,
            indicator: Indicator::Clear,
            work: Work::Return(BgOutcome::Progress { more: true }),
        }
    }

    pub fn has_pending_open_work(&self) -> (b: bool)
        ensures
            b == tasks_wait(self.tasks),
    {
        self.tasks.toc_parse || self.tasks.title_save || self.tasks.cover_thumb
    }

    fn ready_sheet(&mut self, rows: SheetRows)
        ensures
            *final(self) == (ReaderApp {
                contents: ready_contents(*old(self), rows),
                state: if opens_with_page(*old(self)) {
                    State::ShowToc
                } else {
                    State::Ready
                },
                ..*old(self)
            }),
    {
        self.state = State::Ready;
        self.contents.pages_stale = true;
        if self.contents.open_on_ready {
            self.contents.open_on_ready = false;
            let _p: Paint = self.open_contents(rows);
        }
    }

    /// Show the page that was loaded.
    pub fn finish_ready_transition(&mut self, rows: SheetRows, now: u32) -> (s: Step)
        ensures
            (*final(self), s) == ready(*old(self), rows, now),
    {
        proof {
            reveal(ready);
        }
        self.ready_sheet(rows);
        self.defer_image_decode = false;
        if self.has_pending_open_work() {
            self.tasks.defer_once = true;
        }
        if let Some(change) = self.pending_change {
            self.pending_change = None;
            self.log.commit_position_change(change, now);
        }
        let paint: Paint = self.loading.page_ready();
        Step {
            paint,
            stage: false,
            indicator: Indicator::Clear,
            work: Work::Return(BgOutcome::Progress { more: true }),
        }
    }
}

// ── the start of a step ───────────────────────────────────────────

/// The chapter that is open is not in the cache yet.
pub open spec fn chapter_missing(a: ReaderApp) -> bool {
    a.book.is_epub && a.cache.ready && !a.cache.done@[a.chapter as int]
}

/// The indicator that could not be painted before, painted now.
pub open spec fn caught_up(c: Cache, can_paint: bool) -> (Cache, Indicator) {
    if c.ui_stale && can_paint {
        (
            Cache { ui_stale: false, ..c },
            if c.bg == BgCacheState::Idle {
                Indicator::Clear
            } else {
                Indicator::Caching
            },
        )
    } else {
        (c, Indicator::Keep)
    }
}

/// Work that adds the open chapter to the cache.
pub open spec fn cache_chapter_work(a: ReaderApp) -> Work {
    if a.cache.open {
        Work::CacheStep
    } else {
        Work::CacheBegin
    }
}

/// Indexing starts. A chapter that waited for memory goes on where it was; any
/// other one is loaded anew.
pub open spec fn index_started(a: ReaderApp) -> (ReaderApp, Work) {
    let retrying = a.typesetting.waits > 0 && a.typesetting.retry_ch == a.chapter;
    (
        ReaderApp {
            goto_last_page: false,
            typesetting: Typesetting {
                waits: if retrying {
                    a.typesetting.waits
                } else {
                    0
                },
                ..a.typesetting
            },
            ..a
        },
        Work::Index { fresh: !retrying, last: a.goto_last_page },
    )
}

/// The chapter is there: see whether it has a layout, so that a slow typeset
/// is announced, or index it.
pub open spec fn index_work(a: ReaderApp) -> (ReaderApp, Work) {
    if !a.loading.painted && a.book.is_epub {
        (a, Work::AskLayout)
    } else {
        index_started(a)
    }
}

/// The byte and the page where the book is to open, once its form is known: a
/// page hint holds only under the layout that it was counted under.
pub open spec fn settled_restore(r: Restore, layout_hash: u32) -> Restore {
    Restore {
        anchor: None,
        page_hint: if r.layout_key == layout_hash {
            r.page_hint
        } else {
            None
        },
        ..r
    }
}

/// The page to load: that of the byte to restore, which is looked for page by
/// page where the pages are not all known, or the one that is wanted.
pub open spec fn page_work(a: ReaderApp, layout_hash: u32) -> (ReaderApp, Work) {
    let r = settled_restore(a.restore, layout_hash);
    let b = ReaderApp { restore: Restore { offset: None, page_hint: None, ..r }, ..a };
    match r.offset {
        None => (b, Work::LoadPage { seek: None }),
        Some(target) => if a.pg.fully_indexed {
            (
                ReaderApp {
                    pg: PageIndex {
                        page: index::located(a.pg.offsets@, target, r.page_hint) as usize,
                        ..a.pg
                    },
                    ..b
                },
                Work::LoadPage { seek: None },
            )
        } else {
            (
                ReaderApp { pg: PageIndex { page: 0, ..a.pg }, ..b },
                Work::LoadPage { seek: Some(target) },
            )
        },
    }
}

/// The form of the stored text is not the one that the position was counted
/// in.
pub open spec fn form_changed(a: ReaderApp) -> bool {
    a.book.is_epub && a.book.content_fmt != a.restore.fmt
}

/// The start of loading a page: an anchor is looked up where the form of the
/// text changed.
pub open spec fn page_started(a: ReaderApp, layout_hash: u32) -> (ReaderApp, Work) {
    if form_changed(a) {
        let b = ReaderApp { restore: Restore { anchor: None, page_hint: None, ..a.restore }, ..a };
        match a.restore.anchor {
            Some(anchor) => (b, Work::ResolveAnchor(anchor)),
            None => page_work(b, layout_hash),
        }
    } else {
        page_work(a, layout_hash)
    }
}

impl ReaderApp {
    pub fn cache_chapter_next(&self) -> (w: Work)
        ensures
            w == cache_chapter_work(*self),
    {
        if self.cache.open {
            Work::CacheStep
        } else {
            Work::CacheBegin
        }
    }

    pub fn start_index(&mut self) -> (w: Work)
        ensures
            (*final(self), w) == index_started(*old(self)),
    {
        let last: bool = self.goto_last_page;
        self.goto_last_page = false;
        let retrying: bool = self.typesetting.waits > 0 && self.typesetting.retry_ch
            == self.chapter;
        if !retrying {
            self.typesetting.waits = 0;
        }
        Work::Index { fresh: !retrying, last }
    }

    pub fn next_index_work(&mut self) -> (w: Work)
        ensures
            (*final(self), w) == index_work(*old(self)),
    {
        if !self.loading.painted && self.book.is_epub {
            Work::AskLayout
        } else {
            self.start_index()
        }
    }

    pub fn next_page_work(&mut self, layout_hash: u32) -> (w: Work)
        requires
            old(self).pg.wf(),
        ensures
            (*final(self), w) == page_work(*old(self), layout_hash),
    {
        let hint: Option<usize> = if self.restore.layout_key == layout_hash {
            self.restore.page_hint
        } else {
            None
        };
        let offset: Option<u32> = self.restore.offset;
        self.restore.anchor = None;
        self.restore.page_hint = None;
        self.restore.offset = None;
        match offset {
            None => Work::LoadPage { seek: None },
            Some(target) => if self.pg.fully_indexed {
                let page: usize = self.pg.locate_page_for_offset(target, hint);
                self.pg.page = page;
                Work::LoadPage { seek: None }
            } else {
                self.pg.page = 0;
                Work::LoadPage { seek: Some(target) }
            },
        }
    }

    /// Take up the position to restore, and find the page.
    fn resolve_restore(&mut self, layout_hash: u32) -> (w: Work)
        requires
            old(self).pg.wf(),
        ensures
            (*final(self), w) == page_started(*old(self), layout_hash),
    {
        if self.book.is_epub && self.book.content_fmt != self.restore.fmt {
            let anchor: Option<Anchor> = self.restore.anchor;
            self.restore.anchor = None;
            self.restore.page_hint = None;
            if let Some(a) = anchor {
                return Work::ResolveAnchor(a);
            }
        }
        self.next_page_work(layout_hash)
    }
}

/// Work that was put off until the page was on screen: one thing at a time.
pub open spec fn deferred_work(a: ReaderApp) -> Option<(ReaderApp, Work)> {
    if a.tasks.toc_parse {
        Some(
            (
                ReaderApp { tasks: OpenTasks { toc_parse: false, ..a.tasks }, ..a },
                Work::LoadToc,
            ),
        )
    } else if a.tasks.title_save {
        Some(
            (
                ReaderApp { tasks: OpenTasks { title_save: false, ..a.tasks }, ..a },
                Work::SaveTitle,
            ),
        )
    } else if a.tasks.cover_thumb {
        Some(
            (
                ReaderApp { tasks: OpenTasks { cover_thumb: false, ..a.tasks }, ..a },
                Work::MakeCover,
            ),
        )
    } else {
        None
    }
}

/// More is left to do in the background.
pub open spec fn more_to_do(a: ReaderApp) -> bool {
    tasks_wait(a.tasks) || (a.book.is_epub && a.cache.bg != BgCacheState::Idle)
}

/// The indicator before a step of caching: it comes up if it is not there.
pub open spec fn cache_work(a: ReaderApp, can_paint: bool, indicated: bool) -> (ReaderApp, Step) {
    if a.cache.bg == BgCacheState::Idle {
        (a, quiet(Work::Return(BgOutcome::Idle)))
    } else if indicated {
        (a, quiet(Work::StepCache))
    } else if can_paint {
        (a, Step { indicator: Indicator::Caching, ..quiet(Work::StepCache) })
    } else {
        (ReaderApp { cache: Cache { ui_stale: true, ..a.cache }, ..a }, quiet(Work::StepCache))
    }
}

/// What is done once the page is on screen: what was put off, then caching.
pub open spec fn idle_work(a: ReaderApp, can_paint: bool, indicated: bool) -> (ReaderApp, Step) {
    match deferred_work(a) {
        Some((b, work)) => (b, quiet(work)),
        None => cache_work(a, can_paint, indicated),
    }
}

/// What is done while a page is read.
pub open spec fn reading_work(a: ReaderApp, can_paint: bool, indicated: bool) -> (ReaderApp, Step) {
    if a.tasks.defer_once {
        (
            ReaderApp { tasks: OpenTasks { defer_once: false, ..a.tasks }, ..a },
            quiet(Work::Return(BgOutcome::Progress { more: more_to_do(a) })),
        )
    } else if a.contents.pages_stale {
        (
            ReaderApp { contents: Contents { pages_stale: false, ..a.contents }, ..a },
            quiet(Work::RefreshPages),
        )
    } else {
        idle_work(a, can_paint, indicated)
    }
}

/// The work of a state.
pub open spec fn state_work(
    a: ReaderApp,
    layout_hash: u32,
    can_paint: bool,
    indicated: bool,
) -> (ReaderApp, Step) {
    match a.state {
        State::NeedBookmark => (a, quiet(Work::LoadRecord)),
        State::NeedInit => (a, quiet(Work::OpenZip)),
        State::NeedOpf => (a, quiet(Work::ParseOpf)),
        State::NeedToc => (
            ReaderApp { tasks: OpenTasks { toc_parse: false, ..a.tasks }, ..a },
            quiet(Work::LoadToc),
        ),
        State::NeedCache => (a, quiet(Work::CheckCache)),
        State::NeedIndex => if chapter_missing(a) {
            let (loading, paint) = screen::put_up(a.loading);
            (ReaderApp { loading, ..a }, Step { paint, ..quiet(cache_chapter_work(a)) })
        } else {
            let (b, work) = index_work(a);
            (b, quiet(work))
        },
        State::NeedPage => {
            let (b, work) = page_started(a, layout_hash);
            (b, quiet(work))
        },
        State::Error => (a, quiet(Work::Return(BgOutcome::Idle))),
        State::Ready => reading_work(a, can_paint, indicated),
        State::ShowToc => reading_work(a, can_paint, indicated),
    }
}

/// The start of a step: the indicator and the loading screen catch up, then
/// the state says what is next.
pub open spec fn started(
    a: ReaderApp,
    ms: u64,
    layout_hash: u32,
    can_paint: bool,
    indicated: bool,
) -> (ReaderApp, Step) {
    let (cache, indicator) = caught_up(a.cache, can_paint);
    let (loading, paint) = screen::ticked(a.loading, screen::is_loading(a.state), ms);
    let shown = indicated && indicator != Indicator::Clear || indicator == Indicator::Caching;
    let (b, s) = state_work(
        ReaderApp { cache, loading, ..a },
        layout_hash,
        can_paint,
        shown,
    );
    (
        b,
        Step {
            paint: if paint != Paint::Nothing {
                paint
            } else {
                s.paint
            },
            indicator: if s.indicator != Indicator::Keep {
                s.indicator
            } else {
                indicator
            },
            ..s
        },
    )
}

impl ReaderApp {
    fn cache_next(&mut self, can_paint: bool, indicated: bool) -> (s: Step)
        ensures
            (*final(self), s) == cache_work(*old(self), can_paint, indicated),
    {
        if self.cache.bg == BgCacheState::Idle {
            return quiet_step(Work::Return(BgOutcome::Idle));
        }
        let mut s: Step = quiet_step(Work::StepCache);
        if !indicated {
            if can_paint {
                s.indicator = Indicator::Caching;
            } else {
                self.cache.ui_stale = true;
            }
        }
        s
    }

    /// One thing that was put off, if any is.
    fn run_deferred_open_work(&mut self) -> (w: Option<Work>)
        ensures
            match w {
                Some(work) => deferred_work(*old(self)) == Some((*final(self), work)),
                None => deferred_work(*old(self)) is None && *final(self) == *old(self),
            },
    {
        if self.tasks.toc_parse {
            self.tasks.toc_parse = false;
            Some(Work::LoadToc)
        } else if self.tasks.title_save {
            self.tasks.title_save = false;
            Some(Work::SaveTitle)
        } else if self.tasks.cover_thumb {
            self.tasks.cover_thumb = false;
            Some(Work::MakeCover)
        } else {
            None
        }
    }

    pub fn idle_next(&mut self, can_paint: bool, indicated: bool) -> (s: Step)
        ensures
            (*final(self), s) == idle_work(*old(self), can_paint, indicated),
    {
        match self.run_deferred_open_work() {
            Some(work) => quiet_step(work),
            None => self.cache_next(can_paint, indicated),
        }
    }

    fn reading_next(&mut self, can_paint: bool, indicated: bool) -> (s: Step)
        ensures
            (*final(self), s) == reading_work(*old(self), can_paint, indicated),
    {
        if self.tasks.defer_once {
            self.tasks.defer_once = false;
            let left: bool = self.has_pending_open_work() || self.has_bg_work();
            return quiet_step(Work::Return(BgOutcome::Progress { more: left }));
        }
        if self.contents.pages_stale {
            self.contents.pages_stale = false;
            return quiet_step(Work::RefreshPages);
        }
        self.idle_next(can_paint, indicated)
    }

    fn state_next(&mut self, layout_hash: u32, can_paint: bool, indicated: bool) -> (s: Step)
        requires
            old(self).wf(),
            old(self).state == State::NeedIndex && old(self).book.is_epub && old(self).cache.ready
                ==> (old(self).chapter as int) < MAX_CACHE_CHAPTERS,
        ensures
            (*final(self), s) == state_work(*old(self), layout_hash, can_paint, indicated),
    {
        match self.state {
            State::NeedBookmark => quiet_step(Work::LoadRecord),
            State::NeedInit => quiet_step(Work::OpenZip),
            State::NeedOpf => quiet_step(Work::ParseOpf),
            State::NeedToc => {
                self.tasks.toc_parse = false;
                quiet_step(Work::LoadToc)
            },
            State::NeedCache => quiet_step(Work::CheckCache),
            State::NeedIndex => {
                if self.book.is_epub && self.cache.ready && !self.cache.done[self.chapter as usize] {
                    let paint: Paint = self.loading.paint();
                    let mut s: Step = quiet_step(self.cache_chapter_next());
                    s.paint = paint;
                    s
                } else {
                    quiet_step(self.next_index_work())
                }
            },
            State::NeedPage => quiet_step(self.resolve_restore(layout_hash)),
            State::Error => quiet_step(Work::Return(BgOutcome::Idle)),
            State::Ready => self.reading_next(can_paint, indicated),
            State::ShowToc => self.reading_next(can_paint, indicated),
        }
    }

    fn catch_up(&mut self, can_paint: bool) -> (i: Indicator)
        ensures
            ({
                let (cache, want) = caught_up(old(self).cache, can_paint);
                i == want && *final(self) == (ReaderApp { cache, ..*old(self) })
            }),
    {
        if self.cache.ui_stale && can_paint {
            self.cache.ui_stale = false;
            match self.cache.bg {
                BgCacheState::Idle => Indicator::Clear,
                _ => Indicator::Caching,
            }
        } else {
            Indicator::Keep
        }
    }

    /// Start a step, `ms` milliseconds into loading. `layout_hash` is the hash
    /// of the layout in force; `can_paint` says whether the indicator may be
    /// painted, `indicated` whether it is up.
    pub fn background_step(
        &mut self,
        ms: u64,
        layout_hash: u32,
        can_paint: bool,
        indicated: bool,
    ) -> (s: Step)
        requires
            old(self).wf(),
            old(self).state == State::NeedIndex && old(self).book.is_epub && old(self).cache.ready
                ==> (old(self).chapter as int) < MAX_CACHE_CHAPTERS,
        ensures
            (*final(self), s) == started(*old(self), ms, layout_hash, can_paint, indicated),
    {
        let indicator: Indicator = self.catch_up(can_paint);
        let paint: Paint = self.loading_tick_after(ms);
        let shown: bool = match indicator {
            Indicator::Clear => false,
            Indicator::Caching => true,
            Indicator::Keep => indicated,
        };
        let mut s: Step = self.state_next(layout_hash, can_paint, shown);
        match paint {
            Paint::Nothing => {},
            _ => {
                s.paint = paint;
            },
        }
        match s.indicator {
            Indicator::Keep => {
                s.indicator = indicator;
            },
            _ => {},
        }
        s
    }
}

// ── the outcomes of the work ──────────────────────────────────────

/// A bookmark that was stored before books had records.
#[derive(Clone, Copy, Debug, PartialEq, Eq, Structural)]
pub struct Bookmark {
    pub chapter: u16,
    pub byte_offset: u32,
    /// 0 for none
    pub page_hint: u16,
}

/// Where to open the book: at its recorded position, which for a book of
/// chapters waits until they are known, or else at a stored bookmark.
#[verifier::opaque]
pub open spec fn marked(
    a: ReaderApp,
    pos: Option<Position>,
    stored: Option<Bookmark>,
) -> ReaderApp {
    match (pos, stored) {
        (Some(p), _) => if a.book.is_epub {
            ReaderApp { restore: Restore { pending: pos, ..a.restore }, ..a }
        } else {
            ReaderApp {
                restore: Restore {
                    pending: None,
                    offset: Some(p.byte_offset),
                    page_hint: None,
                    ..a.restore
                },
                ..a
            }
        },
        (None, Some(b)) => ReaderApp {
            chapter: b.chapter,
            restore: Restore {
                pending: None,
                offset: Some(b.byte_offset),
                page_hint: if b.page_hint == 0 {
                    None
                } else {
                    Some(b.page_hint as usize)
                },
                ..a.restore
            },
            ..a
        },
        (None, None) => ReaderApp { restore: Restore { pending: None, ..a.restore }, ..a },
    }
}

/// The record is read: a text goes on to its page, a book to its archive.
pub open spec fn record_read(
    a: ReaderApp,
    rec: BookRecord,
    stored: Option<Bookmark>,
    cover: bool,
) -> (ReaderApp, Step) {
    let m = marked(a, rec.pos, stored);
    let b = ReaderApp {
        log: persist::with_record(m.log, rec),
        has_cover: m.has_cover || cover,
        state: if a.book.is_epub {
            State::NeedInit
        } else {
            State::NeedPage
        },
        ..m
    };
    let c = if a.book.is_epub {
        ReaderApp {
            book: Book { spine_len: 0, ..b.book },
            cache: Cache { ready: false, ..b.cache },
            goto_last_page: false,
            ..b
        }
    } else {
        b
    };
    (
        c,
        Step {
            paint: if cover {
                Paint::LoadingArea
            } else {
                Paint::Nothing
            },
            ..next_stage(c)
        },
    )
}

impl ReaderApp {
    pub fn stage_step(&self) -> (s: Step)
        ensures
            s == next_stage(*self),
    {
        let loading: bool = self.shows_loading_screen();
        let mut s: Step = quiet_step(Work::Return(BgOutcome::Progress { more: true }));
        s.stage = self.loading.painted && loading;
        s
    }

    /// Where to open the book.
    pub fn bookmark_load(&mut self, pos: Option<Position>, stored: Option<Bookmark>)
        ensures
            *final(self) == marked(*old(self), pos, stored),
            final(self).book == old(self).book,
            final(self).loading == old(self).loading,
    {
        proof {
            reveal(marked);
        }
        match pos {
            Some(p) => if self.book.is_epub {
                self.restore.pending = Some(p);
            } else {
                self.restore.pending = None;
                self.restore.offset = Some(p.byte_offset);
                self.restore.page_hint = None;
            },
            None => {
                self.restore.pending = None;
                if let Some(b) = stored {
                    self.chapter = b.chapter;
                    self.restore.offset = Some(b.byte_offset);
                    self.restore.page_hint = if b.page_hint == 0 {
                        None
                    } else {
                        Some(b.page_hint as usize)
                    };
                }
            },
        }
    }

    /// After `LoadRecord`: the record of the book, a bookmark of the bundle or
    /// of the bookmark file, and whether a cover was loaded.
    pub fn after_record(&mut self, rec: Option<BookRecord>, stored: Option<Bookmark>, cover: bool) -> (s:
        Step)
        ensures
            (*final(self), s) == record_read(
                *old(self),
                match rec {
                    Some(r) => r,
                    None => BookRecord::spec_empty(),
                },
                stored,
                cover,
            ),
    {
        let pos: Option<Position> = match rec {
            Some(r) => r.pos,
            None => None,
        };
        self.bookmark_load(pos, stored);
        self.log.record_load(rec);
        if cover {
            self.has_cover = true;
        }
        if self.book.is_epub {
            self.book.spine_len = 0;
            self.cache.ready = false;
            self.goto_last_page = false;
            self.state = State::NeedInit;
        } else {
            self.state = State::NeedPage;
        }
        let mut s: Step = self.stage_step();
        if cover {
            s.paint = Paint::LoadingArea;
        }
        s
    }
}

/// The next state, or an error.
pub open spec fn went(a: ReaderApp, r: Result<(), u16>, to: State, now: u32) -> (ReaderApp, Step) {
    match r {
        Ok(_) => {
            let b = ReaderApp { state: to, ..a };
            (b, next_stage(b))
        },
        Err(e) => failed(a, e, now),
    }
}

/// What the package document of a book says.
#[derive(Clone, Copy, Debug, PartialEq, Eq, Structural)]
pub struct OpfInfo {
    pub spine_len: usize,
    /// size of the archive
    pub archive_size: u32,
    pub has_cover: bool,
    /// the bundle has all of the book's text
    pub core_ready: bool,
}

/// The recorded position, held against the file: another file, or a chapter
/// that the book does not have, starts over.
#[verifier::opaque]
pub open spec fn restored(a: ReaderApp, spine_len: int) -> ReaderApp {
    let none = ReaderApp { restore: Restore { pending: None, ..a.restore }, ..a };
    match a.restore.pending {
        None => a,
        Some(p) => if p.archive_size != a.book.archive_size || (spine_len > 0 && p.chapter
            >= spine_len) {
            none
        } else {
            ReaderApp {
                chapter: p.chapter,
                restore: Restore {
                    pending: None,
                    offset: Some(p.byte_offset),
                    anchor: p.spec_anchor(),
                    fmt: p.content_fmt,
                    layout_key: p.layout_key,
                    page_hint: Some(p.page as usize),
                },
                ..a
            }
        },
    }
}

/// The package document is parsed: the position is taken up, within the book.
#[verifier::opaque]
pub open spec fn opf_read(a: ReaderApp, info: OpfInfo) -> ReaderApp {
    let n = info.spine_len as int;
    let b = restored(
        ReaderApp {
            book: Book {
                spine_len: info.spine_len,
                archive_size: info.archive_size,
                ..a.book
            },
            ..a
        },
        n,
    );
    ReaderApp {
        chapter: if n > 0 && b.chapter >= n {
            (n - 1) as u16
        } else {
            b.chapter
        },
        tasks: OpenTasks {
            title_save: b.book.title_is_real,
            cover_thumb: info.has_cover && info.core_ready,
            ..b.tasks
        },
        state: State::NeedToc,
        ..b
    }
}

impl ReaderApp {
    /// After `OpenZip`.
    pub fn after_zip(&mut self, r: Result<(), u16>, now: u32) -> (s: Step)
        ensures
            (*final(self), s) == went(*old(self), r, State::NeedOpf, now),
    {
        match r {
            Ok(_) => {
                self.state = State::NeedOpf;
                self.stage_step()
            },
            Err(e) => self.enter_error(e, now),
        }
    }

    /// Take up the recorded position, once the book's chapters are known.
    pub fn apply_pending_position(&mut self, spine_len: usize)
        ensures
            *final(self) == restored(*old(self), spine_len as int),
            final(self).book == old(self).book,
            final(self).loading == old(self).loading,
    {
        proof {
            reveal(restored);
        }
        let p: Position = match self.restore.pending {
            Some(p) => p,
            None => {
                return;
            },
        };
        self.restore.pending = None;
        if p.archive_size != self.book.archive_size {
            return;
        }
        if spine_len > 0 && p.chapter as usize >= spine_len {
            return;
        }
        self.chapter = p.chapter;
        self.restore = Restore {
            pending: None,
            offset: Some(p.byte_offset),
            anchor: p.anchor(),
            fmt: p.content_fmt,
            layout_key: p.layout_key,
            page_hint: Some(p.page as usize),
        };
    }

    fn take_opf(&mut self, info: OpfInfo)
        requires
            info.spine_len <= MAX_SPINE,
        ensures
            *final(self) == opf_read(*old(self), info),
    {
        proof {
            reveal(opf_read);
        }
        self.book.spine_len = info.spine_len;
        self.book.archive_size = info.archive_size;
        self.apply_pending_position(info.spine_len);
        if info.spine_len > 0 && self.chapter as usize >= info.spine_len {
            self.chapter = (info.spine_len - 1) as u16;
        }
        self.tasks.title_save = self.book.title_is_real;
        self.tasks.cover_thumb = info.has_cover && info.core_ready;
        self.state = State::NeedToc;
    }

    /// After `ParseOpf`.
    pub fn after_opf(&mut self, r: Result<OpfInfo, u16>, now: u32) -> (s: Step)
        requires
            r matches Ok(info) ==> info.spine_len <= MAX_SPINE,
        ensures
            (*final(self), s) == (match r {
                Ok(info) => (opf_read(*old(self), info), next_stage(opf_read(*old(self), info))),
                Err(e) => failed(*old(self), e, now),
            }),
    {
        match r {
            Ok(info) => {
                self.take_opf(info);
                self.stage_step()
            },
            Err(e) => self.enter_error(e, now),
        }
    }
}

/// Whatever a record says, the chapter that opens is one of the book's.
pub proof fn law_books_open_within_their_chapters(a: ReaderApp, info: OpfInfo)
    requires
        info.spine_len <= MAX_SPINE,
    ensures
        opf_read(a, info).in_book(),
{
    reveal(restored);
    reveal(opf_read);
}

} // verus!
