//! What the outcomes of the work on a chapter and its pages change.

use crate::nav::BgOutcome;
use crate::reader::contents::SheetRows;
use crate::reader::index::PageIndex;
use crate::reader::opening;
use crate::reader::opening::{Step, Work};
use crate::reader::progress;
use crate::reader::screen;
use crate::reader::state::{
    BgCacheState, Cache, Contents, Indicator, Paint, ReaderApp, Restore, State, TocEntry,
    Typesetting, MAX_CACHE_CHAPTERS, MAX_SPINE,
};
use vstd::prelude::*;

verus! {

/// The contents were read: while the book is opened its cache is looked at
/// next, and else the page stays.
pub open spec fn toc_read(a: ReaderApp, toc: Option<Vec<TocEntry>>) -> (ReaderApp, Step) {
    let read = match toc {
        Some(toc) => Contents { toc, ..a.contents },
        None => a.contents,
    };
    if a.state == State::NeedToc {
        let b = ReaderApp { contents: read, state: State::NeedCache, ..a };
        (b, opening::next_stage(b))
    } else {
        let b = ReaderApp { contents: read, ..a };
        (b, opening::quiet(Work::Return(BgOutcome::Progress { more: opening::more_to_do(b) })))
    }
}

impl ReaderApp {
    /// After `LoadToc`: the contents of the book. Where they could not be read,
    /// or the book has none, those that there were stay.
    pub fn after_toc(&mut self, toc: Option<Vec<TocEntry>>) -> (s: Step)
        ensures
            (*final(self), s) == toc_read(*old(self), toc),
    {
        if let Some(toc) = toc {
            self.contents.toc = toc;
        }
        if self.state == State::NeedToc {
            self.state = State::NeedCache;
            self.stage_step()
        } else {
            self.after_deferred()
        }
    }

    /// After work that was put off.
    pub fn after_deferred(&self) -> (s: Step)
        ensures
            s == opening::quiet(
                Work::Return(BgOutcome::Progress { more: opening::more_to_do(*self) }),
            ),
    {
        let left: bool = self.has_pending_open_work() || self.has_bg_work();
        opening::quiet_step(Work::Return(BgOutcome::Progress { more: left }))
    }
}

// ── caching the open chapter ──────────────────────────────────────

/// The cache was looked at. Where the book is not in it, its open chapter is
/// added, which takes seconds, so the loading screen goes up.
pub open spec fn cache_checked(a: ReaderApp, r: Result<bool, u16>, now: u32) -> (ReaderApp, Step) {
    match r {
        Ok(hit) => if hit {
            let b = ReaderApp { state: State::NeedIndex, ..a };
            (b, opening::next_stage(b))
        } else {
            let (loading, paint) = screen::put_up(a.loading);
            (
                ReaderApp { loading, ..a },
                Step { paint, ..opening::quiet(opening::cache_chapter_work(a)) },
            )
        },
        Err(e) => opening::failed(a, e, now),
    }
}

/// The chapter is in the cache; `done` is the cache with it.
pub open spec fn chapter_added(a: ReaderApp, done: Vec<bool>) -> ReaderApp {
    let cache = Cache { open: false, done, ..a.cache };
    ReaderApp {
        cache: if a.state == State::NeedCache {
            Cache { ready: true, next: 0, ..cache }
        } else {
            cache
        },
        ..a
    }
}

/// Adding the chapter has begun.
pub open spec fn cache_begun(a: ReaderApp, r: Result<(), u16>, now: u32) -> (ReaderApp, Step) {
    match r {
        Ok(_) => (
            ReaderApp { cache: Cache { open: true, ..a.cache }, ..a },
            opening::quiet(Work::CacheStep),
        ),
        Err(e) => opening::failed(a, e, now),
    }
}

/// An image near the page went to the decoder, or there was none.
pub open spec fn nearby_sent(a: ReaderApp, dispatched: bool) -> (ReaderApp, Step) {
    let b = ReaderApp {
        cache: Cache {
            bg: if dispatched {
                BgCacheState::WaitNearbyImage
            } else {
                BgCacheState::CacheChapter
            },
            ..a.cache
        },
        state: State::NeedIndex,
        ..a
    };
    (b, opening::next_stage(b))
}

impl ReaderApp {
    /// After `CheckCache`: whether the book is in the cache.
    pub fn after_cache_check(&mut self, r: Result<bool, u16>, now: u32) -> (s: Step)
        ensures
            (*final(self), s) == cache_checked(*old(self), r, now),
    {
        match r {
            Ok(hit) => if hit {
                self.state = State::NeedIndex;
                self.stage_step()
            } else {
                let mut s: Step = opening::quiet_step(self.cache_chapter_next());
                s.paint = self.loading.paint();
                s
            },
            Err(e) => self.enter_error(e, now),
        }
    }

    /// After `CacheBegin`.
    pub fn after_cache_begin(&mut self, r: Result<(), u16>, now: u32) -> (s: Step)
        ensures
            (*final(self), s) == cache_begun(*old(self), r, now),
    {
        match r {
            Ok(_) => {
                self.cache.open = true;
                opening::quiet_step(Work::CacheStep)
            },
            Err(e) => self.enter_error(e, now),
        }
    }

    /// After `CacheStep`: whether the chapter is complete. A book that is being
    /// opened then looks for an image to decode; a chapter that is turned to
    /// is indexed.
    pub fn after_cache_step(&mut self, r: Result<bool, u16>, now: u32) -> (s: Step)
        requires
            old(self).wf(),
            (old(self).chapter as int) < MAX_CACHE_CHAPTERS,
        ensures
            match r {
                Err(e) => (*final(self), s) == opening::failed(*old(self), e, now),
                Ok(false) => *final(self) == *old(self) && s == opening::quiet(opening::more()),
                Ok(true) => {
                    let done = final(self).cache.done;
                    let b = chapter_added(*old(self), done);
                    &&& done@ == old(self).cache.done@.update(old(self).chapter as int, true)
                    &&& if old(self).state == State::NeedCache {
                        *final(self) == b && s == opening::quiet(Work::DispatchNearby)
                    } else {
                        let (c, work) = opening::index_work(b);
                        *final(self) == c && s == opening::quiet(work)
                    }
                },
            },
    {
        match r {
            Err(e) => self.enter_error(e, now),
            Ok(complete) => {
                if !complete {
                    return opening::quiet_step(
                        Work::Return(BgOutcome::Progress { more: true }),
                    );
                }
                self.cache.done.set(self.chapter as usize, true);
                self.cache.open = false;
                if self.state == State::NeedCache {
                    self.cache.ready = true;
                    self.cache.next = 0;
                    opening::quiet_step(Work::DispatchNearby)
                } else {
                    let work: Work = self.next_index_work();
                    opening::quiet_step(work)
                }
            },
        }
    }

    /// After `DispatchNearby`: whether an image went to the decoder.
    pub fn after_nearby(&mut self, dispatched: bool) -> (s: Step)
        ensures
            (*final(self), s) == nearby_sent(*old(self), dispatched),
    {
        self.cache.bg = if dispatched {
            BgCacheState::WaitNearbyImage
        } else {
            BgCacheState::CacheChapter
        };
        self.state = State::NeedIndex;
        self.stage_step()
    }
}

// ── indexing ──────────────────────────────────────────────────────

/// The chapter is indexed, or waits for memory, which an image that is done may
/// free. A chapter that is turned back to goes to its last page.
pub open spec fn indexed(a: ReaderApp, retry_later: bool, last: bool) -> (ReaderApp, Step) {
    if retry_later {
        (
            ReaderApp {
                goto_last_page: last,
                typesetting: Typesetting { retry_ch: a.chapter, ..a.typesetting },
                ..a
            },
            opening::quiet(Work::TakeImage),
        )
    } else if last {
        (a, opening::quiet(Work::ScanToEnd))
    } else {
        let b = ReaderApp { state: State::NeedPage, ..a };
        (b, opening::next_stage(b))
    }
}

/// One more image is cached.
pub open spec fn with_image(c: Cache) -> Cache {
    Cache {
        img_cached: if c.img_cached < 65535 {
            (c.img_cached + 1) as u16
        } else {
            c.img_cached
        },
        ..c
    }
}

/// The chapter has a layout or not: one without takes seconds.
pub open spec fn layout_asked(a: ReaderApp, known: bool) -> (ReaderApp, Step) {
    let (loading, paint) = if known {
        (a.loading, Paint::Nothing)
    } else {
        screen::put_up(a.loading)
    };
    let (b, work) = opening::index_started(ReaderApp { loading, ..a });
    (b, Step { paint, ..opening::quiet(work) })
}

/// The byte of an anchor was found, or the recorded one holds.
pub open spec fn anchor_resolved(a: ReaderApp, found: Option<u32>, layout_hash: u32) -> (
    ReaderApp,
    Step,
) {
    let offset = if found is Some {
        found
    } else {
        a.restore.offset
    };
    let (b, work) = opening::page_work(
        ReaderApp { restore: Restore { offset, ..a.restore }, ..a },
        layout_hash,
    );
    (b, opening::quiet(work))
}

/// A page was loaded, on the way to the byte `seek` if there is one.
pub open spec fn page_loaded(
    a: ReaderApp,
    r: Result<(), u16>,
    seek: Option<u32>,
    rows: SheetRows,
    now: u32,
) -> (ReaderApp, Step) {
    match (r, seek) {
        (Err(e), _) => opening::failed(a, e, now),
        (Ok(_), Some(target)) => {
            let (pg, more) = a.pg.scanned_on(target);
            if more {
                (ReaderApp { pg, ..a }, opening::quiet(Work::LoadPage { seek }))
            } else {
                opening::ready(a, rows, now)
            }
        },
        (Ok(_), None) => opening::ready(a, rows, now),
    }
}

impl ReaderApp {
    /// After `AskLayout`: a chapter without a layout takes seconds, so the
    /// loading screen goes up before it is typeset.
    pub fn after_layout(&mut self, known: bool) -> (s: Step)
        ensures
            (*final(self), s) == layout_asked(*old(self), known),
    {
        let paint: Paint = if known {
            Paint::Nothing
        } else {
            self.loading.paint()
        };
        let work: Work = self.start_index();
        let mut s: Step = opening::quiet_step(work);
        s.paint = paint;
        s
    }

    /// After `Index`.
    pub fn after_index(&mut self, retry_later: bool, last: bool) -> (s: Step)
        ensures
            (*final(self), s) == indexed(*old(self), retry_later, last),
    {
        if retry_later {
            self.goto_last_page = last;
            self.typesetting.retry_ch = self.chapter;
            return opening::quiet_step(Work::TakeImage);
        }
        if last {
            opening::quiet_step(Work::ScanToEnd)
        } else {
            self.state = State::NeedPage;
            self.stage_step()
        }
    }

    /// After `TakeImage`: whether an image was done.
    pub fn after_image(&mut self, received: bool) -> (s: Step)
        ensures
            *final(self) == (if received {
                ReaderApp { cache: with_image(old(self).cache), ..*old(self) }
            } else {
                *old(self)
            }),
            s == opening::quiet(Work::Return(BgOutcome::WaitingExternal)),
    {
        if received {
            self.count_image();
        }
        opening::quiet_step(Work::Return(BgOutcome::WaitingExternal))
    }

    fn count_image(&mut self)
        ensures
            *final(self) == (ReaderApp { cache: with_image(old(self).cache), ..*old(self) }),
    {
        self.cache.img_cached = self.cache.img_cached.saturating_add(1);
    }

    /// After `ScanToEnd`.
    pub fn after_scan(&mut self, r: Result<(), u16>, rows: SheetRows, now: u32) -> (s: Step)
        ensures
            (*final(self), s) == (match r {
                Ok(_) => opening::ready(*old(self), rows, now),
                Err(e) => opening::failed(*old(self), e, now),
            }),
    {
        match r {
            Ok(_) => self.finish_ready_transition(rows, now),
            Err(e) => self.enter_error(e, now),
        }
    }

    /// After `ResolveAnchor`: the byte, if it was found.
    pub fn after_anchor(&mut self, found: Option<u32>, layout_hash: u32) -> (s: Step)
        requires
            old(self).pg.wf(),
        ensures
            (*final(self), s) == anchor_resolved(*old(self), found, layout_hash),
    {
        if let Some(off) = found {
            self.restore.offset = Some(off);
        }
        let work: Work = self.next_page_work(layout_hash);
        opening::quiet_step(work)
    }

    /// After `LoadPage`. While a byte is looked for, the next page is loaded
    /// until it starts behind it.
    pub fn after_page(&mut self, r: Result<(), u16>, seek: Option<u32>, rows: SheetRows, now: u32) -> (s:
        Step)
        requires
            old(self).pg.wf(),
        ensures
            (*final(self), s) == page_loaded(*old(self), r, seek, rows, now),
    {
        if let Err(e) = r {
            return self.enter_error(e, now);
        }
        if let Some(target) = seek {
            if self.pg.scan_on(target) {
                return opening::quiet_step(Work::LoadPage { seek });
            }
        }
        self.finish_ready_transition(rows, now)
    }
}

// ── counts of pages ───────────────────────────────────────────────

/// The pages of every chapter: as they are stored, but for the open one, whose
/// pages are known.
pub open spec fn counted(a: ReaderApp, stored: Seq<u16>) -> Seq<u16> {
    Seq::new(
        MAX_SPINE as nat,
        |i: int|
            if i >= a.book.spine_len {
                a.contents.pages@[i]
            } else if i == a.chapter && a.pg.fully_indexed {
                a.pg.total() as u16
            } else {
                stored[i]
            },
    )
}

impl ReaderApp {
    /// Take over the stored counts of pages; whether any changed.
    pub fn refresh_chapter_pages(&mut self, stored: &[u16]) -> (changed: bool)
        requires
            old(self).wf(),
            old(self).book.spine_len <= stored@.len(),
        ensures
            *final(self) == (ReaderApp {
                contents: Contents { pages: final(self).contents.pages, ..old(self).contents },
                ..*old(self)
            }),
            final(self).contents.pages@ == (if old(self).book.is_epub {
                counted(*old(self), stored@)
            } else {
                old(self).contents.pages@
            }),
            changed == (final(self).contents.pages@ != old(self).contents.pages@),
    {
        if !self.book.is_epub {
            return false;
        }
        let n: usize = self.book.spine_len;
        let mut changed: bool = false;
        let mut i: usize = 0;
        let ghost want = counted(*self, stored@);
        while i < n
            invariant
                i <= n <= MAX_SPINE,
                n == old(self).book.spine_len,
                n <= stored@.len(),
                old(self).wf(),
                want == counted(*old(self), stored@),
                *self == (ReaderApp {
                    contents: Contents { pages: self.contents.pages, ..old(self).contents },
                    ..*old(self)
                }),
                self.contents.pages@.len() == MAX_SPINE,
                forall|k: int| 0 <= k < i ==> self.contents.pages@[k] == want[k],
                forall|k: int|
                    i <= k < MAX_SPINE ==> self.contents.pages@[k] == old(self).contents.pages@[k],
                changed == exists|k: int|
                    0 <= k < i && #[trigger] want[k] != old(self).contents.pages@[k],
            decreases n - i,
        {
            let count: u16 = if i == self.chapter as usize && self.pg.fully_indexed {
                self.pg.offsets.len() as u16
            } else {
                stored[i]
            };
            proof {
                assert(count == want[i as int]);
            }
            if count != self.contents.pages[i] {
                changed = true;
            }
            self.contents.pages.set(i, count);
            i = i + 1;
        }
        proof {
            assert(self.contents.pages@ =~= want);
            if changed {
                let k = choose|k: int|
                    0 <= k < n && #[trigger] want[k] != old(self).contents.pages@[k];
                assert(self.contents.pages@[k] != old(self).contents.pages@[k]);
            } else {
                assert(self.contents.pages@ =~= old(self).contents.pages@);
            }
        }
        changed
    }

    /// After `RefreshPages`: new counts repaint the contents sheet, or the
    /// footer; then whatever else is to be done.
    pub fn after_pages(&mut self, stored: &[u16], can_paint: bool, indicated: bool) -> (s: Step)
        requires
            old(self).wf(),
            old(self).book.spine_len <= stored@.len(),
        ensures
            ({
                let pages = if old(self).book.is_epub {
                    counted(*old(self), stored@)
                } else {
                    old(self).contents.pages@
                };
                let b = ReaderApp {
                    contents: Contents { pages: final(self).contents.pages, ..old(self).contents },
                    ..*old(self)
                };
                let (c, step) = opening::idle_work(b, can_paint, indicated);
                &&& final(self).contents.pages@ == pages
                &&& *final(self) == c
                &&& s == (Step {
                    paint: if pages == old(self).contents.pages@ {
                        Paint::Nothing
                    } else if old(self).state == State::ShowToc {
                        Paint::Sheet
                    } else {
                        Paint::Footer
                    },
                    ..step
                })
            }),
    {
        let changed: bool = self.refresh_chapter_pages(stored);
        let sheet: bool = self.state == State::ShowToc;
        let mut s: Step = self.idle_next(can_paint, indicated);
        s.paint = if !changed {
            Paint::Nothing
        } else if sheet {
            Paint::Sheet
        } else {
            Paint::Footer
        };
        s
    }
}

// ── caching in the background ─────────────────────────────────────

/// How far caching was before a step of it.
#[derive(Clone, Copy, Debug, PartialEq, Eq, Structural)]
pub struct CacheMark {
    pub chapters: usize,
    pub bg: BgCacheState,
    pub img_found: u16,
    pub img_cached: u16,
    pub pct: u8,
}

pub open spec fn mark_of(a: ReaderApp) -> CacheMark {
    CacheMark {
        chapters: progress::cached_chapters(a) as usize,
        bg: a.cache.bg,
        img_found: a.cache.img_found,
        img_cached: a.cache.img_cached,
        pct: progress::cache_pct(a) as u8,
    }
}

/// The indicator is to be painted after a step: at the end of caching, and as
/// it gets on. Over a page that costs a refresh, so it is for every tenth
/// part; the loading screen shows every chapter.
pub open spec fn indicates(a: ReaderApp, before: CacheMark) -> Option<Indicator> {
    let m = mark_of(a);
    if a.cache.bg == BgCacheState::Idle {
        Some(Indicator::Clear)
    } else if (CacheMark { pct: before.pct, ..m }) != before && (screen::is_loading(a.state)
        || m.pct / 10 != before.pct / 10) {
        Some(Indicator::Caching)
    } else {
        None
    }
}

/// The reader after a step of caching; an indicator that may not be painted
/// now is painted later.
pub open spec fn cache_stepped(a: ReaderApp, before: CacheMark, can_paint: bool) -> (
    ReaderApp,
    Indicator,
) {
    match indicates(a, before) {
        None => (a, Indicator::Keep),
        Some(i) => if can_paint {
            (ReaderApp { cache: Cache { ui_stale: false, ..a.cache }, ..a }, i)
        } else {
            (ReaderApp { cache: Cache { ui_stale: true, ..a.cache }, ..a }, Indicator::Keep)
        },
    }
}

/// How the image decoder answered while the reader is covered.
#[derive(Clone, Copy, Debug, PartialEq, Eq, Structural)]
pub enum ImageTick {
    /// an image is done; whether another one near the page went out
    Received { dispatched: bool },
    /// nothing yet; whether the decoder is at rest
    Nothing { at_rest: bool },
    Failed,
}

/// The state of caching after the decoder answered. A decoder at rest without
/// an answer has lost it, and caching goes on without.
pub open spec fn ticked_bg(bg: BgCacheState, tick: ImageTick) -> BgCacheState {
    let waits = tick == (ImageTick::Nothing { at_rest: false });
    if bg == BgCacheState::WaitNearbyImage && !waits && tick != (ImageTick::Received {
        dispatched: true,
    }) {
        BgCacheState::CacheChapter
    } else if bg == BgCacheState::WaitImage && !waits {
        BgCacheState::CacheImage
    } else {
        bg
    }
}

/// The cache after the decoder answered: an image that was waited for counts
/// as cached, even where it could not be decoded.
pub open spec fn ticked_cache(c: Cache, tick: ImageTick) -> Cache {
    let waited = c.bg == BgCacheState::WaitNearbyImage || c.bg == BgCacheState::WaitImage;
    Cache {
        bg: ticked_bg(c.bg, tick),
        ..if waited && tick is Received {
            with_image(c)
        } else {
            c
        }
    }
}

/// A step while the reader is covered.
pub open spec fn covered_step(a: ReaderApp, tick: ImageTick) -> (ReaderApp, BgOutcome) {
    if !a.book.is_epub || a.cache.bg == BgCacheState::Idle {
        (a, BgOutcome::Idle)
    } else {
        (
            ReaderApp { cache: ticked_cache(a.cache, tick), ..a },
            if ticked_bg(a.cache.bg, tick) != BgCacheState::Idle {
                BgOutcome::WaitingExternal
            } else {
                BgOutcome::Progress { more: false }
            },
        )
    }
}

impl ReaderApp {
    pub fn cache_mark(&self) -> (m: CacheMark)
        requires
            self.wf(),
        ensures
            m == mark_of(*self),
    {
        CacheMark {
            chapters: self.cached_chapter_count(),
            bg: self.cache.bg,
            img_found: self.cache.img_found,
            img_cached: self.cache.img_cached,
            pct: self.cache_loading_pct(),
        }
    }

    /// After `StepCache`; `before` is how far caching was.
    pub fn after_step_cache(&mut self, before: CacheMark, can_paint: bool) -> (i: Indicator)
        requires
            old(self).wf(),
        ensures
            (*final(self), i) == cache_stepped(*old(self), before, can_paint),
    {
        let m: CacheMark = self.cache_mark();
        let want: Indicator = if self.cache.bg == BgCacheState::Idle {
            Indicator::Clear
        } else if (m.chapters != before.chapters || m.bg != before.bg || m.img_found
            != before.img_found || m.img_cached != before.img_cached) && (
        self.shows_loading_screen() || m.pct / 10 != before.pct / 10) {
            Indicator::Caching
        } else {
            return Indicator::Keep;
        };
        if can_paint {
            self.cache.ui_stale = false;
            want
        } else {
            self.cache.ui_stale = true;
            Indicator::Keep
        }
    }

    /// One look at the image decoder while the reader is covered.
    pub fn bg_work_tick(&mut self, tick: ImageTick)
        ensures
            *final(self) == (ReaderApp {
                cache: ticked_cache(old(self).cache, tick),
                ..*old(self)
            }),
    {
        let received: bool = match tick {
            ImageTick::Received { .. } => true,
            _ => false,
        };
        match self.cache.bg {
            BgCacheState::WaitNearbyImage => {
                if received {
                    self.count_image();
                }
                let stay: bool = match tick {
                    ImageTick::Received { dispatched } => dispatched,
                    ImageTick::Nothing { at_rest } => !at_rest,
                    ImageTick::Failed => false,
                };
                if !stay {
                    self.cache.bg = BgCacheState::CacheChapter;
                }
            },
            BgCacheState::WaitImage => {
                if received {
                    self.count_image();
                }
                let stay: bool = match tick {
                    ImageTick::Nothing { at_rest } => !at_rest,
                    _ => false,
                };
                if !stay {
                    self.cache.bg = BgCacheState::CacheImage;
                }
            },
            _ => {},
        }
    }

    /// A step while the reader is covered: only the decoder is looked at.
    pub fn background_suspended_step(&mut self, tick: ImageTick) -> (o: BgOutcome)
        ensures
            (*final(self), o) == covered_step(*old(self), tick),
    {
        if !self.has_bg_work() {
            return BgOutcome::Idle;
        }
        self.bg_work_tick(tick);
        if self.has_bg_work() {
            BgOutcome::WaitingExternal
        } else {
            BgOutcome::Progress { more: false }
        }
    }
}

// ── what holds of opening a book ──────────────────────────────────

/// How far opening a book is.
pub open spec fn rank(s: State) -> int {
    match s {
        State::NeedBookmark => 0,
        State::NeedInit => 1,
        State::NeedOpf => 2,
        State::NeedToc => 3,
        State::NeedCache => 4,
        State::NeedIndex => 5,
        State::NeedPage => 6,
        State::Ready => 7,
        State::ShowToc => 7,
        State::Error => 8,
    }
}

/// The outcome of a piece of work either brings the book closer to its page,
/// or asks for more work in the same state, or ends in an error: opening never
/// goes back.
pub proof fn law_opening_goes_forward(
    a: ReaderApp,
    rec: crate::book_record::BookRecord,
    stored: Option<opening::Bookmark>,
    cover: bool,
    info: opening::OpfInfo,
    hit: Result<bool, u16>,
    plain: Result<(), u16>,
    retry_later: bool,
    last: bool,
    rows: SheetRows,
    now: u32,
)
    ensures
        a.state == State::NeedBookmark ==> rank(
            opening::record_read(a, rec, stored, cover).0.state,
        ) > rank(a.state),
        a.state == State::NeedInit ==> rank(
            opening::went(a, plain, State::NeedOpf, now).0.state,
        ) > rank(a.state),
        a.state == State::NeedOpf ==> rank(opening::opf_read(a, info).state) > rank(a.state),
        a.state == State::NeedCache ==> rank(cache_checked(a, hit, now).0.state) >= rank(a.state),
        a.state == State::NeedIndex ==> rank(indexed(a, retry_later, last).0.state) >= rank(
            a.state,
        ),
        rank(opening::ready(a, rows, now).0.state) == 7,
        forall|e: u16| rank((#[trigger] opening::failed(a, e, now)).0.state) == 8,
{
    reveal(opening::ready);
    reveal(opening::failed);
    reveal(opening::opf_read);
}

/// An error is final: a step of a failed book asks for nothing.
pub proof fn law_errors_are_final(
    a: ReaderApp,
    e: u16,
    now: u32,
    ms: u64,
    hash: u32,
    can_paint: bool,
    indicated: bool,
)
    ensures
        ({
            let b = opening::failed(a, e, now).0;
            let (c, s) = opening::started(b, ms, hash, can_paint, indicated);
            c.state == State::Error && s.work == Work::Return(BgOutcome::Idle)
        }),
{
    reveal(opening::failed);
}

} // verus!
