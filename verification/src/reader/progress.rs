//! How far the book is read, and how far it is cached.

use crate::reader::state::{BgCacheState, ReaderApp, MAX_CACHE_CHAPTERS, MAX_SPINE};
use vstd::prelude::*;

verus! {

// ── caching ───────────────────────────────────────────────────────

/// How many of the first `n` are set.
pub open spec fn count_set(done: Seq<bool>, n: int) -> int
    decreases n,
{
    if n <= 0 {
        0
    } else {
        count_set(done, n - 1) + (if done[n - 1] {
            1int
        } else {
            0
        })
    }
}

/// Chapters of the book that are cached.
pub open spec fn cached_chapters(a: ReaderApp) -> int {
    count_set(
        a.cache.done@,
        if a.book.spine_len < MAX_CACHE_CHAPTERS {
            a.book.spine_len as int
        } else {
            MAX_CACHE_CHAPTERS as int
        },
    )
}

/// Chapters are being cached, not images.
pub open spec fn caching_chapters(a: ReaderApp) -> bool {
    &&& a.cache.bg == BgCacheState::CacheChapter || a.cache.bg == BgCacheState::WaitNearbyImage
    &&& cached_chapters(a) < a.book.spine_len
}

/// Progress of caching in percent: chapters make up the first 80, images the
/// rest.
pub open spec fn cache_pct(a: ReaderApp) -> int {
    if caching_chapters(a) {
        cached_chapters(a) * 80 / (a.book.spine_len as int)
    } else if a.cache.img_found > 0 {
        let p = 80 + a.cache.img_cached * 20 / (a.cache.img_found as int);
        if p < 100 {
            p
        } else {
            100
        }
    } else {
        80
    }
}

impl ReaderApp {
    pub fn has_bg_work(&self) -> (b: bool)
        ensures
            b == (self.book.is_epub && self.cache.bg != BgCacheState::Idle),
    {
        self.book.is_epub && self.cache.bg != BgCacheState::Idle
    }

    pub fn cached_chapter_count(&self) -> (n: usize)
        requires
            self.wf(),
        ensures
            n == cached_chapters(*self),
            n <= self.book.spine_len,
    {
        let all: usize = if self.book.spine_len < MAX_CACHE_CHAPTERS {
            self.book.spine_len
        } else {
            MAX_CACHE_CHAPTERS
        };
        let mut n: usize = 0;
        let mut i: usize = 0;
        while i < all
            invariant
                i <= all <= MAX_CACHE_CHAPTERS,
                self.cache.done@.len() == MAX_CACHE_CHAPTERS,
                n == count_set(self.cache.done@, i as int),
                n <= i,
            decreases all - i,
        {
            if self.cache.done[i] {
                n = n + 1;
            }
            i = i + 1;
        }
        n
    }

    pub fn in_chapter_phase(&self) -> (b: bool)
        requires
            self.wf(),
        ensures
            b == caching_chapters(*self),
    {
        let phase: bool = match self.cache.bg {
            BgCacheState::CacheChapter => true,
            BgCacheState::WaitNearbyImage => true,
            _ => false,
        };
        phase && self.cached_chapter_count() < self.book.spine_len
    }

    pub fn cache_loading_pct(&self) -> (pct: u8)
        requires
            self.wf(),
        ensures
            pct == cache_pct(*self),
            pct <= 100,
    {
        if self.in_chapter_phase() {
            let n: usize = self.cached_chapter_count();
            let total: usize = self.book.spine_len;
            proof {
                assert(0 <= n * 80 / total as int <= 80) by (nonlinear_arith)
                    requires
                        0 <= n < total,
                ;
            }
            (n * 80 / total) as u8
        } else if self.cache.img_found > 0 {
            let found: u32 = self.cache.img_found as u32;
            let share: u32 = self.cache.img_cached as u32 * 20 / found;
            let p: u32 = 80 + share;
            if p < 100 {
                p as u8
            } else {
                100
            }
        } else {
            80
        }
    }
}

// ── reading ───────────────────────────────────────────────────────

/// `pos` of `size` in percent, at most 100.
pub open spec fn percent(pos: int, size: int) -> int {
    let p = pos * 100 / size;
    if p < 100 {
        p
    } else {
        100
    }
}

/// The last page of the text is shown.
pub open spec fn at_end(a: ReaderApp) -> bool {
    a.pg.fully_indexed && a.pg.page + 1 >= a.pg.total()
}

/// Progress through the book in percent. In a book of chapters each of them
/// counts alike; the last page of the last one is the end. A text goes by its
/// bytes.
pub open spec fn progress(a: ReaderApp) -> int {
    if a.book.is_epub && a.book.spine_len > 0 {
        if a.chapter + 1 >= a.book.spine_len && at_end(a) {
            100
        } else {
            let in_chapter = if a.book.file_size == 0 {
                0
            } else {
                percent(a.pg.here() as int, a.book.file_size as int)
            };
            let p = (a.chapter * 100 + in_chapter) / (a.book.spine_len as int);
            if p < 100 {
                p
            } else {
                100
            }
        }
    } else if a.book.file_size == 0 || at_end(a) {
        100
    } else {
        percent(a.pg.here() as int, a.book.file_size as int)
    }
}

fn percent_of(pos: u32, size: u32) -> (p: u64)
    requires
        size > 0,
    ensures
        p == percent(pos as int, size as int),
        p <= 100,
{
    let p: u64 = pos as u64 * 100 / size as u64;
    if p < 100 {
        p
    } else {
        100
    }
}

/// Sum of the first `n` counts.
pub open spec fn pages_before(pages: Seq<u16>, n: int) -> int
    decreases n,
{
    if n <= 0 {
        0
    } else {
        pages_before(pages, n - 1) + pages[n - 1]
    }
}

/// Every chapter of the book was laid out.
pub open spec fn all_laid_out(a: ReaderApp) -> bool {
    forall|i: int| 0 <= i < a.book.spine_len ==> (#[trigger] a.contents.pages@[i]) > 0
}

/// The page of the whole book and its pages, once every chapter is laid out.
pub open spec fn book_place(a: ReaderApp) -> Option<(u32, u32)> {
    let n = a.book.spine_len as int;
    if a.book.is_epub && n > 0 && all_laid_out(a) {
        Some(
            (
                (pages_before(
                    a.contents.pages@,
                    if a.chapter < n {
                        a.chapter as int
                    } else {
                        n
                    },
                ) + a.pg.page + 1) as u32,
                pages_before(a.contents.pages@, n) as u32,
            ),
        )
    } else {
        None
    }
}

impl ReaderApp {
    pub fn progress_pct(&self) -> (pct: u8)
        requires
            self.wf(),
        ensures
            pct == progress(*self),
            pct <= 100,
    {
        let ended: bool = self.pg.fully_indexed && self.pg.page + 1 >= self.pg.offsets.len();
        let here: u32 = self.pg.offsets[self.pg.page];
        if self.book.is_epub && self.book.spine_len > 0 {
            if self.chapter as usize + 1 >= self.book.spine_len && ended {
                return 100;
            }
            let in_chapter: u64 = if self.book.file_size == 0 {
                0
            } else {
                percent_of(here, self.book.file_size)
            };
            let p: u64 = (self.chapter as u64 * 100 + in_chapter) / self.book.spine_len as u64;
            return if p < 100 {
                p as u8
            } else {
                100
            };
        }
        if self.book.file_size == 0 || ended {
            return 100;
        }
        percent_of(here, self.book.file_size) as u8
    }

    /// The page of the whole book and its pages, once every chapter is laid
    /// out.
    pub fn book_position(&self) -> (r: Option<(u32, u32)>)
        requires
            self.wf(),
        ensures
            r == book_place(*self),
    {
        let n: usize = self.book.spine_len;
        if !self.book.is_epub || n == 0 {
            return None;
        }
        let mut before: u32 = 0;
        let mut total: u32 = 0;
        let mut i: usize = 0;
        while i < n
            invariant
                i <= n <= MAX_SPINE,
                n == self.book.spine_len,
                self.contents.pages@.len() == MAX_SPINE,
                total == pages_before(self.contents.pages@, i as int),
                before == pages_before(
                    self.contents.pages@,
                    if self.chapter < i {
                        self.chapter as int
                    } else {
                        i as int
                    },
                ),
                before <= 65535 * i,
                total <= 65535 * i,
                forall|k: int| 0 <= k < i ==> (#[trigger] self.contents.pages@[k]) > 0,
            decreases n - i,
        {
            let count: u16 = self.contents.pages[i];
            if count == 0 {
                proof {
                    assert(!(self.contents.pages@[i as int] > 0));
                }
                return None;
            }
            if i < self.chapter as usize {
                before = before + count as u32;
            }
            total = total + count as u32;
            i = i + 1;
        }
        Some((before + self.pg.page as u32 + 1, total))
    }
}

/// Reading on never lowers the progress: not from page to page of a text, and
/// not from one chapter to a later one.
pub proof fn law_progress_never_falls(a: ReaderApp, b: ReaderApp)
    requires
        a.wf(),
        b.wf(),
        a.book.is_epub == b.book.is_epub,
        a.book.spine_len == b.book.spine_len,
        a.in_book(),
        b.in_book(),
        (a.book.is_epub && a.book.spine_len > 0 && a.chapter < b.chapter) || (a.chapter
            == b.chapter && a.book.file_size == b.book.file_size && a.pg.here() <= b.pg.here() && (
        at_end(a) ==> at_end(b))),
    ensures
        progress(a) <= progress(b),
{
    let n = a.book.spine_len as int;
    let xa = a.pg.here() as int;
    let xb = b.pg.here() as int;
    let sa = a.book.file_size as int;
    let sb = b.book.file_size as int;
    let pa = if sa == 0 {
        0
    } else {
        percent(xa, sa)
    };
    let pb = if sb == 0 {
        0
    } else {
        percent(xb, sb)
    };
    if sa > 0 {
        assert(xa * 100 / sa >= 0) by (nonlinear_arith)
            requires
                xa >= 0,
                sa > 0,
        ;
    }
    if sb > 0 {
        assert(xb * 100 / sb >= 0) by (nonlinear_arith)
            requires
                xb >= 0,
                sb > 0,
        ;
        if xa <= xb {
            assert(xa * 100 / sb <= xb * 100 / sb) by (nonlinear_arith)
                requires
                    xa <= xb,
                    sb > 0,
            ;
        }
    }
    if a.book.is_epub && n > 0 {
        let ta = a.chapter * 100 + pa;
        let tb = b.chapter * 100 + pb;
        assert(ta <= tb);
        assert(ta / n <= tb / n) by (nonlinear_arith)
            requires
                ta <= tb,
                n > 0,
        ;
    }
}

} // verus!
