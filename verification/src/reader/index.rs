//! The page index of the text on screen: where its pages start, which one is
//! shown, and how pages are found and counted.

use crate::layout::table::{PageLayout, MAX_PAGES};
use crate::reader::wrap::PAGE_BUF;
use vstd::prelude::*;

verus! {

/// Page starts as far as they are known, and the page shown.
pub struct PageIndex {
    /// first byte of each known page; there is always one
    pub offsets: Vec<u32>,
    pub page: usize,
    /// no page is missing
    pub fully_indexed: bool,
}

impl PageIndex {
    pub open spec fn wf(self) -> bool {
        &&& 1 <= self.offsets@.len() <= MAX_PAGES
        &&& self.page < self.offsets@.len()
    }

    /// Known pages.
    pub open spec fn total(self) -> int {
        self.offsets@.len() as int
    }

    /// First byte of the page shown.
    pub open spec fn here(self) -> u32 {
        self.offsets@[self.page as int]
    }

    /// The start of a text of which nothing is known.
    pub open spec fn is_fresh(self) -> bool {
        self.offsets@ == seq![0u32] && self.page == 0 && !self.fully_indexed
    }

    pub fn new() -> (p: PageIndex)
        ensures
            p.is_fresh(),
            p.wf(),
    {
        let mut offsets: Vec<u32> = Vec::new();
        offsets.push(0);
        proof {
            assert(offsets@ =~= seq![0u32]);
        }
        PageIndex { offsets, page: 0, fully_indexed: false }
    }

    /// Forget all pages.
    pub fn reset(&mut self)
        ensures
            final(self).is_fresh(),
            final(self).wf(),
    {
        self.offsets.clear();
        self.offsets.push(0);
        proof {
            assert(self.offsets@ =~= seq![0u32]);
        }
        self.page = 0;
        self.fully_indexed = false;
    }

    pub fn total_pages(&self) -> (n: usize)
        ensures
            n == self.total(),
    {
        self.offsets.len()
    }

    /// First byte of the page shown.
    pub fn byte_offset(&self) -> (n: u32)
        requires
            self.wf(),
        ensures
            n == self.here(),
    {
        self.offsets[self.page]
    }

    /// Index a chapter by its page table. A chapter without pages keeps its
    /// first page.
    pub fn adopt(&mut self, pages: &[PageLayout])
        requires
            old(self).wf(),
        ensures
            final(self).offsets@ == adopted(old(self).offsets@, pages@),
            final(self).page == old(self).page,
            final(self).fully_indexed,
            old(self).page < final(self).total() ==> final(self).wf(),
    {
        let mut offsets: Vec<u32> = Vec::new();
        let mut k: usize = 0;
        while k < pages.len() && k < MAX_PAGES
            invariant
                k <= pages@.len(),
                k <= MAX_PAGES,
                offsets@ =~= page_starts(pages@).take(k as int),
            decreases pages@.len() - k,
        {
            offsets.push(pages[k].start_byte);
            k = k + 1;
        }
        if k == 0 {
            offsets.push(self.offsets[0]);
        }
        self.offsets = offsets;
        self.fully_indexed = true;
        proof {
            assert(self.offsets@ =~= adopted(old(self).offsets@, pages@));
        }
    }
}

pub open spec fn page_starts(pages: Seq<PageLayout>) -> Seq<u32> {
    Seq::new(pages.len(), |k: int| pages[k].start_byte)
}

/// Page starts of a page table, at most as many as there may be pages.
pub open spec fn adopted(before: Seq<u32>, pages: Seq<PageLayout>) -> Seq<u32> {
    if pages.len() == 0 {
        before.take(1)
    } else if pages.len() > MAX_PAGES {
        page_starts(pages).take(MAX_PAGES as int)
    } else {
        page_starts(pages)
    }
}

// ── finding a page ────────────────────────────────────────────────

/// Whether the page holds the byte: it starts at or before it, and the next
/// one behind it.
pub open spec fn holds(offsets: Seq<u32>, page: int, target: u32) -> bool {
    &&& 0 <= page < offsets.len()
    &&& offsets[page] <= target
    &&& target < (if page + 1 < offsets.len() {
        offsets[page + 1]
    } else {
        u32::MAX
    })
}

/// The page that halving `lo..hi` ends at.
pub open spec fn halved(offsets: Seq<u32>, target: u32, lo: int, hi: int) -> int
    decreases hi - lo,
{
    if lo + 1 >= hi {
        lo
    } else {
        let mid = lo + (hi - lo) / 2;
        if offsets[mid] <= target {
            halved(offsets, target, mid, hi)
        } else {
            halved(offsets, target, lo, mid)
        }
    }
}

/// The page of a byte: the hinted one if it holds it, else the one that a
/// binary search gives.
pub open spec fn located(offsets: Seq<u32>, target: u32, hint: Option<usize>) -> int {
    if hint is Some && holds(offsets, hint->0 as int, target) {
        hint->0 as int
    } else {
        halved(offsets, target, 0, offsets.len() as int)
    }
}

impl PageIndex {
    pub fn locate_page_for_offset(&self, target_off: u32, page_hint: Option<usize>) -> (p: usize)
        requires
            self.wf(),
        ensures
            p == located(self.offsets@, target_off, page_hint),
            p < self.total(),
    {
        let total: usize = self.offsets.len();
        if let Some(page) = page_hint {
            if page < total {
                let end: u32 = if page + 1 < total {
                    self.offsets[page + 1]
                } else {
                    u32::MAX
                };
                if target_off >= self.offsets[page] && target_off < end {
                    return page;
                }
            }
        }
        let mut lo: usize = 0;
        let mut hi: usize = total;
        while lo + 1 < hi
            invariant
                lo < hi <= total,
                total == self.offsets@.len(),
                halved(self.offsets@, target_off, lo as int, hi as int) == halved(
                    self.offsets@,
                    target_off,
                    0,
                    total as int,
                ),
            decreases hi - lo,
        {
            let mid: usize = lo + (hi - lo) / 2;
            if self.offsets[mid] <= target_off {
                lo = mid;
            } else {
                hi = mid;
            }
        }
        lo
    }
}

proof fn lemma_halved(offsets: Seq<u32>, target: u32, lo: int, hi: int)
    requires
        0 <= lo < hi <= offsets.len(),
        lo == 0 || offsets[lo] <= target,
        hi == offsets.len() || offsets[hi] > target,
    ensures
        ({
            let p = halved(offsets, target, lo, hi);
            &&& lo <= p < hi
            &&& p == 0 || offsets[p] <= target
            &&& p + 1 == offsets.len() || offsets[p + 1] > target
        }),
    decreases hi - lo,
{
    if lo + 1 < hi {
        let mid = lo + (hi - lo) / 2;
        if offsets[mid] <= target {
            lemma_halved(offsets, target, mid, hi);
        } else {
            lemma_halved(offsets, target, lo, mid);
        }
    }
}

/// The located page starts at or before the byte, or is the first one, and the
/// page behind it starts behind the byte. If pages start in increasing order
/// it is the only such page, whatever the hint.
pub proof fn law_located_page_holds_the_byte(offsets: Seq<u32>, target: u32, hint: Option<usize>)
    requires
        0 < offsets.len(),
    ensures
        ({
            let p = located(offsets, target, hint);
            &&& 0 <= p < offsets.len()
            &&& p == 0 || offsets[p] <= target
            &&& p + 1 == offsets.len() || offsets[p + 1] > target
            &&& (forall|i: int, j: int|
                0 <= i < j < offsets.len() ==> offsets[i] < offsets[j]) ==> forall|q: int|
                #![trigger offsets[q]]
                0 <= q < offsets.len() && offsets[q] <= target && (q + 1 == offsets.len()
                    || offsets[q + 1] > target) ==> q == p
        }),
{
    lemma_halved(offsets, target, 0, offsets.len() as int);
    let p = located(offsets, target, hint);
    if forall|i: int, j: int| 0 <= i < j < offsets.len() ==> offsets[i] < offsets[j] {
        assert forall|q: int|
            #![trigger offsets[q]]
            0 <= q < offsets.len() && offsets[q] <= target && (q + 1 == offsets.len()
                || offsets[q + 1] > target) implies q == p by {
            if q < p {
                assert(offsets[q + 1] <= offsets[p]);
            } else if p < q {
                assert(offsets[p + 1] <= offsets[q]);
            }
        }
    }
}

// ── pages that are found as they are read ─────────────────────────

/// The page starts once the page shown was filled: a full page with text left
/// behind it gives the next page, as long as there may be one more.
pub open spec fn grown(
    offsets: Seq<u32>,
    page: int,
    fully: bool,
    next: int,
    full: bool,
    size: u32,
) -> (Seq<u32>, bool) {
    if page + 1 < offsets.len() || fully {
        (offsets, fully)
    } else if full && next < size && offsets.len() < MAX_PAGES {
        (offsets.push(next as u32), false)
    } else {
        (offsets, true)
    }
}

/// Where the next page of a chapter starts, behind `known` pages of which the
/// last one is at `offset`.
pub open spec fn first_fit_next(
    known: int,
    offset: int,
    consumed: int,
    full: bool,
    total: int,
) -> Option<usize> {
    if full && offset + consumed < total && known < MAX_PAGES {
        Some((offset + consumed) as usize)
    } else {
        None
    }
}

/// The index with that page, or complete where there is none.
pub open spec fn first_fit_noted(offsets: Seq<u32>, fully: bool, next: Option<usize>) -> (
    Seq<u32>,
    bool,
) {
    match next {
        Some(n) => (offsets.push(n as u32), fully),
        None => (offsets, true),
    }
}

impl PageIndex {
    /// Note that the page shown consumed `consumed` bytes of a text of `size`
    /// bytes; `full` says whether it holds as many lines as fit.
    pub fn note_filled(&mut self, consumed: usize, full: bool, size: u32)
        requires
            old(self).wf(),
            old(self).here() + consumed <= u32::MAX,
        ensures
            final(self).wf(),
            final(self).page == old(self).page,
            (final(self).offsets@, final(self).fully_indexed) == grown(
                old(self).offsets@,
                old(self).page as int,
                old(self).fully_indexed,
                old(self).here() + consumed,
                full,
                size,
            ),
    {
        let next: u32 = self.offsets[self.page] + consumed as u32;
        if self.page + 1 >= self.offsets.len() && !self.fully_indexed {
            if full && next < size && self.offsets.len() < MAX_PAGES {
                self.offsets.push(next);
            } else {
                self.fully_indexed = true;
            }
        }
    }

    /// The page behind the one shown.
    pub open spec fn page_ahead(self) -> Option<(usize, u32)> {
        if self.page + 1 < self.total() {
            Some(((self.page + 1) as usize, self.offsets@[self.page + 1]))
        } else {
            None
        }
    }

    /// The page to read ahead, and where it starts.
    pub fn next_to_prefetch(&self) -> (r: Option<(usize, u32)>)
        requires
            self.wf(),
        ensures
            r == self.page_ahead(),
    {
        if self.page + 1 < self.offsets.len() {
            Some((self.page + 1, self.offsets[self.page + 1]))
        } else {
            None
        }
    }

    /// The next page and whether it is looked at, in a search for `target`.
    pub open spec fn scanned_on(self, target: u32) -> (PageIndex, bool) {
        if self.page + 1 < self.total() && self.offsets@[self.page + 1] <= target {
            (PageIndex { page: (self.page + 1) as usize, ..self }, true)
        } else {
            (self, false)
        }
    }

    /// While looking for `target` page by page: go on to the next page, unless
    /// it starts behind the target or is not known.
    pub fn scan_on(&mut self, target: u32) -> (more: bool)
        requires
            old(self).wf(),
        ensures
            final(self).wf(),
            (*final(self), more) == old(self).scanned_on(target),
    {
        if self.page + 1 >= self.offsets.len() || self.offsets[self.page + 1] > target {
            false
        } else {
            self.page = self.page + 1;
            true
        }
    }

    /// The last known page, and whether it must be read to find more.
    pub open spec fn scanned_to_end(self) -> (PageIndex, bool) {
        (
            PageIndex { page: (self.total() - 1) as usize, ..self },
            !self.fully_indexed && self.total() < MAX_PAGES,
        )
    }

    /// While looking for the last page: show the last known one, and say
    /// whether it must be read to find more.
    pub fn scan_to_end(&mut self) -> (more: bool)
        requires
            old(self).wf(),
        ensures
            final(self).wf(),
            (*final(self), more) == old(self).scanned_to_end(),
    {
        self.page = self.offsets.len() - 1;
        !self.fully_indexed && self.offsets.len() < MAX_PAGES
    }

    /// First-fit indexing of a chapter of `total` bytes, one page at a time:
    /// note the page at `offset`, which consumed `consumed` bytes, and say
    /// where the next one starts. At the end the index is complete.
    pub fn greedy_next(&mut self, offset: usize, consumed: usize, full: bool, total: usize) -> (next:
        Option<usize>)
        requires
            old(self).wf(),
            offset + consumed <= u32::MAX,
        ensures
            final(self).wf(),
            final(self).page == old(self).page,
            next == first_fit_next(
                old(self).total(),
                offset as int,
                consumed as int,
                full,
                total as int,
            ),
            (final(self).offsets@, final(self).fully_indexed) == first_fit_noted(
                old(self).offsets@,
                old(self).fully_indexed,
                next,
            ),
    {
        let next: usize = offset + consumed;
        if full && next < total && self.offsets.len() < MAX_PAGES {
            self.offsets.push(next as u32);
            Some(next)
        } else {
            self.fully_indexed = true;
            None
        }
    }
}

/// Noting pages keeps their starts in increasing order, as long as every page
/// consumes something.
pub proof fn law_found_pages_ascend(
    offsets: Seq<u32>,
    page: int,
    fully: bool,
    consumed: int,
    full: bool,
    size: u32,
)
    requires
        0 <= page < offsets.len(),
        consumed > 0,
        offsets[page] + consumed <= u32::MAX,
        forall|i: int, j: int| 0 <= i < j < offsets.len() ==> offsets[i] < offsets[j],
    ensures
        ({
            let (after, _) = grown(offsets, page, fully, offsets[page] + consumed, full, size);
            forall|i: int, j: int| 0 <= i < j < after.len() ==> after[i] < after[j]
        }),
{
}

// ── where a page's text is read from ──────────────────────────────

/// Where to take the text of a page from.
#[derive(Clone, Copy, Debug, PartialEq, Eq, Structural)]
pub enum TextSource {
    /// bytes of the chapter in memory
    Chapter { start: usize, len: usize },
    /// what was read ahead
    Prefetched,
    /// the book's bundle, at an offset of its file
    Bundle { at: u32 },
    /// the head of a text file whose size is not known
    FileStart,
    /// a text file, at an offset
    File { at: u32 },
}

/// The source of a page's text: the chapter in memory, what was read ahead,
/// the bundle of a cached book, and else the file.
pub open spec fn text_source(
    at: u32,
    chapter_len: int,
    prefetched: bool,
    bundle_base: Option<u32>,
    file_size: u32,
) -> TextSource {
    if chapter_len > 0 {
        let start = if at < chapter_len {
            at as int
        } else {
            chapter_len
        };
        TextSource::Chapter {
            start: start as usize,
            len: (if chapter_len - start < PAGE_BUF {
                chapter_len - start
            } else {
                PAGE_BUF as int
            }) as usize,
        }
    } else if prefetched {
        TextSource::Prefetched
    } else if bundle_base is Some {
        TextSource::Bundle { at: (bundle_base->0 + at) as u32 }
    } else if file_size == 0 {
        TextSource::FileStart
    } else {
        TextSource::File { at }
    }
}

impl PageIndex {
    /// Where the text of the page shown is read from. `chapter_len` is the
    /// length of the chapter in memory, 0 if it is not there; `prefetched` is
    /// the page that was read ahead; `bundle_base` is where the chapter starts
    /// in the bundle of a cached book.
    pub fn page_source(
        &self,
        chapter_len: usize,
        prefetched: Option<usize>,
        bundle_base: Option<u32>,
        file_size: u32,
    ) -> (s: TextSource)
        requires
            self.wf(),
            bundle_base matches Some(b) ==> b + self.here() <= u32::MAX,
        ensures
            s == text_source(
                self.here(),
                chapter_len as int,
                prefetched == Some(self.page),
                bundle_base,
                file_size,
            ),
    {
        let at: u32 = self.offsets[self.page];
        if chapter_len > 0 {
            let start: usize = if (at as usize) < chapter_len {
                at as usize
            } else {
                chapter_len
            };
            let left: usize = chapter_len - start;
            return TextSource::Chapter {
                start,
                len: if left < PAGE_BUF {
                    left
                } else {
                    PAGE_BUF
                },
            };
        }
        if let Some(p) = prefetched {
            if p == self.page {
                return TextSource::Prefetched;
            }
        }
        match bundle_base {
            Some(base) => TextSource::Bundle { at: base + at },
            None => if file_size == 0 {
                TextSource::FileStart
            } else {
                TextSource::File { at }
            },
        }
    }
}

} // verus!
