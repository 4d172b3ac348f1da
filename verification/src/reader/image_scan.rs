//! Looking through a book for images that are not in the cache yet.

use crate::hash;
use crate::reader::images;
use crate::reader::images::{Format, MAX_SRC};
use crate::reader::state::PRECACHE_IMG_MAX;
use crate::reader::wrap::PAGE_BUF;
use vstd::prelude::*;

verus! {

/// Bytes that a chunk has in common with the one before it, so that a record
/// across their border is whole in one of them.
pub const CHUNK_OVERLAP: u32 = 256;

/// Failures in a row before large images are no longer tried.
pub const LARGE_IMG_FAIL_LIMIT: u8 = 2;

/// How looking through a chapter ended.
#[derive(Clone, Copy, Debug, PartialEq, Eq, Structural)]
pub enum ScanResult {
    /// an image went to the decoder, or waits for it
    Dispatched { resume_offset: u32 },
    /// a large image was decoded from the card
    DecodedInline { resume_offset: u32 },
    NoneFound,
}

/// Work that the search needs done.
#[derive(Clone, Copy, Debug, PartialEq, Eq, Structural)]
pub enum ScanWork {
    Done(ScanResult),
    /// read `len` bytes of the chapter from `at` on
    Read { at: u32, len: u32 },
    /// find the file of the path at `start` of the chunk
    Resolve { start: u32, len: u32 },
    /// see whether an image of this hash is in the cache
    CheckCache { path_hash: u32 },
    /// find the image in the archive
    FindInZip { format: Format },
    /// decode a large image from the card
    DecodeStreaming,
    /// see whether the decoder is free
    AskWorker,
    /// extract a small image
    Extract,
    /// hand it to the decoder
    Submit,
}

/// What a step asks for; `mark` says to note in the cache that the image is
/// skipped.
#[derive(Clone, Copy, Debug, PartialEq, Eq, Structural)]
pub struct ScanStep {
    pub mark: bool,
    pub work: ScanWork,
}

/// What was found in the book, and whether large images are still tried.
#[derive(Clone, Copy, Debug, PartialEq, Eq, Structural)]
pub struct ImageCounts {
    pub found: u16,
    pub cached: u16,
    pub skip_large: bool,
    pub large_fails: u8,
}

/// One more image that needs no more work.
pub open spec fn settled(c: ImageCounts) -> ImageCounts {
    ImageCounts {
        found: if c.found < 65535 {
            (c.found + 1) as u16
        } else {
            c.found
        },
        cached: if c.cached < 65535 {
            (c.cached + 1) as u16
        } else {
            c.cached
        },
        ..c
    }
}

/// A search in a chapter of `size` bytes: where its chunk starts, how long it
/// is, where in it to look, and the image at hand.
#[derive(Clone, Copy, Debug, PartialEq, Eq, Structural)]
pub struct ImageScan {
    pub size: u32,
    pub offset: u32,
    pub n: u32,
    pub i: u32,
    pub img_start: u32,
    pub img_end: u32,
}

/// The chunk behind the one at `offset` of `n` bytes.
pub open spec fn next_offset(offset: int, n: int) -> int {
    offset + (if n > CHUNK_OVERLAP + 1 {
        n - CHUNK_OVERLAP
    } else {
        1
    })
}

/// The chunk at `offset`.
pub open spec fn chunk_work(size: u32, offset: int) -> ScanWork {
    if offset < size {
        ScanWork::Read {
            at: offset as u32,
            len: (if size - offset < PAGE_BUF {
                size - offset
            } else {
                PAGE_BUF as int
            }) as u32,
        }
    } else {
        ScanWork::Done(ScanResult::NoneFound)
    }
}

/// The chunk has nothing more: the next one, or the end.
pub open spec fn chunk_done(s: ImageScan) -> (ImageScan, ScanWork) {
    if s.offset + s.n >= s.size {
        (s, ScanWork::Done(ScanResult::NoneFound))
    } else {
        let next = next_offset(s.offset as int, s.n as int);
        (ImageScan { offset: next as u32, ..s }, chunk_work(s.size, next))
    }
}

/// The next image of the chunk: its path is resolved.
pub open spec fn searched(s: ImageScan, chunk: Seq<u8>) -> (ImageScan, ScanWork) {
    let p = images::next_record(chunk, s.i as int);
    if p < chunk.len() {
        let img = crate::layout::scan::image_at(chunk, p)->0;
        (
            ImageScan { img_start: img.start, img_end: img.end, ..s },
            ScanWork::Resolve {
                start: img.path_start,
                len: if img.path_len < MAX_SRC {
                    img.path_len as u32
                } else {
                    MAX_SRC as u32
                },
            },
        )
    } else {
        chunk_done(s)
    }
}

/// The search behind the image at hand.
pub open spec fn passed(s: ImageScan, chunk: Seq<u8>) -> (ImageScan, ScanWork) {
    searched(ImageScan { i: s.img_end, ..s }, chunk)
}

/// The search past an image that needs no more work; `mark` says to note that
/// it is skipped.
pub open spec fn settled_past(s: ImageScan, c: ImageCounts, chunk: Seq<u8>, mark: bool) -> (
    ImageScan,
    ImageCounts,
    ScanStep,
) {
    let (after, work) = passed(s, chunk);
    (after, settled(c), ScanStep { mark, work })
}

/// The image was looked for in the cache.
pub open spec fn cache_checked(
    s: ImageScan,
    c: ImageCounts,
    chunk: Seq<u8>,
    full_path: Seq<u8>,
    is_cached: bool,
) -> (ImageScan, ImageCounts, ScanStep) {
    match images::format_of(full_path, None) {
        Some(format) if !is_cached => (
            s,
            c,
            ScanStep { mark: false, work: ScanWork::FindInZip { format } },
        ),
        _ => settled_past(s, c, chunk, !is_cached),
    }
}

/// The image was looked for in the archive.
pub open spec fn zip_searched(
    s: ImageScan,
    c: ImageCounts,
    chunk: Seq<u8>,
    size: Option<u32>,
) -> (ImageScan, ImageCounts, ScanStep) {
    let large = size matches Some(z) && z > PRECACHE_IMG_MAX;
    if size is None || (large && c.skip_large) {
        settled_past(s, c, chunk, size is Some)
    } else {
        (
            s,
            c,
            ScanStep {
                mark: false,
                work: if large {
                    ScanWork::DecodeStreaming
                } else {
                    ScanWork::AskWorker
                },
            },
        )
    }
}

/// A large image was tried.
pub open spec fn large_tried(s: ImageScan, c: ImageCounts, ok: bool) -> (ImageCounts, ScanStep) {
    (
        settled(decoded(c, ok)),
        ScanStep {
            mark: !ok,
            work: ScanWork::Done(
                ScanResult::DecodedInline { resume_offset: (s.offset + s.img_end) as u32 },
            ),
        },
    )
}

/// The decoder was asked whether it is free.
pub open spec fn worker_asked(s: ImageScan, free: bool) -> ScanWork {
    if free {
        ScanWork::Extract
    } else {
        ScanWork::Done(ScanResult::Dispatched { resume_offset: (s.offset + s.img_start) as u32 })
    }
}

/// A small image was extracted, or could not be.
pub open spec fn small_extracted(s: ImageScan, c: ImageCounts, chunk: Seq<u8>, ok: bool) -> (
    ImageScan,
    ImageCounts,
    ScanStep,
) {
    if ok {
        (s, c, ScanStep { mark: false, work: ScanWork::Submit })
    } else {
        settled_past(s, c, chunk, true)
    }
}

/// The image was handed to the decoder, which took it or not.
pub open spec fn submitted(s: ImageScan, c: ImageCounts, ok: bool) -> (ImageCounts, ScanWork) {
    (
        ImageCounts {
            found: if ok && c.found < 65535 {
                (c.found + 1) as u16
            } else {
                c.found
            },
            ..c
        },
        ScanWork::Done(
            ScanResult::Dispatched {
                resume_offset: (s.offset + (if ok {
                    s.img_end
                } else {
                    s.img_start
                })) as u32,
            },
        ),
    )
}

impl ImageScan {
    /// The chunk is part of the chapter, and the image at hand part of the
    /// chunk.
    pub open spec fn wf(self, chunk: Seq<u8>) -> bool {
        &&& chunk.len() == self.n
        &&& self.n <= PAGE_BUF
        &&& self.i <= self.n
        &&& self.img_start <= self.img_end <= self.n
        &&& self.offset + self.n <= self.size
    }

    /// Start to look through a chapter from `start` on.
    pub fn new(size: u32, start: u32) -> (r: (ImageScan, ScanWork))
        ensures
            r.0 == (ImageScan { size, offset: start, n: 0, i: 0, img_start: 0, img_end: 0 }),
            r.1 == chunk_work(size, start as int),
    {
        let s = ImageScan { size, offset: start, n: 0, i: 0, img_start: 0, img_end: 0 };
        (s, s.read_next())
    }

    fn read_next(&self) -> (w: ScanWork)
        ensures
            w == chunk_work(self.size, self.offset as int),
    {
        if self.offset < self.size {
            let left: u32 = self.size - self.offset;
            let most: u32 = PAGE_BUF as u32;
            ScanWork::Read {
                at: self.offset,
                len: if left < most {
                    left
                } else {
                    most
                },
            }
        } else {
            ScanWork::Done(ScanResult::NoneFound)
        }
    }

    fn search(&mut self, chunk: &[u8]) -> (w: ScanWork)
        requires
            old(self).wf(chunk@),
        ensures
            (*final(self), w) == searched(*old(self), chunk@),
            w is Resolve ==> final(self).wf(chunk@),
    {
        match images::find_image(chunk, self.i as usize) {
            Some(img) => {
                self.img_start = img.start;
                self.img_end = img.end;
                ScanWork::Resolve {
                    start: img.path_start,
                    len: if (img.path_len as usize) < MAX_SRC {
                        img.path_len as u32
                    } else {
                        MAX_SRC as u32
                    },
                }
            },
            None => {
                if self.n >= self.size - self.offset {
                    return ScanWork::Done(ScanResult::NoneFound);
                }
                let step: u32 = if self.n > CHUNK_OVERLAP + 1 {
                    self.n - CHUNK_OVERLAP
                } else {
                    1
                };
                self.offset = self.offset + step;
                self.read_next()
            },
        }
    }

    /// A chunk was read.
    pub fn after_read(&mut self, chunk: &[u8]) -> (w: ScanWork)
        requires
            chunk@.len() <= PAGE_BUF,
            old(self).offset + chunk@.len() <= old(self).size,
        ensures
            ({
                let s = ImageScan {
                    n: chunk@.len() as u32,
                    i: 0,
                    img_start: 0,
                    img_end: 0,
                    ..*old(self)
                };
                (*final(self), w) == (if chunk@.len() == 0 {
                    (s, ScanWork::Done(ScanResult::NoneFound))
                } else {
                    searched(s, chunk@)
                })
            }),
            w is Resolve ==> final(self).wf(chunk@),
    {
        self.n = chunk.len() as u32;
        self.i = 0;
        self.img_start = 0;
        self.img_end = 0;
        if chunk.len() == 0 {
            return ScanWork::Done(ScanResult::NoneFound);
        }
        self.search(chunk)
    }

    fn pass(&mut self, chunk: &[u8]) -> (w: ScanWork)
        requires
            old(self).wf(chunk@),
        ensures
            (*final(self), w) == passed(*old(self), chunk@),
            w is Resolve ==> final(self).wf(chunk@),
    {
        self.i = self.img_end;
        self.search(chunk)
    }

    /// The path was resolved, or is not text.
    pub fn after_resolve(&mut self, chunk: &[u8], full_path: Option<&[u8]>) -> (w: ScanWork)
        requires
            old(self).wf(chunk@),
        ensures
            (*final(self), w) == (match full_path {
                Some(path) => (
                    *old(self),
                    ScanWork::CheckCache { path_hash: hash::fnv(path@) },
                ),
                None => passed(*old(self), chunk@),
            }),
    {
        match full_path {
            Some(path) => ScanWork::CheckCache { path_hash: hash::fnv1a(path) },
            None => self.pass(chunk),
        }
    }

    /// The image was looked for in the cache. One that is there needs nothing,
    /// and one that cannot be decoded is marked as skipped.
    pub fn after_cache_check(
        &mut self,
        chunk: &[u8],
        counts: &mut ImageCounts,
        full_path: &[u8],
        is_cached: bool,
    ) -> (s: ScanStep)
        requires
            old(self).wf(chunk@),
        ensures
            (*final(self), *final(counts), s) == cache_checked(
                *old(self),
                *old(counts),
                chunk@,
                full_path@,
                is_cached,
            ),
    {
        if is_cached {
            counts.settle();
            return ScanStep { mark: false, work: self.pass(chunk) };
        }
        match images::image_format(full_path, None) {
            Some(format) => ScanStep { mark: false, work: ScanWork::FindInZip { format } },
            None => {
                counts.settle();
                ScanStep { mark: true, work: self.pass(chunk) }
            },
        }
    }

    /// The image was looked for in the archive: its size there, if it is. A
    /// large one is decoded from the card, unless that was given up.
    pub fn after_zip(&mut self, chunk: &[u8], counts: &mut ImageCounts, size: Option<u32>) -> (s:
        ScanStep)
        requires
            old(self).wf(chunk@),
        ensures
            (*final(self), *final(counts), s) == zip_searched(
                *old(self),
                *old(counts),
                chunk@,
                size,
            ),
    {
        match size {
            None => {
                counts.settle();
                ScanStep { mark: false, work: self.pass(chunk) }
            },
            Some(z) => if z > PRECACHE_IMG_MAX {
                if counts.skip_large {
                    counts.settle();
                    ScanStep { mark: true, work: self.pass(chunk) }
                } else {
                    ScanStep { mark: false, work: ScanWork::DecodeStreaming }
                }
            } else {
                ScanStep { mark: false, work: ScanWork::AskWorker }
            },
        }
    }

    /// A large image was decoded, or could not be. Failures in a row end the
    /// attempts for this session.
    pub fn after_decode(&self, counts: &mut ImageCounts, ok: bool) -> (s: ScanStep)
        requires
            self.offset + self.img_end <= u32::MAX,
        ensures
            (*final(counts), s) == large_tried(*self, *old(counts), ok),
    {
        if ok {
            counts.large_fails = 0;
        } else {
            counts.large_fails = counts.large_fails.saturating_add(1);
            if counts.large_fails >= LARGE_IMG_FAIL_LIMIT {
                counts.skip_large = true;
            }
        }
        counts.settle();
        ScanStep {
            mark: !ok,
            work: ScanWork::Done(
                ScanResult::DecodedInline { resume_offset: self.offset + self.img_end },
            ),
        }
    }

    /// The decoder is free, or the image is looked at again later.
    pub fn after_ask(&self, free: bool) -> (w: ScanWork)
        requires
            self.offset + self.img_start <= u32::MAX,
        ensures
            w == worker_asked(*self, free),
    {
        if free {
            ScanWork::Extract
        } else {
            ScanWork::Done(
                ScanResult::Dispatched { resume_offset: self.offset + self.img_start },
            )
        }
    }

    /// A small image was extracted, or could not be.
    pub fn after_extract(&mut self, chunk: &[u8], counts: &mut ImageCounts, ok: bool) -> (s: ScanStep)
        requires
            old(self).wf(chunk@),
        ensures
            (*final(self), *final(counts), s) == small_extracted(
                *old(self),
                *old(counts),
                chunk@,
                ok,
            ),
    {
        if ok {
            return ScanStep { mark: false, work: ScanWork::Submit };
        }
        counts.settle();
        ScanStep { mark: true, work: self.pass(chunk) }
    }

    /// The image went to the decoder, or its queue filled up meanwhile and it
    /// is tried again.
    pub fn after_submit(&self, counts: &mut ImageCounts, ok: bool) -> (w: ScanWork)
        requires
            self.offset + self.img_end <= u32::MAX,
            self.img_start <= self.img_end,
        ensures
            (*final(counts), w) == submitted(*self, *old(counts), ok),
    {
        if ok {
            counts.found = counts.found.saturating_add(1);
            ScanWork::Done(ScanResult::Dispatched { resume_offset: self.offset + self.img_end })
        } else {
            ScanWork::Done(ScanResult::Dispatched { resume_offset: self.offset + self.img_start })
        }
    }
}

/// Start to look through a chapter for the first image that is not in the
/// cache, from `start` on. Only a chapter of the book that is in the cache can
/// be looked through.
pub fn scan_chapter_for_image(
    ch: usize,
    spine_len: usize,
    done: &Vec<bool>,
    size: u32,
    start: u32,
) -> (r: (ImageScan, ScanWork))
    ensures
        r.0 == (ImageScan { size, offset: start, n: 0, i: 0, img_start: 0, img_end: 0 }),
        r.1 == (if scannable(ch as int, spine_len as int, done@) {
            chunk_work(size, start as int)
        } else {
            ScanWork::Done(ScanResult::NoneFound)
        }),
{
    let (s, w): (ImageScan, ScanWork) = ImageScan::new(size, start);
    if ch >= spine_len || ch >= done.len() || !done[ch] {
        return (s, ScanWork::Done(ScanResult::NoneFound));
    }
    (s, w)
}

/// The counts after a large image was tried.
pub open spec fn decoded(c: ImageCounts, ok: bool) -> ImageCounts {
    if ok {
        ImageCounts { large_fails: 0, ..c }
    } else {
        let fails = if c.large_fails < 255 {
            (c.large_fails + 1) as u8
        } else {
            255
        };
        ImageCounts {
            large_fails: fails,
            skip_large: c.skip_large || fails >= LARGE_IMG_FAIL_LIMIT,
            ..c
        }
    }
}

impl ImageCounts {
    fn settle(&mut self)
        ensures
            *final(self) == settled(*old(self)),
    {
        self.found = self.found.saturating_add(1);
        self.cached = self.cached.saturating_add(1);
    }
}

/// No image is missed at the border of two chunks: a record of at most 256
/// bytes that does not end within a chunk starts within the next one.
pub proof fn law_no_image_is_missed(offset: int, n: int, p: int, len: int)
    requires
        offset <= p,
        0 < len <= CHUNK_OVERLAP,
        p + len > offset + n,
        n > CHUNK_OVERLAP,
    ensures
        next_offset(offset, n) <= p,
{
}

/// The search gets on: every chunk starts behind the one before it.
pub proof fn law_search_advances(offset: int, n: int)
    ensures
        next_offset(offset, n) > offset,
{
}

// ── which chapters are looked through ─────────────────────────────

/// Where the search for images in the book stands: from the open chapter to
/// the last, and then from the first to the open one.
#[derive(Clone, Copy, Debug, PartialEq, Eq, Structural)]
pub struct ImageCursor {
    pub ch: u16,
    pub offset: u32,
    pub wrapped: bool,
}

/// What comes next.
#[derive(Clone, Copy, Debug, PartialEq, Eq, Structural)]
pub enum CursorNext {
    /// look through chapter `ch` from `start` on
    Scan { ch: u16, start: u32 },
    /// the search went back to the first chapter
    Wrapped,
    /// every chapter was looked through
    AllScanned,
}

/// The next chapter to look through.
pub open spec fn cursor_next(c: ImageCursor, spine_len: int, reading: u16) -> (ImageCursor, CursorNext) {
    if c.ch < spine_len && !(c.wrapped && c.ch >= reading) {
        (c, CursorNext::Scan { ch: c.ch, start: c.offset })
    } else if !c.wrapped && reading > 0 {
        (ImageCursor { ch: 0, offset: 0, wrapped: true }, CursorNext::Wrapped)
    } else {
        (c, CursorNext::AllScanned)
    }
}

/// The cursor after a chapter was looked through: at the image that was found,
/// or at the next chapter.
pub open spec fn cursor_after(c: ImageCursor, r: ScanResult) -> ImageCursor {
    match r {
        ScanResult::Dispatched { resume_offset } => ImageCursor { offset: resume_offset, ..c },
        ScanResult::DecodedInline { resume_offset } => ImageCursor { offset: resume_offset, ..c },
        ScanResult::NoneFound => ImageCursor { ch: (c.ch + 1) as u16, offset: 0, ..c },
    }
}

impl ImageCursor {
    /// The next chapter to look through.
    pub fn find_next(&mut self, spine_len: usize, reading: u16) -> (n: CursorNext)
        ensures
            (*final(self), n) == cursor_next(*old(self), spine_len as int, reading),
    {
        if (self.ch as usize) < spine_len && !(self.wrapped && self.ch >= reading) {
            return CursorNext::Scan { ch: self.ch, start: self.offset };
        }
        if !self.wrapped && reading > 0 {
            self.ch = 0;
            self.offset = 0;
            self.wrapped = true;
            CursorNext::Wrapped
        } else {
            CursorNext::AllScanned
        }
    }

    /// A chapter was looked through.
    pub fn after_scan(&mut self, r: ScanResult)
        requires
            old(self).ch < 65535,
        ensures
            *final(self) == cursor_after(*old(self), r),
    {
        match r {
            ScanResult::Dispatched { resume_offset } => {
                self.offset = resume_offset;
            },
            ScanResult::DecodedInline { resume_offset } => {
                self.offset = resume_offset;
            },
            ScanResult::NoneFound => {
                self.ch = self.ch + 1;
                self.offset = 0;
            },
        }
    }
}

/// Chapters that are left to look through.
pub open spec fn chapters_left(c: ImageCursor, spine_len: int, reading: u16) -> int {
    if c.wrapped {
        if c.ch < reading {
            reading - c.ch
        } else {
            0
        }
    } else {
        (if c.ch < spine_len {
            spine_len - c.ch
        } else {
            0
        }) + reading + 1
    }
}

/// The search ends: a chapter without new images, and going back to the first
/// chapter, leave fewer chapters to look through, and once none is left all
/// are.
pub proof fn law_image_search_ends(c: ImageCursor, spine_len: int, reading: u16)
    requires
        0 <= spine_len <= 65535,
        reading <= spine_len,
        c.ch < 65535,
    ensures
        ({
            let (after, next) = cursor_next(c, spine_len, reading);
            match next {
                CursorNext::Scan { .. } => chapters_left(
                    cursor_after(c, ScanResult::NoneFound),
                    spine_len,
                    reading,
                ) < chapters_left(c, spine_len, reading),
                CursorNext::Wrapped => chapters_left(after, spine_len, reading) < chapters_left(
                    c,
                    spine_len,
                    reading,
                ),
                CursorNext::AllScanned => !(c.ch < spine_len && !c.wrapped),
            }
        }),
{
}

/// The chapters around the open one, in the order in which they are looked
/// through for an image to decode ahead.
pub open spec fn around(reading: int) -> Seq<int> {
    seq![
        reading,
        reading + 1,
        if reading > 1 {
            reading - 1
        } else {
            0
        },
        reading + 2,
        if reading > 2 {
            reading - 2
        } else {
            0
        },
    ]
}

/// A chapter that can be looked through: one of the book, in the cache.
pub open spec fn scannable(ch: int, spine_len: int, done: Seq<bool>) -> bool {
    0 <= ch < spine_len && ch < done.len() && done[ch]
}

/// Those of the first `k` around the open chapter that can be looked through.
pub open spec fn nearby(reading: int, spine_len: int, done: Seq<bool>, k: int) -> Seq<int>
    decreases k,
{
    if k <= 0 {
        Seq::empty()
    } else {
        let before = nearby(reading, spine_len, done, k - 1);
        let ch = around(reading)[k - 1];
        if scannable(ch, spine_len, done) {
            before.push(ch)
        } else {
            before
        }
    }
}

/// The chapters near the open one that are looked through for an image, in
/// order.
pub fn nearby_chapters(reading: u16, spine_len: usize, done: &Vec<bool>) -> (out: Vec<usize>)
    ensures
        out@.map_values(|c: usize| c as int) == nearby(
            reading as int,
            spine_len as int,
            done@,
            5,
        ),
{
    let r: usize = reading as usize;
    let order: [usize; 5] = [r, r + 1, r.saturating_sub(1), r + 2, r.saturating_sub(2)];
    let mut out: Vec<usize> = Vec::new();
    let mut k: usize = 0;
    proof {
        assert(out@.map_values(|c: usize| c as int) =~= nearby(
            reading as int,
            spine_len as int,
            done@,
            0,
        ));
    }
    while k < 5
        invariant
            k <= 5,
            forall|j: int| 0 <= j < 5 ==> #[trigger] order@[j] == around(reading as int)[j],
            out@.map_values(|c: usize| c as int) == nearby(
                reading as int,
                spine_len as int,
                done@,
                k as int,
            ),
        decreases 5 - k,
    {
        let ch: usize = order[k];
        if ch < spine_len && ch < done.len() && done[ch] {
            let ghost before = out@;
            out.push(ch);
            proof {
                assert(out@.map_values(|c: usize| c as int) =~= before.map_values(
                    |c: usize| c as int,
                ).push(ch as int));
            }
        }
        k = k + 1;
    }
    out
}

// ── heights that were looked up ───────────────────────────────────

/// Heights that are kept.
pub const PEEK_CACHE_CAP: usize = 24;

/// Heights of images that were looked up, by the hash of their paths.
pub struct PeekCache {
    pub keys: Vec<u32>,
    pub heights: Vec<u16>,
}

/// The first entry of a key from `i` on.
pub open spec fn kept(keys: Seq<u32>, heights: Seq<u16>, key: u32, i: int) -> Option<u16>
    decreases keys.len() - i,
{
    if i < 0 || i >= keys.len() {
        None
    } else if keys[i] == key {
        Some(heights[i])
    } else {
        kept(keys, heights, key, i + 1)
    }
}

impl PeekCache {
    pub open spec fn wf(self) -> bool {
        self.keys@.len() == self.heights@.len() && self.keys@.len() <= PEEK_CACHE_CAP
    }

    /// The height of a key.
    pub open spec fn at(self, key: u32) -> Option<u16> {
        kept(self.keys@, self.heights@, key, 0)
    }

    pub fn new() -> (c: PeekCache)
        ensures
            c.wf(),
            c.keys@.len() == 0,
    {
        PeekCache { keys: Vec::new(), heights: Vec::new() }
    }

    pub fn lookup(&self, key: u32) -> (h: Option<u16>)
        requires
            self.wf(),
        ensures
            h == self.at(key),
    {
        let mut i: usize = 0;
        while i < self.keys.len()
            invariant
                self.wf(),
                i <= self.keys@.len(),
                kept(self.keys@, self.heights@, key, i as int) == self.at(key),
            decreases self.keys@.len() - i,
        {
            if self.keys[i] == key {
                return Some(self.heights[i]);
            }
            i = i + 1;
        }
        None
    }

    /// Keep a height, as long as there is room.
    pub fn insert(&mut self, key: u32, h: u16)
        requires
            old(self).wf(),
        ensures
            final(self).wf(),
            if old(self).keys@.len() < PEEK_CACHE_CAP {
                final(self).keys@ == old(self).keys@.push(key) && final(self).heights@ == old(
                    self,
                ).heights@.push(h)
            } else {
                *final(self) == *old(self)
            },
    {
        if self.keys.len() < PEEK_CACHE_CAP {
            self.keys.push(key);
            self.heights.push(h);
        }
    }
}

/// A height that was kept is found again, and keeping it changes no other one.
pub proof fn law_kept_heights_are_found(
    keys: Seq<u32>,
    heights: Seq<u16>,
    key: u32,
    h: u16,
    other: u32,
    i: int,
)
    requires
        keys.len() == heights.len(),
        0 <= i <= keys.len(),
    ensures
        kept(keys, heights, key, i) is None ==> kept(keys.push(key), heights.push(h), key, i)
            == Some(h),
        other != key ==> kept(keys.push(key), heights.push(h), other, i) == kept(
            keys,
            heights,
            other,
            i,
        ),
    decreases keys.len() - i,
{
    if i < keys.len() {
        law_kept_heights_are_found(keys, heights, key, h, other, i + 1);
    } else {
        let k2 = keys.push(key);
        let h2 = heights.push(h);
        assert(kept(k2, h2, other, i + 1) is None);
        assert(kept(k2, h2, key, i + 1) is None);
    }
}

} // verus!
