//! Loading a page of a typeset chapter, and reading a chapter through a window.

use crate::layout::table::{LineLayout, PageLayout};
use crate::reader::span;
use crate::reader::span::LineSpan;
use crate::reader::wrap::{LINES_PER_PAGE, PAGE_BUF};
use vstd::prelude::*;

verus! {

/// The bytes of a page within a chapter of `ch_len` bytes: where they start,
/// and how many of them the page buffer takes.
pub open spec fn page_bytes(page: PageLayout, ch_len: int) -> (int, int) {
    let end = span::min_int(
        if page.end_byte > page.start_byte {
            page.end_byte as int
        } else {
            page.start_byte as int
        },
        ch_len,
    );
    let start = span::min_int(page.start_byte as int, end);
    (start, span::min_int(end - start, PAGE_BUF as int))
}

pub fn page_byte_range(page: &PageLayout, ch_len: usize) -> (r: (usize, usize))
    ensures
        (r.0 as int, r.1 as int) == page_bytes(*page, ch_len as int),
        r.0 + r.1 <= ch_len,
        r.1 <= PAGE_BUF,
{
    let start_byte: usize = page.start_byte as usize;
    let mut end: usize = page.end_byte as usize;
    if end < start_byte {
        end = start_byte;
    }
    if end > ch_len {
        end = ch_len;
    }
    let start: usize = if start_byte < end {
        start_byte
    } else {
        end
    };
    let left: usize = end - start;
    (
        start,
        if left < PAGE_BUF {
            left
        } else {
            PAGE_BUF
        },
    )
}

/// The records of a page's lines.
pub open spec fn page_lines(lines: Seq<LineLayout>, page: PageLayout) -> Seq<LineLayout> {
    let first = span::min_int(page.first_line as int, lines.len() as int);
    let last = span::min_int(page.first_line + page.line_count, lines.len() as int);
    let n = span::min_int(last - first, LINES_PER_PAGE as int);
    lines.subrange(first, first + n)
}

/// The lines of a page whose buffer holds `n` bytes from its first one on.
pub open spec fn page_spans(lines: Seq<LineLayout>, page: PageLayout, n: u32) -> Seq<LineSpan> {
    page_lines(lines, page).map_values(|l: LineLayout| span::span_of(l, page.start_byte, n))
}

/// Put the lines of a typeset page on screen: their bytes are those of the
/// page buffer, which holds `n` bytes.
pub fn spans_of_page(lines: &[LineLayout], page: &PageLayout, n: u32) -> (out: Vec<LineSpan>)
    requires
        n <= 65535,
    ensures
        out@ == page_spans(lines@, *page, n),
        out@.len() <= LINES_PER_PAGE,
{
    let mut out: Vec<LineSpan> = Vec::new();
    let first: usize = page.first_line as usize;
    let mut last: usize = first + page.line_count as usize;
    if last > lines.len() {
        last = lines.len();
    }
    let mut k: usize = first;
    proof {
        assert(out@ =~= page_spans(lines@, *page, n).take(0));
    }
    while k < last && out.len() < LINES_PER_PAGE
        invariant
            first <= k,
            last <= lines@.len(),
            last == span::min_int(page.first_line + page.line_count, lines@.len() as int),
            first == page.first_line,
            k <= last || k == first,
            n <= 65535,
            out@.len() == k - first,
            out@.len() <= LINES_PER_PAGE,
            out@ =~= page_spans(lines@, *page, n).take(k - first),
        decreases last - k,
    {
        out.push(span::linelayout_to_span(&lines[k], page.start_byte, n));
        k = k + 1;
    }
    proof {
        assert(page_spans(lines@, *page, n).len() == k - first);
        assert(out@ =~= page_spans(lines@, *page, n));
    }
    out
}

// ── a window over a chapter ───────────────────────────────────────

/// Bytes that a window holds at once.
pub const BUNDLE_SOURCE_CHUNK: u32 = 4096;

/// A part of a text of `total_len` bytes, held in memory.
pub struct ByteWindow {
    pub total_len: u32,
    /// where the part starts, a multiple of its size
    pub offset: u32,
    pub bytes: Vec<u8>,
}

/// What it takes to see a byte.
#[derive(Clone, Copy, Debug, PartialEq, Eq, Structural)]
pub enum WindowAsk {
    /// it is in the window
    Inside,
    /// it is behind the end of the text
    Beyond,
    /// the part of `len` bytes at `at` must be read
    Read { at: u32, len: u32 },
}

impl ByteWindow {
    pub open spec fn wf(self) -> bool {
        self.offset + self.bytes@.len() <= self.total_len
    }

    /// Whether the window holds byte `pos`.
    pub open spec fn covers(self, pos: u32) -> bool {
        self.offset <= pos < self.offset + self.bytes@.len()
    }

    /// What is in the window are the bytes of `text`.
    pub open spec fn shows(self, text: Seq<u8>) -> bool {
        &&& text.len() == self.total_len
        &&& self.offset + self.bytes@.len() <= text.len()
        &&& self.bytes@ == text.subrange(
            self.offset as int,
            self.offset as int + self.bytes@.len(),
        )
    }

    pub fn new(total_len: u32) -> (w: ByteWindow)
        ensures
            w.wf(),
            w.total_len == total_len,
            w.bytes@.len() == 0,
            forall|text: Seq<u8>| text.len() == total_len ==> #[trigger] w.shows(text),
    {
        let w = ByteWindow { total_len, offset: 0, bytes: Vec::new() };
        proof {
            assert forall|text: Seq<u8>| text.len() == total_len implies #[trigger] w.shows(text) by {
                assert(w.bytes@ =~= text.subrange(0, 0));
            }
        }
        w
    }

    pub open spec fn asked(self, pos: u32) -> WindowAsk {
        if self.covers(pos) {
            WindowAsk::Inside
        } else if pos >= self.total_len {
            WindowAsk::Beyond
        } else {
            let at = (pos / BUNDLE_SOURCE_CHUNK) * BUNDLE_SOURCE_CHUNK;
            WindowAsk::Read {
                at: at as u32,
                len: (if self.total_len - at < BUNDLE_SOURCE_CHUNK {
                    self.total_len - at
                } else {
                    BUNDLE_SOURCE_CHUNK as int
                }) as u32,
            }
        }
    }

    /// What it takes to see byte `pos`. Parts that are read start at multiples
    /// of their size, so that reading on costs one read for each part.
    pub fn ask(&self, pos: u32) -> (a: WindowAsk)
        requires
            self.wf(),
        ensures
            a == self.asked(pos),
            a matches WindowAsk::Read { at, len } ==> at <= pos < at + len <= self.total_len,
    {
        if self.bytes.len() > 0 && pos >= self.offset && pos - self.offset < self.bytes.len() as u32 {
            return WindowAsk::Inside;
        }
        if pos >= self.total_len {
            return WindowAsk::Beyond;
        }
        let at: u32 = (pos / BUNDLE_SOURCE_CHUNK) * BUNDLE_SOURCE_CHUNK;
        let left: u32 = self.total_len - at;
        WindowAsk::Read {
            at,
            len: if left < BUNDLE_SOURCE_CHUNK {
                left
            } else {
                BUNDLE_SOURCE_CHUNK
            },
        }
    }

    /// Take over what was read at `at`; whether byte `pos` is in the window
    /// now. Nothing read empties the window.
    pub fn fill(&mut self, at: u32, read: Vec<u8>, pos: u32) -> (seen: bool)
        requires
            at + read@.len() <= old(self).total_len,
        ensures
            final(self).wf(),
            final(self).total_len == old(self).total_len,
            final(self).bytes@ == read@,
            read@.len() > 0 ==> final(self).offset == at,
            seen == (read@.len() > 0 && final(self).covers(pos)),
            forall|text: Seq<u8>|
                text.len() == old(self).total_len && read@ == text.subrange(
                    at as int,
                    at as int + read@.len(),
                ) && read@.len() > 0 ==> #[trigger] final(self).shows(text),
    {
        let n: usize = read.len();
        self.bytes = read;
        if n > 0 {
            self.offset = at;
            at <= pos && pos - at < n as u32
        } else {
            self.offset = 0;
            false
        }
    }

    /// Byte `pos`, if it is in the window.
    pub fn byte_at(&self, pos: u32) -> (b: Option<u8>)
        requires
            self.wf(),
        ensures
            b == (if self.covers(pos) {
                Some(self.bytes@[pos - self.offset])
            } else {
                None
            }),
            forall|text: Seq<u8>| #[trigger]
                self.shows(text) && self.covers(pos) ==> b == Some(text[pos as int]),
    {
        if pos >= self.offset && pos - self.offset < self.bytes.len() as u32 {
            let b: u8 = self.bytes[(pos - self.offset) as usize];
            proof {
                assert forall|text: Seq<u8>| #[trigger]
                    self.shows(text) && self.covers(pos) implies b == text[pos as int] by {
                    assert(self.bytes@[pos - self.offset] == text.subrange(
                        self.offset as int,
                        self.offset as int + self.bytes@.len(),
                    )[pos - self.offset]);
                }
            }
            Some(b)
        } else {
            None
        }
    }

    /// Append what the window holds from `pos` on to `out`, at most `want`
    /// bytes; how many there were.
    pub fn copy_from(&self, pos: u32, want: usize, out: &mut Vec<u8>) -> (n: usize)
        requires
            self.wf(),
        ensures
            n == (if !self.covers(pos) {
                0
            } else {
                span::min_int(want as int, self.offset + self.bytes@.len() - pos)
            }),
            final(out)@ == old(out)@ + (if n == 0 {
                Seq::empty()
            } else {
                self.bytes@.subrange(pos - self.offset, pos - self.offset + n)
            }),
    {
        proof {
            assert(out@ + Seq::<u8>::empty() =~= out@);
        }
        if pos < self.offset || pos - self.offset >= self.bytes.len() as u32 {
            return 0;
        }
        let from: usize = (pos - self.offset) as usize;
        let len: usize = self.bytes.len();
        let left: usize = len - from;
        let n: usize = if want < left {
            want
        } else {
            left
        };
        let mut k: usize = 0;
        while k < n
            invariant
                k <= n,
                from + n <= len == self.bytes@.len(),
                out@ =~= old(out)@ + self.bytes@.subrange(from as int, from + k),
            decreases n - k,
        {
            out.push(self.bytes[from + k]);
            k = k + 1;
        }
        n
    }
}

// ── indexing a chapter ────────────────────────────────────────────

/// Waits for the image decoder before typesetting sheds memory itself.
pub const TYPESET_OOM_WAIT_CAP: u8 = 16;

/// What a stored layout of a chapter is good for.
#[derive(Clone, Copy, Debug, PartialEq, Eq, Structural)]
pub enum StoredLayout {
    /// its lines and pages can be taken over
    Adopt,
    /// its lines can, with new pages
    Repaginate,
    /// nothing: the chapter must be typeset
    Typeset,
}

/// What to do with a stored layout of so many lines and pages.
pub fn use_of_stored(lines: usize, pages: usize) -> (u: StoredLayout)
    ensures
        u == (if lines == 0 {
            StoredLayout::Typeset
        } else if pages == 0 {
            StoredLayout::Repaginate
        } else {
            StoredLayout::Adopt
        }),
{
    if lines == 0 {
        StoredLayout::Typeset
    } else if pages == 0 {
        StoredLayout::Repaginate
    } else {
        StoredLayout::Adopt
    }
}

/// How typesetting a chapter ended.
#[derive(Clone, Copy, Debug, PartialEq, Eq, Structural)]
pub enum TypesetEnd {
    Done,
    OutOfMemory,
    Failed,
}

/// What to do about it.
#[derive(Clone, Copy, Debug, PartialEq, Eq, Structural)]
pub enum TypesetNext {
    /// keep the layout, and store it
    Keep,
    /// try again once the decoder has freed its memory
    RetryLater,
    /// release the chapter's text and typeset from the card
    ShedAndRetry,
    /// index the chapter by first fit
    Greedy,
}

/// What follows an attempt to typeset, and the number of waits behind it. A
/// chapter that does not fit in memory waits for a running image decode, a
/// bounded number of times; then its cached text is given up; what is left is
/// first fit. The second attempt, from the card, is the last one.
pub open spec fn after_typeset(
    end: TypesetEnd,
    waits: u8,
    decoding: bool,
    text_cached: bool,
    second: bool,
) -> (TypesetNext, u8) {
    if end == TypesetEnd::Done {
        (TypesetNext::Keep, 0)
    } else if end == TypesetEnd::Failed || second {
        (TypesetNext::Greedy, 0)
    } else if decoding && waits < TYPESET_OOM_WAIT_CAP {
        (TypesetNext::RetryLater, (waits + 1) as u8)
    } else if text_cached {
        (TypesetNext::ShedAndRetry, waits)
    } else {
        (TypesetNext::Greedy, 0)
    }
}

pub fn next_after_typeset(
    end: TypesetEnd,
    waits: u8,
    decoding: bool,
    text_cached: bool,
    second: bool,
) -> (r: (TypesetNext, u8))
    ensures
        r == after_typeset(end, waits, decoding, text_cached, second),
{
    match end {
        TypesetEnd::Done => (TypesetNext::Keep, 0),
        TypesetEnd::Failed => (TypesetNext::Greedy, 0),
        TypesetEnd::OutOfMemory => if second {
            (TypesetNext::Greedy, 0)
        } else if decoding && waits < TYPESET_OOM_WAIT_CAP {
            (TypesetNext::RetryLater, waits + 1)
        } else if text_cached {
            (TypesetNext::ShedAndRetry, waits)
        } else {
            (TypesetNext::Greedy, 0)
        },
    }
}

/// Waiting ends: however often memory runs out, a chapter waits no more than a
/// fixed number of times in a row, and each wait brings it closer to that.
pub proof fn law_waiting_ends(end: TypesetEnd, waits: u8, decoding: bool, text_cached: bool, second: bool)
    ensures
        ({
            let (next, after) = after_typeset(end, waits, decoding, text_cached, second);
            &&& next == TypesetNext::RetryLater ==> waits < TYPESET_OOM_WAIT_CAP && after == waits
                + 1
            &&& waits >= TYPESET_OOM_WAIT_CAP ==> next != TypesetNext::RetryLater
        }),
{
}

} // verus!
