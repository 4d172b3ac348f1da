//! Indexing a chapter and loading a page, step by step: which work comes next,
//! and what its outcome changes. The work itself reads the card, wraps or
//! typesets, and is done by the caller.

use crate::reader::index;
use crate::reader::index::{PageIndex, TextSource};
use crate::reader::loading;
use crate::reader::loading::{TypesetEnd, TypesetNext};
use vstd::prelude::*;

verus! {

// ── indexing a chapter ────────────────────────────────────────────

/// Work on the index of a chapter.
#[derive(Clone, Copy, Debug, PartialEq, Eq, Structural)]
pub enum IndexWork {
    /// look for a stored layout
    LoadStored,
    /// take its lines and pages over
    Adopt,
    /// take its lines over, with new pages
    Repaginate,
    /// drop what layout there is, and typeset; first the chapter's text is
    /// released if `shed` says so
    Typeset { shed: bool },
    /// store the layout; whether that succeeds does not matter
    Store,
    /// index the chapter by first fit
    Greedy,
    /// the chapter is indexed
    Indexed,
    /// try again once the image decoder has freed its memory
    RetryLater,
}

/// A chapter that is being indexed.
#[derive(Clone, Copy, Debug, PartialEq, Eq, Structural)]
pub struct Preindex {
    /// waits for the decoder so far
    pub waits: u8,
    /// the chapter's text was released
    pub shed: bool,
}

/// A stored layout of so many lines and pages is used as far as it goes.
pub open spec fn stored_work(found: Option<(usize, usize)>) -> IndexWork {
    match found {
        None => IndexWork::Typeset { shed: false },
        Some((lines, pages)) => if lines == 0 {
            IndexWork::Typeset { shed: false }
        } else if pages == 0 {
            IndexWork::Repaginate
        } else {
            IndexWork::Adopt
        },
    }
}

/// What follows typesetting.
pub open spec fn typeset_work(
    p: Preindex,
    end: TypesetEnd,
    decoding: bool,
    text_cached: bool,
) -> (Preindex, IndexWork) {
    let (next, waits) = loading::after_typeset(end, p.waits, decoding, text_cached, p.shed);
    match next {
        TypesetNext::Keep => (Preindex { waits, ..p }, IndexWork::Store),
        TypesetNext::RetryLater => (Preindex { waits, ..p }, IndexWork::RetryLater),
        TypesetNext::ShedAndRetry => (
            Preindex { waits, shed: true },
            IndexWork::Typeset { shed: true },
        ),
        TypesetNext::Greedy => (Preindex { waits, ..p }, IndexWork::Greedy),
    }
}

/// What follows the attempt to take a stored layout over.
pub open spec fn adopt_work(p: Preindex, adopted: bool) -> (Preindex, IndexWork) {
    if adopted {
        (Preindex { waits: 0, ..p }, IndexWork::Indexed)
    } else {
        (p, IndexWork::Typeset { shed: false })
    }
}

impl Preindex {
    /// Start to index a chapter that waited `waits` times for memory.
    pub fn preindex_all_pages(waits: u8) -> (r: (Preindex, IndexWork))
        ensures
            r == (Preindex { waits, shed: false }, IndexWork::LoadStored),
    {
        (Preindex { waits, shed: false }, IndexWork::LoadStored)
    }

    /// After `LoadStored`: the lines and pages of the layout, if there is one.
    pub fn after_stored(&self, found: Option<(usize, usize)>) -> (w: IndexWork)
        ensures
            w == stored_work(found),
    {
        match found {
            None => IndexWork::Typeset { shed: false },
            Some((lines, pages)) => {
                if lines == 0 {
                    IndexWork::Typeset { shed: false }
                } else if pages == 0 {
                    IndexWork::Repaginate
                } else {
                    IndexWork::Adopt
                }
            },
        }
    }

    /// After `Adopt` and `Repaginate`: whether the layout was taken over. One
    /// that was not is typeset anew.
    pub fn after_adopt(&mut self, adopted: bool) -> (w: IndexWork)
        ensures
            (*final(self), w) == adopt_work(*old(self), adopted),
    {
        if adopted {
            self.waits = 0;
            IndexWork::Indexed
        } else {
            IndexWork::Typeset { shed: false }
        }
    }

    /// After `Typeset`; `decoding` says whether the image decoder is at work,
    /// `text_cached` whether the chapter's text is in memory.
    pub fn after_typeset(&mut self, end: TypesetEnd, decoding: bool, text_cached: bool) -> (w:
        IndexWork)
        ensures
            (*final(self), w) == typeset_work(*old(self), end, decoding, text_cached),
    {
        let (next, waits): (TypesetNext, u8) = loading::next_after_typeset(
            end,
            self.waits,
            decoding,
            text_cached,
            self.shed,
        );
        self.waits = waits;
        match next {
            TypesetNext::Keep => IndexWork::Store,
            TypesetNext::RetryLater => IndexWork::RetryLater,
            TypesetNext::ShedAndRetry => {
                self.shed = true;
                IndexWork::Typeset { shed: true }
            },
            TypesetNext::Greedy => IndexWork::Greedy,
        }
    }

    /// After `Store` and `Greedy`.
    pub fn after_done(&self) -> (w: IndexWork)
        ensures
            w == IndexWork::Indexed,
    {
        IndexWork::Indexed
    }
}

/// Steps that are left at most.
pub open spec fn steps_left(w: IndexWork) -> int {
    match w {
        IndexWork::LoadStored => 5,
        IndexWork::Repaginate => 4,
        IndexWork::Typeset { shed: false } => 3,
        IndexWork::Typeset { shed: true } => 2,
        IndexWork::Adopt => 1,
        IndexWork::Store => 1,
        IndexWork::Greedy => 1,
        IndexWork::Indexed => 0,
        IndexWork::RetryLater => 0,
    }
}

/// Indexing ends: every outcome leads on to work with fewer steps left. The
/// text is released at most once, and what was typeset from the card is not
/// tried a third time.
pub proof fn law_indexing_ends(
    p: Preindex,
    found: Option<(usize, usize)>,
    end: TypesetEnd,
    decoding: bool,
    text_cached: bool,
)
    ensures
        steps_left(stored_work(found)) < steps_left(IndexWork::LoadStored),
        ({
            let (q, w) = typeset_work(p, end, decoding, text_cached);
            &&& steps_left(w) < steps_left(IndexWork::Typeset { shed: p.shed })
            &&& w == (IndexWork::Typeset { shed: true }) ==> q.shed && !p.shed && text_cached
        }),
{
}

/// A layout is stored only where typesetting gave it, never one of first fit.
pub proof fn law_only_typeset_layouts_are_stored(
    p: Preindex,
    found: Option<(usize, usize)>,
    end: TypesetEnd,
    decoding: bool,
    text_cached: bool,
)
    ensures
        stored_work(found) != IndexWork::Store,
        typeset_work(p, end, decoding, text_cached).1 == IndexWork::Store <==> end
            == TypesetEnd::Done,
{
}

// ── loading a page ────────────────────────────────────────────────

/// Where to read ahead.
#[derive(Clone, Copy, Debug, PartialEq, Eq, Structural)]
pub enum AheadSource {
    Bundle { at: u32 },
    File { at: u32 },
}

/// Work on a page that is being loaded.
#[derive(Clone, Copy, Debug, PartialEq, Eq, Structural)]
pub enum LoadWork {
    /// read its text
    Read(TextSource),
    /// look up the heights of its images
    Prescan { len: usize },
    /// wrap its lines, and split them into runs
    Wrap { len: usize },
    /// read the next page
    ReadAhead { page: usize, from: AheadSource },
    /// show its image
    Decode,
    Done,
    /// the file is empty: there are no lines
    Empty,
    Failed(u16),
}

/// What was read ahead.
#[derive(Clone, Copy, Debug, PartialEq, Eq, Structural)]
pub struct Ahead {
    pub page: Option<usize>,
    pub len: usize,
}

/// A page that is being loaded.
#[derive(Clone, Copy, Debug, PartialEq, Eq, Structural)]
pub struct PageLoad {
    pub source: TextSource,
    /// where the chapter starts in the bundle of a cached book
    pub bundle_base: Option<u32>,
    /// size of a text file, 0 if it is not known
    pub file_size: u32,
    /// bytes of the page's text
    pub len: usize,
    pub ahead: Ahead,
}

pub open spec fn nothing_ahead() -> Ahead {
    Ahead { page: None, len: 0 }
}

/// Text that was taken from memory leaves nothing read ahead.
pub open spec fn ahead_behind(source: TextSource, ahead: Ahead) -> Ahead {
    match source {
        TextSource::Chapter { .. } => nothing_ahead(),
        TextSource::Prefetched => nothing_ahead(),
        _ => ahead,
    }
}

/// What follows the reading of the text: so many bytes of a file of `size`.
pub open spec fn read_work(p: PageLoad, r: Result<(usize, u32), u16>) -> (PageLoad, LoadWork) {
    match r {
        Err(e) => (p, LoadWork::Failed(e)),
        Ok((n, size)) => {
            let first = p.source == TextSource::FileStart;
            (
                PageLoad {
                    len: n,
                    file_size: if first {
                        size
                    } else {
                        p.file_size
                    },
                    ..p
                },
                if first && size == 0 {
                    LoadWork::Empty
                } else {
                    LoadWork::Prescan { len: n }
                },
            )
        },
    }
}

/// The chapter is in memory.
pub open spec fn from_memory(source: TextSource) -> bool {
    source is Chapter
}

/// What is read ahead, of the pages that start at `offsets`.
pub open spec fn ahead_work(p: PageLoad, offsets: Seq<u32>, page: int) -> (PageLoad, LoadWork) {
    if from_memory(p.source) {
        (p, LoadWork::Decode)
    } else if page + 1 < offsets.len() {
        let at = offsets[page + 1];
        (
            p,
            LoadWork::ReadAhead {
                page: (page + 1) as usize,
                from: match p.bundle_base {
                    Some(base) => AheadSource::Bundle { at: (base + at) as u32 },
                    None => AheadSource::File { at },
                },
            },
        )
    } else {
        (PageLoad { ahead: nothing_ahead(), ..p }, LoadWork::Decode)
    }
}

impl PageLoad {
    /// Start to load the page shown. `chapter_len` is the length of the
    /// chapter in memory, 0 if it is not there.
    pub fn load_and_prefetch(
        pg: &PageIndex,
        chapter_len: usize,
        ahead: Ahead,
        bundle_base: Option<u32>,
        file_size: u32,
    ) -> (r: (PageLoad, LoadWork))
        requires
            pg.wf(),
            bundle_base matches Some(b) ==> b + pg.here() <= u32::MAX,
        ensures
            ({
                let source = index::text_source(
                    pg.here(),
                    chapter_len as int,
                    ahead.page == Some(pg.page),
                    bundle_base,
                    file_size,
                );
                r == (
                    PageLoad {
                        source,
                        bundle_base,
                        file_size,
                        len: 0,
                        ahead: ahead_behind(source, ahead),
                    },
                    LoadWork::Read(source),
                )
            }),
    {
        let source: TextSource = pg.page_source(chapter_len, ahead.page, bundle_base, file_size);
        let left = match source {
            TextSource::Chapter { .. } => Ahead { page: None, len: 0 },
            TextSource::Prefetched => Ahead { page: None, len: 0 },
            _ => ahead,
        };
        (
            PageLoad { source, bundle_base, file_size, len: 0, ahead: left },
            LoadWork::Read(source),
        )
    }

    /// After `Read`: the bytes that were read, and the size of the file; or the
    /// error. An empty file has all its pages.
    pub fn after_read(&mut self, pg: &mut PageIndex, r: Result<(usize, u32), u16>) -> (w: LoadWork)
        ensures
            (*final(self), w) == read_work(*old(self), r),
            *final(pg) == (PageIndex {
                fully_indexed: old(pg).fully_indexed || w == LoadWork::Empty,
                ..*old(pg)
            }),
    {
        match r {
            Err(e) => LoadWork::Failed(e),
            Ok((n, size)) => {
                self.len = n;
                if let TextSource::FileStart = self.source {
                    self.file_size = size;
                    if size == 0 {
                        pg.fully_indexed = true;
                        return LoadWork::Empty;
                    }
                }
                LoadWork::Prescan { len: n }
            },
        }
    }

    /// After `Prescan`.
    pub fn after_prescan(&self) -> (w: LoadWork)
        ensures
            w == (LoadWork::Wrap { len: self.len }),
    {
        LoadWork::Wrap { len: self.len }
    }

    /// After `Wrap`: the bytes that the page consumed, and whether it holds as
    /// many lines as fit. Where the page ends tells where the next one starts,
    /// unless the chapter is in memory, whose pages are known.
    pub fn after_wrap(&mut self, pg: &mut PageIndex, consumed: usize, full: bool) -> (w: LoadWork)
        requires
            old(pg).wf(),
            old(pg).here() + consumed <= u32::MAX,
            old(self).bundle_base matches Some(b) ==> b + old(pg).here() + consumed <= u32::MAX
                && forall|i: int|
                0 <= i < old(pg).offsets@.len() ==> b + #[trigger] old(pg).offsets@[i] <= u32::MAX,
        ensures
            final(pg).wf(),
            final(pg).page == old(pg).page,
            (final(pg).offsets@, final(pg).fully_indexed) == (if from_memory(old(self).source) {
                (old(pg).offsets@, old(pg).fully_indexed)
            } else {
                index::grown(
                    old(pg).offsets@,
                    old(pg).page as int,
                    old(pg).fully_indexed,
                    old(pg).here() + consumed,
                    full,
                    old(self).file_size,
                )
            }),
            (*final(self), w) == ahead_work(*old(self), final(pg).offsets@, old(pg).page as int),
    {
        if let TextSource::Chapter { .. } = self.source {
            return LoadWork::Decode;
        }
        pg.note_filled(consumed, full, self.file_size);
        match pg.next_to_prefetch() {
            Some((page, at)) => LoadWork::ReadAhead {
                page,
                from: match self.bundle_base {
                    Some(base) => AheadSource::Bundle { at: base + at },
                    None => AheadSource::File { at },
                },
            },
            None => {
                self.ahead = Ahead { page: None, len: 0 };
                LoadWork::Decode
            },
        }
    }

    /// After `ReadAhead` of `page`: the bytes that were read, if that
    /// succeeded.
    pub fn after_ahead(&mut self, page: usize, read: Option<usize>) -> (w: LoadWork)
        ensures
            w == LoadWork::Decode,
            *final(self) == (PageLoad {
                ahead: match read {
                    Some(len) => Ahead { page: Some(page), len },
                    None => nothing_ahead(),
                },
                ..*old(self)
            }),
    {
        self.ahead = match read {
            Some(len) => Ahead { page: Some(page), len },
            None => Ahead { page: None, len: 0 },
        };
        LoadWork::Decode
    }

    /// After `Decode`, whatever came of it.
    pub fn after_decode(&self) -> (w: LoadWork)
        ensures
            w == LoadWork::Done,
    {
        LoadWork::Done
    }
}

/// What was read ahead serves the page that it was read for, and no other.
pub proof fn law_read_ahead_serves_its_page(
    pg: PageIndex,
    ahead: Ahead,
    bundle_base: Option<u32>,
    file_size: u32,
)
    ensures
        index::text_source(
            pg.here(),
            0,
            ahead.page == Some(pg.page),
            bundle_base,
            file_size,
        ) == TextSource::Prefetched <==> ahead.page == Some(pg.page),
{
}

/// The page that is read ahead is the next one, and its text is the one that
/// it would be read from.
pub proof fn law_ahead_is_the_next_page(p: PageLoad, offsets: Seq<u32>, page: usize)
    requires
        page < offsets.len() <= usize::MAX,
    ensures
        ahead_work(p, offsets, page as int).1 matches LoadWork::ReadAhead { page: next, from } ==> {
            &&& next == page + 1
            &&& next < offsets.len()
            &&& match index::text_source(offsets[next as int], 0, false, p.bundle_base, 1) {
                TextSource::Bundle { at } => from == (AheadSource::Bundle { at }),
                TextSource::File { at } => from == (AheadSource::File { at }),
                _ => false,
            }
        },
{
}

} // verus!
