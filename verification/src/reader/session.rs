//! What the reader tells the rest of the device: the book that is open, the
//! record of the last book, and the card that is shown while it sleeps.

use crate::book_record::ReadingStats;
use crate::bytes;
use crate::hash;
use crate::reader::labels;
use crate::reader::progress;
use crate::reader::state::{Book, Contents, ReaderApp, MAX_SPINE};
use crate::recent;
use crate::recent::RecentRecord;
use vstd::prelude::*;

verus! {

/// The number that chooses the shape in place of a cover: the book's hash, or
/// that of its file name.
pub open spec fn stand_in_id(b: Book) -> u32 {
    if b.is_epub && b.name_hash != 0 {
        b.name_hash
    } else {
        hash::fnv(b.filename@)
    }
}

/// What is known of a book before it is opened, from the header of its bundle.
pub struct BundleHead {
    pub name_hash: u32,
    pub core_ready: bool,
    pub title: Vec<u8>,
    pub spine_count: u16,
}

/// The head belongs to the book, and the bundle is complete.
pub open spec fn head_counts(b: Book, h: BundleHead) -> bool {
    b.is_epub && !b.title_is_real && h.name_hash == hash::fnv(b.filename@) && h.core_ready
}

/// The book with what the head says of it.
pub open spec fn headed(b: Book, h: BundleHead) -> Book {
    let titled = head_counts(b, h) && h.title@.len() > 0;
    Book {
        title: if titled {
            h.title
        } else {
            b.title
        },
        title_is_real: b.title_is_real || titled,
        spine_hint: if head_counts(b, h) {
            h.spine_count
        } else {
            b.spine_hint
        },
        ..b
    }
}

/// The title is a real one and not the one that is known.
pub open spec fn title_is_new(b: Book, known: Option<Seq<u8>>) -> bool {
    b.title_is_real && b.title@.len() > 0 && b.filename@.len() > 0 && known != Some(b.title@)
}

/// What the card says of a book while the device sleeps.
pub struct SleepInfo {
    pub progress: u8,
    pub pages: u32,
    pub time_secs: u32,
    /// page of the chapter and its pages
    pub chapter_pages: Option<(u32, u32)>,
    /// page of the book and its pages
    pub book_pages: Option<(u32, u32)>,
    /// entry of the contents whose title is shown
    pub chapter_entry: Option<usize>,
    /// number of the chapter and chapters
    pub chapter_number: Option<(u16, u16)>,
}

/// The page of the open text and its pages, once all are known.
pub open spec fn text_pages(a: ReaderApp) -> Option<(u32, u32)> {
    if a.pg.fully_indexed {
        Some(((a.pg.page + 1) as u32, a.pg.total() as u32))
    } else {
        None
    }
}

/// The counts of pages after a look for the chapter's layout, and whether there
/// is one.
pub open spec fn layout_sought(a: ReaderApp, stored: Seq<u16>) -> (Seq<u16>, bool) {
    let ch = a.chapter as int;
    let n = a.book.spine_len as int;
    let pages = a.contents.pages@;
    (
        if ch < n && pages[ch] == 0 {
            Seq::new(
                MAX_SPINE as nat,
                |i: int|
                    if i < n {
                        stored[i]
                    } else {
                        pages[i]
                    },
            )
        } else {
            pages
        },
        ch >= n || pages[ch] > 0 || stored[ch] > 0,
    )
}

impl ReaderApp {
    pub fn has_book(&self) -> (b: bool)
        ensures
            b == (self.book.filename@.len() > 0),
    {
        self.book.filename.len() > 0
    }

    pub fn filename_len(&self) -> (n: usize)
        ensures
            n == self.book.filename@.len(),
    {
        self.book.filename.len()
    }

    pub fn filename_bytes(&self) -> (b: &[u8])
        ensures
            b@ == self.book.filename@,
    {
        self.book.filename.as_slice()
    }

    pub fn is_epub(&self) -> (b: bool)
        ensures
            b == self.book.is_epub,
    {
        self.book.is_epub
    }

    pub fn chapter(&self) -> (ch: u16)
        ensures
            ch == self.chapter,
    {
        self.chapter
    }

    pub fn page(&self) -> (p: usize)
        ensures
            p == self.pg.page,
    {
        self.pg.page
    }

    /// First byte of the page on screen.
    pub fn byte_offset(&self) -> (n: u32)
        requires
            self.wf(),
        ensures
            n == self.pg.here(),
    {
        self.pg.byte_offset()
    }

    pub fn font_size_idx(&self) -> (idx: u8)
        ensures
            idx == self.look.chosen.font_size_idx,
    {
        self.look.chosen.font_size_idx
    }

    pub fn reading_stats(&self) -> (s: ReadingStats)
        ensures
            s == self.log.stats,
    {
        self.log.stats
    }

    /// The name that the book is shown under: its title, or its file.
    pub fn display_name(&self) -> (n: &[u8])
        ensures
            n@ == (if self.book.title@.len() > 0 {
                self.book.title@
            } else {
                self.book.filename@
            }),
    {
        if self.book.title.len() > 0 {
            self.book.title.as_slice()
        } else {
            self.book.filename.as_slice()
        }
    }

    pub fn placeholder_id(&self) -> (id: u32)
        ensures
            id == stand_in_id(self.book),
    {
        if self.book.is_epub && self.book.name_hash != 0 {
            self.book.name_hash
        } else {
            hash::fnv1a(self.book.filename.as_slice())
        }
    }

    /// Take the title and the number of chapters from the header of the bundle,
    /// before the book is opened.
    pub fn prefill_title_from_bundle(&mut self, h: BundleHead)
        ensures
            *final(self) == (ReaderApp { book: headed(old(self).book, h), ..*old(self) }),
    {
        if !self.book.is_epub || self.book.title_is_real {
            return;
        }
        if h.name_hash != hash::fnv1a(self.book.filename.as_slice()) || !h.core_ready {
            return;
        }
        self.book.spine_hint = h.spine_count;
        if h.title.len() > 0 {
            self.book.title = h.title;
            self.book.title_is_real = true;
        }
    }

    /// Whether the title is to be noted for the file: a real one that differs
    /// from the one that is known. (Titles are appended, so saving the same one
    /// on every open would let their file grow without end.)
    pub fn save_title_mapping(&self, known: Option<&[u8]>) -> (b: bool)
        ensures
            b == title_is_new(
                self.book,
                match known {
                    Some(t) => Some(t@),
                    None => None,
                },
            ),
    {
        if !self.book.title_is_real || self.book.title.len() == 0 || self.book.filename.len() == 0 {
            return false;
        }
        match known {
            Some(t) => !bytes::same(t, self.book.title.as_slice()),
            None => true,
        }
    }

    /// A stored cover is to be looked for.
    pub fn wants_cover(&self) -> (b: bool)
        ensures
            b == (self.book.is_epub && self.book.filename@.len() > 0 && !self.has_cover),
    {
        self.book.is_epub && self.book.filename.len() > 0 && !self.has_cover
    }

    /// Write the record of the last book to the start of `out`; how many bytes
    /// it takes. A text has no author.
    pub fn write_recent(&self, author: &[u8], out: &mut [u8; recent::BUF_LEN]) -> (n: usize)
        requires
            self.wf(),
        ensures
            ({
                let want = recent::encoded(
                    recent::Recent {
                        filename: self.book.filename@,
                        title: self.book.title@,
                        author: if self.book.is_epub {
                            author@
                        } else {
                            Seq::empty()
                        },
                        progress: progress::progress(*self) as u8,
                    },
                );
                n == want.len() && n <= recent::BUF_LEN && final(out)@.take(n as int) == want
            }),
    {
        let none: &[u8] = vstd::slice::slice_subrange(author, 0, 0);
        proof {
            assert(none@ =~= Seq::<u8>::empty());
        }
        let rec = RecentRecord {
            filename: self.book.filename.as_slice(),
            title: self.book.title.as_slice(),
            author: if self.book.is_epub {
                author
            } else {
                none
            },
            progress: self.progress_pct(),
        };
        rec.encode(out)
    }

    /// What the card says of the open book while the device sleeps.
    pub fn fill_sleep_card(&self) -> (c: SleepInfo)
        requires
            self.wf(),
            labels::numbered(*self),
        ensures
            c.progress == progress::progress(*self),
            c.pages == self.log.stats.pages,
            c.time_secs == self.log.stats.time_secs,
            c.chapter_pages == text_pages(*self),
            !self.book.is_epub ==> c.book_pages == text_pages(*self) && c.chapter_entry is None
                && c.chapter_number is None,
            self.book.is_epub ==> {
                &&& c.book_pages == progress::book_place(*self)
                &&& match c.chapter_entry {
                    Some(i) => labels::find_entry(self.contents.toc@, self.chapter, 0) == Some(
                        i as int,
                    ),
                    None => labels::find_entry(self.contents.toc@, self.chapter, 0) is None,
                }
                &&& c.chapter_number == (if labels::numbering(*self).0 > 0 {
                    Some((labels::numbering(*self).0 as u16, labels::numbering(*self).1 as u16))
                } else {
                    None
                })
            },
    {
        let chapter_pages: Option<(u32, u32)> = if self.pg.fully_indexed {
            Some((self.pg.page as u32 + 1, self.pg.offsets.len() as u32))
        } else {
            None
        };
        if !self.book.is_epub {
            return SleepInfo {
                progress: self.progress_pct(),
                pages: self.log.stats.pages,
                time_secs: self.log.stats.time_secs,
                chapter_pages,
                book_pages: chapter_pages,
                chapter_entry: None,
                chapter_number: None,
            };
        }
        let (no, count): (u16, u16) = self.chapter_numbering();
        SleepInfo {
            progress: self.progress_pct(),
            pages: self.log.stats.pages,
            time_secs: self.log.stats.time_secs,
            chapter_pages,
            book_pages: self.book_position(),
            chapter_entry: labels::find_chapter(&self.contents.toc, self.chapter),
            chapter_number: if no > 0 {
                Some((no, count))
            } else {
                None
            },
        }
    }

    /// The chapter needs no typesetting that is worth announcing: it has a
    /// stored layout, or is none of the book's. Counts of pages that are not
    /// known are taken from the stored ones.
    pub fn chapter_has_layout(&mut self, stored: &[u16]) -> (b: bool)
        requires
            old(self).wf(),
            old(self).book.spine_len <= stored@.len(),
        ensures
            *final(self) == (ReaderApp {
                contents: Contents { pages: final(self).contents.pages, ..old(self).contents },
                ..*old(self)
            }),
            (final(self).contents.pages@, b) == layout_sought(*old(self), stored@),
    {
        let ch: usize = self.chapter as usize;
        let n: usize = self.book.spine_len;
        if ch >= n {
            return true;
        }
        if self.contents.pages[ch] > 0 {
            return true;
        }
        let mut i: usize = 0;
        while i < n
            invariant
                i <= n <= MAX_SPINE,
                n <= stored@.len(),
                old(self).contents.pages@.len() == MAX_SPINE,
                *self == (ReaderApp {
                    contents: Contents { pages: self.contents.pages, ..old(self).contents },
                    ..*old(self)
                }),
                self.contents.pages@.len() == MAX_SPINE,
                forall|k: int| 0 <= k < i ==> self.contents.pages@[k] == stored@[k],
                forall|k: int|
                    i <= k < MAX_SPINE ==> self.contents.pages@[k] == old(self).contents.pages@[k],
            decreases n - i,
        {
            self.contents.pages.set(i, stored[i]);
            i = i + 1;
        }
        proof {
            assert(self.contents.pages@ =~= Seq::new(
                MAX_SPINE as nat,
                |i: int|
                    if i < n {
                        stored@[i]
                    } else {
                        old(self).contents.pages@[i]
                    },
            ));
        }
        self.contents.pages[ch] > 0
    }
}

} // verus!
