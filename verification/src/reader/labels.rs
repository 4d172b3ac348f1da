//! The reader's captions. They are made whole; how much of one fits on its row
//! is left to what draws it.

use crate::book_record::{Position, NO_ANCHOR};
use crate::markup::Anchor;
use crate::reader::progress;
use crate::reader::state::{
    BgCacheState, LoadingReason, ReaderApp, State, TocEntry, MAX_SPINE, NO_CHAPTER,
};
use crate::ui;
use vstd::prelude::*;

verus! {

// ── where the reader is ───────────────────────────────────────────

/// The first entry from `i` on that is `chapter`.
pub open spec fn find_entry(toc: Seq<TocEntry>, chapter: u16, i: int) -> Option<int>
    decreases toc.len() - i,
{
    if i < 0 || i >= toc.len() {
        None
    } else if toc[i].spine_idx == chapter {
        Some(i)
    } else {
        find_entry(toc, chapter, i + 1)
    }
}

/// Number and count of the open chapter as the device names it: by its
/// contents where there are any, where a chapter without an entry has number
/// 0, and else by its chapters.
pub open spec fn numbering(a: ReaderApp) -> (int, int) {
    let toc = a.contents.toc@;
    if toc.len() > 0 {
        (
            match find_entry(toc, a.chapter, 0) {
                Some(i) => i + 1,
                None => 0,
            },
            toc.len() as int,
        )
    } else {
        (a.chapter + 1, a.book.spine_len as int)
    }
}

/// The contents and the chapter can be numbered.
pub open spec fn numbered(a: ReaderApp) -> bool {
    a.contents.toc@.len() <= 65535 && a.chapter < 65535
}

pub fn find_chapter(toc: &Vec<TocEntry>, chapter: u16) -> (r: Option<usize>)
    ensures
        match r {
            Some(i) => find_entry(toc@, chapter, 0) == Some(i as int) && i < toc@.len(),
            None => find_entry(toc@, chapter, 0) is None,
        },
{
    let mut i: usize = 0;
    while i < toc.len()
        invariant
            i <= toc@.len(),
            find_entry(toc@, chapter, i as int) == find_entry(toc@, chapter, 0),
        decreases toc@.len() - i,
    {
        if toc[i].spine_idx == chapter {
            return Some(i);
        }
        i = i + 1;
    }
    None
}

/// The place on screen, to be written to the book's record. `anchor` is that
/// of the page's first byte, `layout_hash` the hash of its layout.
pub open spec fn place(a: ReaderApp, layout_hash: u32, anchor: Option<Anchor>) -> Option<Position> {
    if a.state == State::Ready || a.state == State::ShowToc {
        let epub = a.book.is_epub;
        Some(
            Position {
                archive_size: if epub {
                    a.book.archive_size
                } else {
                    a.book.file_size
                },
                chapter: if epub {
                    a.chapter
                } else {
                    0
                },
                byte_offset: a.pg.here(),
                content_fmt: if epub {
                    a.book.content_fmt
                } else {
                    0
                },
                para: if epub && anchor is Some {
                    anchor->0.para
                } else {
                    NO_ANCHOR
                },
                word: if epub && anchor is Some {
                    anchor->0.word
                } else {
                    NO_ANCHOR
                },
                layout_key: layout_hash,
                page: a.pg.page as u16,
                chapter_no: if epub {
                    numbering(a).0 as u16
                } else {
                    0
                },
                chapter_count: if epub {
                    numbering(a).1 as u16
                } else {
                    0
                },
                progress_pct: progress::progress(a) as u8,
                font_idx: a.look.chosen.font_size_idx,
            },
        )
    } else {
        None
    }
}

impl ReaderApp {
    pub fn chapter_numbering(&self) -> (r: (u16, u16))
        requires
            self.wf(),
            numbered(*self),
        ensures
            (r.0 as int, r.1 as int) == numbering(*self),
    {
        if self.contents.toc.len() > 0 {
            let count: u16 = self.contents.toc.len() as u16;
            match find_chapter(&self.contents.toc, self.chapter) {
                Some(i) => ((i + 1) as u16, count),
                None => (0, count),
            }
        } else {
            (self.chapter + 1, self.book.spine_len as u16)
        }
    }

    /// The place on screen, if a page is.
    pub fn current_position(&self, layout_hash: u32, anchor: Option<Anchor>) -> (p: Option<Position>)
        requires
            self.wf(),
            numbered(*self),
        ensures
            p == place(*self, layout_hash, anchor),
    {
        match self.state {
            State::Ready => {},
            State::ShowToc => {},
            _ => {
                return None;
            },
        }
        let mut p = Position {
            archive_size: self.book.file_size,
            chapter: 0,
            byte_offset: self.pg.byte_offset(),
            content_fmt: 0,
            para: NO_ANCHOR,
            word: NO_ANCHOR,
            layout_key: layout_hash,
            page: self.pg.page as u16,
            chapter_no: 0,
            chapter_count: 0,
            progress_pct: self.progress_pct(),
            font_idx: self.look.chosen.font_size_idx,
        };
        if self.book.is_epub {
            let (no, count): (u16, u16) = self.chapter_numbering();
            p.archive_size = self.book.archive_size;
            p.chapter = self.chapter;
            p.content_fmt = self.book.content_fmt;
            p.chapter_no = no;
            p.chapter_count = count;
            if let Some(a) = anchor {
                p.para = a.para;
                p.word = a.word;
            }
        }
        Some(p)
    }

    /// What a bookmark of the page holds: its first byte and its chapter.
    pub fn save_position(&self) -> (r: Option<(u32, u16)>)
        requires
            self.wf(),
        ensures
            r == (if self.state == State::Ready {
                Some((self.pg.here(), self.chapter))
            } else {
                None
            }),
    {
        if self.state == State::Ready {
            Some((self.pg.byte_offset(), self.chapter))
        } else {
            None
        }
    }
}

// ── captions ──────────────────────────────────────────────────────

/// `text` followed by a number.
pub open spec fn with_num(text: Seq<char>, n: int) -> Seq<char> {
    text + ui::num(n as nat)
}

/// Two numbers with a text between them.
pub open spec fn num_of(a: int, mid: Seq<char>, b: int) -> Seq<char> {
    ui::num(a as nat) + mid + ui::num(b as nat)
}

fn num_pair(a: u64, mid: &str, b: u64) -> (s: String)
    ensures
        s@ == num_of(a as int, mid@, b as int),
{
    let mut s: String = String::new();
    ui::push_num(&mut s, a);
    proof {
        assert(s@ =~= ui::num(a as nat));
    }
    s.append(mid);
    ui::push_num(&mut s, b);
    s
}

/// The caption of the stage row.
pub open spec fn stage_caption(a: ReaderApp, size_name: Seq<char>) -> Seq<char> {
    let n = a.book.spine_len as int;
    let ch = a.chapter + 1;
    if a.error is Some {
        "COULD NOT OPEN"@
    } else {
        match a.state {
            State::NeedBookmark | State::NeedInit | State::NeedOpf | State::NeedToc => {
                if a.loading.reason == LoadingReason::Resume {
                    "RESUMING"@
                } else {
                    "OPENING"@
                }
            },
            State::NeedCache => if n > 0 {
                "CACHING CHAPTER "@ + num_of(ch, " OF "@, n)
            } else {
                "CACHING"@
            },
            State::NeedIndex => if a.typesetting.waits > 0 {
                "WAITING FOR IMAGES"@
            } else if a.loading.reason == LoadingReason::Font {
                "TYPESETTING \u{00B7} "@ + size_name
            } else if a.book.is_epub && n > 0 {
                "TYPESETTING CHAPTER "@ + num_of(ch, " OF "@, n)
            } else {
                "TYPESETTING"@
            },
            State::NeedPage => "OPENING PAGE"@,
            State::Ready | State::ShowToc => "READY"@,
            State::Error => ""@,
        }
    }
}

/// How far opening is in percent; none for an error.
pub open spec fn stage_pct(a: ReaderApp) -> Option<u8> {
    if a.error is Some {
        None
    } else {
        Some(
            match a.state {
                State::NeedBookmark => 5,
                State::NeedInit => 15,
                State::NeedOpf => 25,
                State::NeedToc => 40,
                State::NeedCache => 55,
                State::NeedIndex => 75,
                State::NeedPage => 90,
                State::Ready => 100,
                State::ShowToc => 100,
                State::Error => 0,
            },
        )
    }
}

fn joined(head: &str, tail: &str) -> (s: String)
    ensures
        s@ == head@ + tail@,
{
    let mut s: String = head.to_owned();
    s.append(tail);
    s
}

impl ReaderApp {
    fn stage_text(&self, size_name: &str) -> (s: String)
        ensures
            s@ == stage_caption(*self, size_name@),
    {
        if self.error.is_some() {
            return "COULD NOT OPEN".to_owned();
        }
        let n: u64 = self.book.spine_len as u64;
        let ch: u64 = self.chapter as u64 + 1;
        match self.state {
            State::NeedBookmark | State::NeedInit | State::NeedOpf | State::NeedToc => {
                if self.loading.reason == LoadingReason::Resume {
                    "RESUMING".to_owned()
                } else {
                    "OPENING".to_owned()
                }
            },
            State::NeedCache => if n > 0 {
                joined("CACHING CHAPTER ", num_pair(ch, " OF ", n).as_str())
            } else {
                "CACHING".to_owned()
            },
            State::NeedIndex => if self.typesetting.waits > 0 {
                "WAITING FOR IMAGES".to_owned()
            } else if self.loading.reason == LoadingReason::Font {
                joined("TYPESETTING \u{00B7} ", size_name)
            } else if self.book.is_epub && n > 0 {
                joined("TYPESETTING CHAPTER ", num_pair(ch, " OF ", n).as_str())
            } else {
                "TYPESETTING".to_owned()
            },
            State::NeedPage => "OPENING PAGE".to_owned(),
            State::Ready | State::ShowToc => "READY".to_owned(),
            State::Error => "".to_owned(),
        }
    }

    /// Caption, value and percentage of the stage row. `size_name` is the name
    /// of the font size in capitals, `error_text` what an error says.
    pub fn loading_stage(&self, size_name: &str, error_text: &str) -> (r: (String, String, Option<u8>))
        ensures
            r.0@ == stage_caption(*self, size_name@),
            r.2 == stage_pct(*self),
            r.1@ == (match stage_pct(*self) {
                None => error_text@,
                Some(pct) => ui::num(pct as nat) + "%"@,
            }),
    {
        let cap: String = self.stage_text(size_name);
        if self.error.is_some() {
            return (cap, error_text.to_owned(), None);
        }
        let pct: u8 = match self.state {
            State::NeedBookmark => 5,
            State::NeedInit => 15,
            State::NeedOpf => 25,
            State::NeedToc => 40,
            State::NeedCache => 55,
            State::NeedIndex => 75,
            State::NeedPage => 90,
            State::Ready => 100,
            State::ShowToc => 100,
            State::Error => 0,
        };
        let mut val: String = String::new();
        ui::push_num(&mut val, pct as u64);
        proof {
            assert(val@ =~= ui::num(pct as nat));
        }
        val.append("%");
        (cap, val, Some(pct))
    }
}

/// The further opening is, the higher its percentage.
pub proof fn law_stages_rise(a: ReaderApp, b: ReaderApp)
    requires
        a.error is None,
        b.error is None,
        a.state != State::Error,
        b.state != State::Error,
        crate::reader::outcomes::rank(a.state) < crate::reader::outcomes::rank(b.state),
    ensures
        (stage_pct(a)->0) < (stage_pct(b)->0),
{
}

/// Where the book will open: its chapter and how much is read, its start, or
/// what the stored header knows before its chapters are. A text shows its page
/// or its size.
pub open spec fn resume_line(a: ReaderApp) -> Seq<char> {
    let n = a.book.spine_len as int;
    let ch = a.chapter + 1;
    let hint = a.book.spine_hint as int;
    if a.book.is_epub {
        if n == 0 {
            if ch > 1 && hint > 0 {
                "Chapter "@ + num_of(ch, " of "@, hint)
            } else if ch > 1 {
                with_num("Chapter "@, ch)
            } else if hint > 0 {
                ui::num(hint as nat) + " chapters"@
            } else {
                ""@
            }
        } else if a.chapter == 0 && (a.restore.offset is None || a.restore.offset == Some(0u32)) {
            with_num("From the start \u{00B7} "@, n) + " chapters"@
        } else {
            "Chapter "@ + num_of(ch, " of "@, n) + " \u{00B7} "@ + ui::num(
                progress::progress(a) as nat,
            ) + "% read"@
        }
    } else if a.book.file_size == 0 {
        ""@
    } else if a.restore.page_hint is Some && a.restore.page_hint->0 > 0 {
        with_num("Page "@, a.restore.page_hint->0 + 1)
    } else {
        ui::num((a.book.file_size / 1024) as nat) + " KB"@
    }
}

/// The text of the caching indicator.
pub open spec fn cache_caption(a: ReaderApp) -> Seq<char> {
    if progress::caching_chapters(a) {
        "Caching "@ + num_of(progress::cached_chapters(a), "/"@, a.book.spine_len as int)
    } else if a.cache.img_found > 0 {
        "Caching images "@ + num_of(a.cache.img_cached as int, "/"@, a.cache.img_found as int)
    } else {
        "Caching images"@
    }
}

/// What the footer says of caching, nothing while none is going on.
pub open spec fn footer_caption(a: ReaderApp) -> Seq<char> {
    let cached = progress::cached_chapters(a);
    let total = a.book.spine_len as int;
    if !a.book.is_epub || a.cache.bg == BgCacheState::Idle {
        ""@
    } else if cached < total {
        "["@ + num_of(cached, "/"@, total) + "]"@
    } else if a.cache.img_found > 0 {
        "[img "@ + num_of(a.cache.img_cached as int, "/"@, a.cache.img_found as int) + "]"@
    } else {
        "[img]"@
    }
}

/// What the position overlay says.
pub open spec fn overlay_caption(a: ReaderApp) -> Seq<char> {
    let page = a.pg.page + 1;
    let total = a.pg.total();
    if a.book.is_epub && a.book.spine_len > 1 {
        let head = "Ch "@ + num_of(a.chapter + 1, "/"@, a.book.spine_len as int);
        if a.pg.fully_indexed {
            head + "  Page "@ + num_of(page, "/"@, total)
        } else {
            head + with_num("  Page "@, page)
        }
    } else if a.pg.fully_indexed {
        "Page "@ + num_of(page, "/"@, total)
    } else {
        with_num("Page "@, page) + with_num("  ("@, progress::progress(a)) + "%)"@
    }
}

/// The first entry from `i` on that is `chapter` and has a title.
pub open spec fn find_titled(toc: Seq<TocEntry>, chapter: u16, i: int) -> Option<int>
    decreases toc.len() - i,
{
    if i < 0 || i >= toc.len() {
        None
    } else if toc[i].spine_idx == chapter && toc[i].title@.len() > 0 {
        Some(i)
    } else {
        find_titled(toc, chapter, i + 1)
    }
}

/// What the menu says of the place: the chapter by its title or number, or the
/// page of a text, and how much is read.
pub open spec fn menu_caption(a: ReaderApp) -> Seq<char> {
    if a.state != State::Ready && a.state != State::ShowToc {
        ""@
    } else {
        (if a.book.is_epub && a.book.spine_len > 0 {
            match find_titled(a.contents.toc@, a.chapter, 0) {
                Some(i) => a.contents.toc@[i].title@,
                None => "Chapter "@ + num_of(a.chapter + 1, " of "@, a.book.spine_len as int),
            }
        } else {
            "Page "@ + num_of(a.pg.page + 1, " of "@, a.pg.total())
        }) + with_num(" \u{00B7} "@, progress::progress(a)) + "% read"@
    }
}

fn num_text(head: &str, n: u64, tail: &str) -> (s: String)
    ensures
        s@ == with_num(head@, n as int) + tail@,
{
    let mut s: String = head.to_owned();
    ui::push_num(&mut s, n);
    s.append(tail);
    s
}

/// A number with text behind it.
fn num_first(n: u64, tail: &str) -> (s: String)
    ensures
        s@ == ui::num(n as nat) + tail@,
{
    let mut s: String = String::new();
    ui::push_num(&mut s, n);
    proof {
        assert(s@ =~= ui::num(n as nat));
    }
    s.append(tail);
    s
}

proof fn lemma_empty_text()
    ensures
        ""@ == Seq::<char>::empty(),
        forall|t: Seq<char>| #[trigger] (t + ""@) == t,
{
    reveal_strlit("");
    assert(""@ =~= Seq::<char>::empty());
    assert forall|t: Seq<char>| #[trigger] (t + ""@) == t by {
        assert(t + ""@ =~= t);
    }
}

impl ReaderApp {
    /// The line of the loading screen that says where the book opens.
    pub fn loading_resume_line(&self) -> (s: String)
        requires
            self.wf(),
            self.restore.page_hint matches Some(p) ==> p < usize::MAX,
        ensures
            s@ == resume_line(*self),
    {
        proof {
            lemma_empty_text();
        }
        let n: u64 = self.book.spine_len as u64;
        let ch: u64 = self.chapter as u64 + 1;
        let hint: u64 = self.book.spine_hint as u64;
        if self.book.is_epub {
            if n == 0 {
                if ch > 1 && hint > 0 {
                    joined("Chapter ", num_pair(ch, " of ", hint).as_str())
                } else if ch > 1 {
                    num_text("Chapter ", ch, "")
                } else if hint > 0 {
                    num_first(hint, " chapters")
                } else {
                    "".to_owned()
                }
            } else {
                let fresh: bool = self.chapter == 0 && match self.restore.offset {
                    None => true,
                    Some(off) => off == 0,
                };
                if fresh {
                    num_text("From the start \u{00B7} ", n, " chapters")
                } else {
                    let mut s: String = joined("Chapter ", num_pair(ch, " of ", n).as_str());
                    s.append(" \u{00B7} ");
                    ui::push_num(&mut s, self.progress_pct() as u64);
                    s.append("% read");
                    s
                }
            }
        } else if self.book.file_size == 0 {
            "".to_owned()
        } else {
            match self.restore.page_hint {
                Some(p) => if p > 0 {
                    num_text("Page ", (p + 1) as u64, "")
                } else {
                    num_first((self.book.file_size / 1024) as u64, " KB")
                },
                None => num_first((self.book.file_size / 1024) as u64, " KB"),
            }
        }
    }

    /// The text of the caching indicator.
    pub fn set_cache_loading(&self) -> (s: String)
        requires
            self.wf(),
        ensures
            s@ == cache_caption(*self),
    {
        if self.in_chapter_phase() {
            joined(
                "Caching ",
                num_pair(
                    self.cached_chapter_count() as u64,
                    "/",
                    self.book.spine_len as u64,
                ).as_str(),
            )
        } else if self.cache.img_found > 0 {
            joined(
                "Caching images ",
                num_pair(
                    self.cache.img_cached as u64,
                    "/",
                    self.cache.img_found as u64,
                ).as_str(),
            )
        } else {
            "Caching images".to_owned()
        }
    }

    /// What the footer says of caching.
    pub fn footer_text(&self) -> (s: String)
        requires
            self.wf(),
        ensures
            s@ == footer_caption(*self),
    {
        if !self.has_bg_work() {
            return "".to_owned();
        }
        let cached: usize = self.cached_chapter_count();
        let total: usize = self.book.spine_len;
        if cached < total {
            let mut s: String = joined("[", num_pair(cached as u64, "/", total as u64).as_str());
            s.append("]");
            s
        } else if self.cache.img_found > 0 {
            let mut s: String = joined(
                "[img ",
                num_pair(self.cache.img_cached as u64, "/", self.cache.img_found as u64).as_str(),
            );
            s.append("]");
            s
        } else {
            "[img]".to_owned()
        }
    }

    /// What the position overlay says.
    pub fn overlay_text(&self) -> (s: String)
        requires
            self.wf(),
        ensures
            s@ == overlay_caption(*self),
    {
        let page: u64 = self.pg.page as u64 + 1;
        let total: u64 = self.pg.offsets.len() as u64;
        if self.book.is_epub && self.book.spine_len > 1 {
            let mut s: String = joined(
                "Ch ",
                num_pair(self.chapter as u64 + 1, "/", self.book.spine_len as u64).as_str(),
            );
            if self.pg.fully_indexed {
                s.append("  Page ");
                s.append(num_pair(page, "/", total).as_str());
                s
            } else {
                proof {
                    lemma_empty_text();
                }
                s.append(num_text("  Page ", page, "").as_str());
                s
            }
        } else if self.pg.fully_indexed {
            joined("Page ", num_pair(page, "/", total).as_str())
        } else {
            proof {
                lemma_empty_text();
            }
            let mut s: String = num_text("Page ", page, "");
            let tail: String = num_text("  (", self.progress_pct() as u64, "");
            s.append(tail.as_str());
            s.append("%)");
            s
        }
    }

    /// What the menu says of the place.
    pub fn menu_meta(&self) -> (s: String)
        requires
            self.wf(),
        ensures
            s@ == menu_caption(*self),
    {
        match self.state {
            State::Ready => {},
            State::ShowToc => {},
            _ => {
                return "".to_owned();
            },
        }
        let mut s: String = if self.book.is_epub && self.book.spine_len > 0 {
            match self.titled_entry() {
                Some(i) => self.contents.toc[i].title.as_str().to_owned(),
                None => joined(
                    "Chapter ",
                    num_pair(self.chapter as u64 + 1, " of ", self.book.spine_len as u64).as_str(),
                ),
            }
        } else {
            joined(
                "Page ",
                num_pair(
                    self.pg.page as u64 + 1,
                    " of ",
                    self.pg.offsets.len() as u64,
                ).as_str(),
            )
        };
        proof {
            lemma_empty_text();
        }
        let tail: String = num_text(" \u{00B7} ", self.progress_pct() as u64, "");
        s.append(tail.as_str());
        s.append("% read");
        s
    }

    fn titled_entry(&self) -> (r: Option<usize>)
        ensures
            match r {
                Some(i) => find_titled(self.contents.toc@, self.chapter, 0) == Some(i as int) && i
                    < self.contents.toc@.len(),
                None => find_titled(self.contents.toc@, self.chapter, 0) is None,
            },
    {
        let mut i: usize = 0;
        while i < self.contents.toc.len()
            invariant
                i <= self.contents.toc@.len(),
                find_titled(self.contents.toc@, self.chapter, i as int) == find_titled(
                    self.contents.toc@,
                    self.chapter,
                    0,
                ),
            decreases self.contents.toc@.len() - i,
        {
            if self.contents.toc[i].spine_idx == self.chapter
                && !self.contents.toc[i].title.as_str().is_empty() {
                return Some(i);
            }
            i = i + 1;
        }
        None
    }
}

// ── the contents sheet ────────────────────────────────────────────

/// Chapters among the first `n` that were not laid out.
pub open spec fn not_laid_out(pages: Seq<u16>, n: int) -> int
    decreases n,
{
    if n <= 0 {
        0
    } else {
        not_laid_out(pages, n - 1) + (if pages[n - 1] == 0 {
            1int
        } else {
            0
        })
    }
}

/// The line under the title of the sheet: the author, the chapters, and their
/// pages once all of them are known.
pub open spec fn sheet_caption(a: ReaderApp, author: Seq<char>) -> Seq<char> {
    let n = a.book.spine_len as int;
    let unknown = not_laid_out(a.contents.pages@, n);
    (if author.len() > 0 {
        author + " \u{00B7} "@
    } else {
        ""@
    }) + (ui::num(n as nat) + " chapters"@) + (if unknown == 0 {
        with_num(" \u{00B7} "@, progress::pages_before(a.contents.pages@, n)) + " pages"@
    } else {
        with_num(" \u{00B7} "@, unknown) + " not yet laid out"@
    })
}

/// A row of the sheet.
pub struct SheetRow {
    /// the entry that it shows
    pub entry: usize,
    /// it is the open chapter, and has a bookmark in place of its number
    pub here: bool,
    pub selected: bool,
    pub value: String,
    /// page of the chapter and its pages
    pub progress: Option<(u32, u32)>,
}

/// Entry `idx` is the open chapter.
pub open spec fn is_here(a: ReaderApp, idx: int) -> bool {
    let at = a.contents.toc@[idx].spine_idx;
    at != NO_CHAPTER && at == a.chapter
}

/// The value at the end of an entry's row: the page of the open chapter, the
/// pages of another, or a dot where they are not known.
pub open spec fn row_value(a: ReaderApp, idx: int) -> Seq<char> {
    let at = a.contents.toc@[idx].spine_idx as int;
    if is_here(a, idx) {
        num_of(a.pg.page + 1, " / "@, a.pg.total())
    } else if at < a.contents.pages@.len() && a.contents.pages@[at] > 0 {
        ui::num(a.contents.pages@[at] as nat)
    } else {
        "\u{00B7}"@
    }
}

/// The row of entry `idx`.
pub open spec fn row_is(a: ReaderApp, r: SheetRow, idx: int) -> bool {
    &&& r.entry == idx
    &&& r.here == is_here(a, idx)
    &&& r.selected == (idx == a.contents.selected)
    &&& r.value@ == row_value(a, idx)
    &&& r.progress == (if is_here(a, idx) {
        Some(((a.pg.page + 1) as u32, a.pg.total() as u32))
    } else {
        None
    })
}

impl ReaderApp {
    /// The line under the title of the contents sheet.
    pub fn sheet_text(&self, author: &str) -> (s: String)
        requires
            self.wf(),
        ensures
            s@ == sheet_caption(*self, author@),
    {
        let n: usize = self.book.spine_len;
        let mut unknown: u64 = 0;
        let mut total: u64 = 0;
        let mut i: usize = 0;
        while i < n
            invariant
                i <= n <= MAX_SPINE,
                self.contents.pages@.len() == MAX_SPINE,
                unknown == not_laid_out(self.contents.pages@, i as int),
                unknown <= i,
                total == progress::pages_before(self.contents.pages@, i as int),
                total <= 65535 * i,
            decreases n - i,
        {
            if self.contents.pages[i] == 0 {
                unknown = unknown + 1;
            }
            total = total + self.contents.pages[i] as u64;
            i = i + 1;
        }
        let mut s: String = if author.is_empty() {
            "".to_owned()
        } else {
            joined(author, " \u{00B7} ")
        };
        s.append(num_first(n as u64, " chapters").as_str());
        let tail: String = if unknown == 0 {
            num_text(" \u{00B7} ", total, " pages")
        } else {
            num_text(" \u{00B7} ", unknown, " not yet laid out")
        };
        s.append(tail.as_str());
        s
    }

    /// The row of an entry.
    fn sheet_row(&self, idx: usize) -> (r: SheetRow)
        requires
            self.wf(),
            idx < self.contents.toc@.len(),
        ensures
            row_is(*self, r, idx as int),
    {
        let at: u16 = self.contents.toc[idx].spine_idx;
        let here: bool = at != NO_CHAPTER && at == self.chapter;
        let page: u32 = self.pg.page as u32 + 1;
        let total: u32 = self.pg.offsets.len() as u32;
        let value: String = if here {
            num_pair(page as u64, " / ", total as u64)
        } else if (at as usize) < self.contents.pages.len() && self.contents.pages[at as usize] > 0 {
            let mut v: String = String::new();
            ui::push_num(&mut v, self.contents.pages[at as usize] as u64);
            proof {
                assert(v@ =~= ui::num(self.contents.pages@[at as int] as nat));
            }
            v
        } else {
            "\u{00B7}".to_owned()
        };
        SheetRow {
            entry: idx,
            here,
            selected: idx == self.contents.selected,
            value,
            progress: if here {
                Some((page, total))
            } else {
                None
            },
        }
    }

    /// The rows of the contents sheet that are seen, of at most `vis`.
    pub fn sheet_rows(&self, vis: usize) -> (rows: Vec<SheetRow>)
        requires
            self.wf(),
        ensures
            ({
                let len = self.contents.toc@.len() as int;
                let scroll = self.contents.scroll as int;
                let left = if len > scroll {
                    len - scroll
                } else {
                    0
                };
                rows@.len() == (if vis < left {
                    vis as int
                } else {
                    left
                })
            }),
            forall|i: int|
                0 <= i < rows@.len() ==> row_is(
                    *self,
                    #[trigger] rows@[i],
                    self.contents.scroll + i,
                ),
    {
        let len: usize = self.contents.toc.len();
        let scroll: usize = self.contents.scroll;
        let mut rows: Vec<SheetRow> = Vec::new();
        let mut idx: usize = scroll;
        while idx < len && rows.len() < vis
            invariant
                self.wf(),
                len == self.contents.toc@.len(),
                scroll == self.contents.scroll,
                scroll <= idx,
                idx <= len || idx == scroll,
                rows@.len() == idx - scroll,
                rows@.len() <= vis,
                forall|i: int|
                    0 <= i < rows@.len() ==> row_is(*self, #[trigger] rows@[i], scroll + i),
            decreases len - idx,
        {
            rows.push(self.sheet_row(idx));
            idx = idx + 1;
        }
        rows
    }
}

// ── the quick menu ────────────────────────────────────────────────

/// A row of the quick menu.
pub enum QuickAction {
    /// the contents sheet, with the chapter and the chapters
    Contents { chapter: u32, chapters: u32 },
    /// the font size
    FontSize { idx: u8 },
}

impl ReaderApp {
    /// The rows that the reader adds to the quick menu: the contents of a book
    /// that has any, and the font size.
    pub fn quick_actions(&self) -> (rows: Vec<QuickAction>)
        requires
            self.wf(),
        ensures
            ({
                let font = QuickAction::FontSize { idx: self.look.chosen.font_size_idx };
                rows@ == (if self.book.is_epub && self.contents.toc@.len() > 0 {
                    seq![
                        QuickAction::Contents {
                            chapter: (self.chapter + 1) as u32,
                            chapters: self.book.spine_len as u32,
                        },
                        font,
                    ]
                } else {
                    seq![font]
                })
            }),
    {
        let mut rows: Vec<QuickAction> = Vec::new();
        if self.book.is_epub && self.contents.toc.len() > 0 {
            rows.push(
                QuickAction::Contents {
                    chapter: self.chapter as u32 + 1,
                    chapters: self.book.spine_len as u32,
                },
            );
        }
        rows.push(QuickAction::FontSize { idx: self.look.chosen.font_size_idx });
        proof {
            let font = QuickAction::FontSize { idx: self.look.chosen.font_size_idx };
            if self.book.is_epub && self.contents.toc@.len() > 0 {
                assert(rows@ =~= seq![
                    QuickAction::Contents {
                        chapter: (self.chapter + 1) as u32,
                        chapters: self.book.spine_len as u32,
                    },
                    font,
                ]);
            } else {
                assert(rows@ =~= seq![font]);
            }
        }
        rows
    }
}

} // verus!
