//! The record of a book: reading position and statistics in one file.
//!
//! It is text, one `key=value` per line. The last line is a hash of everything
//! before it, so that a torn write loses the position and never invents one.

use crate::bytes;
use crate::digits;
use crate::hash;
use crate::markup::Anchor;
use vstd::prelude::*;

verus! {

/// `Position::para` and `word` where no anchor could be counted.
pub const NO_ANCHOR: u32 = u32::MAX;

/// Size of the buffer that holds a whole record.
pub const BUF_LEN: usize = 320;

/// Reading statistics of a book.
#[derive(Clone, Copy, Debug, PartialEq, Eq, Structural)]
pub struct ReadingStats {
    pub pages: u32,
    pub time_secs: u32,
    pub sessions: u32,
}

/// Where the reader was, in every unit that a restore or a screen needs.
#[derive(Clone, Copy, Debug, PartialEq, Eq, Structural)]
pub struct Position {
    /// size of the file that the offsets belong to
    pub archive_size: u32,
    /// spine index, 0 for a text file
    pub chapter: u16,
    /// byte of the chapter's stream
    pub byte_offset: u32,
    /// form of that stream, 0 for a text file
    pub content_fmt: u8,
    /// paragraph of the chapter, or `NO_ANCHOR`
    pub para: u32,
    /// word of the paragraph, or `NO_ANCHOR`
    pub word: u32,
    /// hash of the layout that `page` was counted under
    pub layout_key: u32,
    /// page of the chapter under that layout
    pub page: u16,
    /// number of the chapter as it is shown, from 1 on
    pub chapter_no: u16,
    /// chapters as they are shown, 0 if unknown
    pub chapter_count: u16,
    /// progress through the book in percent
    pub progress_pct: u8,
    /// font size at the time
    pub font_idx: u8,
}

impl Position {
    pub open spec fn spec_anchor(self) -> Option<Anchor> {
        if self.para != NO_ANCHOR && self.word != NO_ANCHOR {
            Some(Anchor { para: self.para, word: self.word })
        } else {
            None
        }
    }

    pub open spec fn spec_start() -> Position {
        Position {
            archive_size: 0,
            chapter: 0,
            byte_offset: 0,
            content_fmt: 0,
            para: 0,
            word: 0,
            layout_key: 0,
            page: 0,
            chapter_no: 0,
            chapter_count: 0,
            progress_pct: 0,
            font_idx: 0,
        }
    }

    pub fn anchor(&self) -> (a: Option<Anchor>)
        ensures
            a == self.spec_anchor(),
    {
        if self.para != NO_ANCHOR && self.word != NO_ANCHOR {
            Some(Anchor { para: self.para, word: self.word })
        } else {
            None
        }
    }
}

impl Default for Position {
    fn default() -> (p: Position)
        ensures
            p == Position::spec_start(),
    {
        Position {
            archive_size: 0,
            chapter: 0,
            byte_offset: 0,
            content_fmt: 0,
            para: 0,
            word: 0,
            layout_key: 0,
            page: 0,
            chapter_no: 0,
            chapter_count: 0,
            progress_pct: 0,
            font_idx: 0,
        }
    }
}

#[derive(Clone, Copy, Debug, PartialEq, Eq, Structural)]
pub struct BookRecord {
    pub stats: ReadingStats,
    pub pos: Option<Position>,
    /// counts the times the record was saved
    pub seq: u32,
}

impl BookRecord {
    pub open spec fn spec_empty() -> BookRecord {
        BookRecord {
            stats: ReadingStats { pages: 0, time_secs: 0, sessions: 0 },
            pos: None,
            seq: 0,
        }
    }

    pub fn empty() -> (r: BookRecord)
        ensures
            r == BookRecord::spec_empty(),
    {
        BookRecord {
            stats: ReadingStats { pages: 0, time_secs: 0, sessions: 0 },
            pos: None,
            seq: 0,
        }
    }
}

// ── keys ──────────────────────────────────────────────────────────

/// What a line of the record is about.
#[derive(Clone, Copy, Debug, PartialEq, Eq, Structural)]
pub enum Key {
    Pages,
    Time,
    Sessions,
    Serial,
    Size,
    Chapter,
    Offset,
    Format,
    Para,
    Word,
    Layout,
    Page,
    ChapterNo,
    ChapterCount,
    Percent,
    Font,
    Sum,
    Other,
}

/// The key as it is written.
pub open spec fn key_text(k: Key) -> Seq<u8> {
    match k {
        Key::Pages => seq![0x70u8, 0x61, 0x67, 0x65, 0x73],
        Key::Time => seq![0x74u8, 0x69, 0x6D, 0x65],
        Key::Sessions => seq![0x73u8, 0x65, 0x73, 0x73, 0x69, 0x6F, 0x6E, 0x73],
        Key::Serial => seq![0x73u8, 0x65, 0x71],
        Key::Size => seq![0x73u8, 0x69, 0x7A, 0x65],
        Key::Chapter => seq![0x63u8, 0x68],
        Key::Offset => seq![0x6Fu8, 0x66, 0x66],
        Key::Format => seq![0x66u8, 0x6D, 0x74],
        Key::Para => seq![0x70u8, 0x61, 0x72, 0x61],
        Key::Word => seq![0x77u8, 0x6F, 0x72, 0x64],
        Key::Layout => seq![0x6Cu8, 0x6B, 0x65, 0x79],
        Key::Page => seq![0x70u8, 0x61, 0x67, 0x65],
        Key::ChapterNo => seq![0x63u8, 0x68, 0x6E, 0x6F],
        Key::ChapterCount => seq![0x63u8, 0x68, 0x6E],
        Key::Percent => seq![0x70u8, 0x63, 0x74],
        Key::Font => seq![0x66u8, 0x6F, 0x6E, 0x74],
        Key::Sum => seq![0x73u8, 0x75, 0x6D],
        Key::Other => Seq::empty(),
    }
}

fn key_bytes(k: Key) -> (v: Vec<u8>)
    ensures
        v@ == key_text(k),
{
    let v: Vec<u8> = match k {
        Key::Pages => vec![0x70, 0x61, 0x67, 0x65, 0x73],
        Key::Time => vec![0x74, 0x69, 0x6D, 0x65],
        Key::Sessions => vec![0x73, 0x65, 0x73, 0x73, 0x69, 0x6F, 0x6E, 0x73],
        Key::Serial => vec![0x73, 0x65, 0x71],
        Key::Size => vec![0x73, 0x69, 0x7A, 0x65],
        Key::Chapter => vec![0x63, 0x68],
        Key::Offset => vec![0x6F, 0x66, 0x66],
        Key::Format => vec![0x66, 0x6D, 0x74],
        Key::Para => vec![0x70, 0x61, 0x72, 0x61],
        Key::Word => vec![0x77, 0x6F, 0x72, 0x64],
        Key::Layout => vec![0x6C, 0x6B, 0x65, 0x79],
        Key::Page => vec![0x70, 0x61, 0x67, 0x65],
        Key::ChapterNo => vec![0x63, 0x68, 0x6E, 0x6F],
        Key::ChapterCount => vec![0x63, 0x68, 0x6E],
        Key::Percent => vec![0x70, 0x63, 0x74],
        Key::Font => vec![0x66, 0x6F, 0x6E, 0x74],
        Key::Sum => vec![0x73, 0x75, 0x6D],
        Key::Other => Vec::new(),
    };
    proof {
        assert(v@ =~= key_text(k));
    }
    v
}

/// The key that is written so, or `Other`.
pub open spec fn key_of(text: Seq<u8>) -> Key {
    if text == key_text(Key::Pages) {
        Key::Pages
    } else if text == key_text(Key::Time) {
        Key::Time
    } else if text == key_text(Key::Sessions) {
        Key::Sessions
    } else if text == key_text(Key::Serial) {
        Key::Serial
    } else if text == key_text(Key::Size) {
        Key::Size
    } else if text == key_text(Key::Chapter) {
        Key::Chapter
    } else if text == key_text(Key::Offset) {
        Key::Offset
    } else if text == key_text(Key::Format) {
        Key::Format
    } else if text == key_text(Key::Para) {
        Key::Para
    } else if text == key_text(Key::Word) {
        Key::Word
    } else if text == key_text(Key::Layout) {
        Key::Layout
    } else if text == key_text(Key::Page) {
        Key::Page
    } else if text == key_text(Key::ChapterNo) {
        Key::ChapterNo
    } else if text == key_text(Key::ChapterCount) {
        Key::ChapterCount
    } else if text == key_text(Key::Percent) {
        Key::Percent
    } else if text == key_text(Key::Font) {
        Key::Font
    } else if text == key_text(Key::Sum) {
        Key::Sum
    } else {
        Key::Other
    }
}

/// No two keys are written alike.
proof fn lemma_keys_differ(k: Key)
    ensures
        key_of(key_text(k)) == k,
{
    assert(key_text(Key::Pages).len() == 5 && key_text(Key::Pages)[0] == 0x70 && key_text(Key::Pages)[1] == 0x61 && key_text(Key::Pages)[2] == 0x67);
    assert(key_text(Key::Time).len() == 4 && key_text(Key::Time)[0] == 0x74 && key_text(Key::Time)[1] == 0x69 && key_text(Key::Time)[2] == 0x6D);
    assert(key_text(Key::Sessions).len() == 8 && key_text(Key::Sessions)[0] == 0x73 && key_text(Key::Sessions)[1] == 0x65 && key_text(Key::Sessions)[2] == 0x73);
    assert(key_text(Key::Serial).len() == 3 && key_text(Key::Serial)[0] == 0x73 && key_text(Key::Serial)[1] == 0x65 && key_text(Key::Serial)[2] == 0x71);
    assert(key_text(Key::Size).len() == 4 && key_text(Key::Size)[0] == 0x73 && key_text(Key::Size)[1] == 0x69 && key_text(Key::Size)[2] == 0x7A);
    assert(key_text(Key::Chapter).len() == 2 && key_text(Key::Chapter)[0] == 0x63 && key_text(Key::Chapter)[1] == 0x68);
    assert(key_text(Key::Offset).len() == 3 && key_text(Key::Offset)[0] == 0x6F && key_text(Key::Offset)[1] == 0x66 && key_text(Key::Offset)[2] == 0x66);
    assert(key_text(Key::Format).len() == 3 && key_text(Key::Format)[0] == 0x66 && key_text(Key::Format)[1] == 0x6D && key_text(Key::Format)[2] == 0x74);
    assert(key_text(Key::Para).len() == 4 && key_text(Key::Para)[0] == 0x70 && key_text(Key::Para)[1] == 0x61 && key_text(Key::Para)[2] == 0x72);
    assert(key_text(Key::Word).len() == 4 && key_text(Key::Word)[0] == 0x77 && key_text(Key::Word)[1] == 0x6F && key_text(Key::Word)[2] == 0x72);
    assert(key_text(Key::Layout).len() == 4 && key_text(Key::Layout)[0] == 0x6C && key_text(Key::Layout)[1] == 0x6B && key_text(Key::Layout)[2] == 0x65);
    assert(key_text(Key::Page).len() == 4 && key_text(Key::Page)[0] == 0x70 && key_text(Key::Page)[1] == 0x61 && key_text(Key::Page)[2] == 0x67);
    assert(key_text(Key::ChapterNo).len() == 4 && key_text(Key::ChapterNo)[0] == 0x63 && key_text(Key::ChapterNo)[1] == 0x68 && key_text(Key::ChapterNo)[2] == 0x6E);
    assert(key_text(Key::ChapterCount).len() == 3 && key_text(Key::ChapterCount)[0] == 0x63 && key_text(Key::ChapterCount)[1] == 0x68 && key_text(Key::ChapterCount)[2] == 0x6E);
    assert(key_text(Key::Percent).len() == 3 && key_text(Key::Percent)[0] == 0x70 && key_text(Key::Percent)[1] == 0x63 && key_text(Key::Percent)[2] == 0x74);
    assert(key_text(Key::Font).len() == 4 && key_text(Key::Font)[0] == 0x66 && key_text(Key::Font)[1] == 0x6F && key_text(Key::Font)[2] == 0x6E);
    assert(key_text(Key::Sum).len() == 3 && key_text(Key::Sum)[0] == 0x73 && key_text(Key::Sum)[1] == 0x75 && key_text(Key::Sum)[2] == 0x6D);
    match k {
        Key::Pages => {
            assert(key_of(key_text(Key::Pages)) == Key::Pages);
        },
        Key::Time => {
            assert(key_of(key_text(Key::Time)) == Key::Time);
        },
        Key::Sessions => {
            assert(key_of(key_text(Key::Sessions)) == Key::Sessions);
        },
        Key::Serial => {
            assert(key_of(key_text(Key::Serial)) == Key::Serial);
        },
        Key::Size => {
            assert(key_of(key_text(Key::Size)) == Key::Size);
        },
        Key::Chapter => {
            assert(key_of(key_text(Key::Chapter)) == Key::Chapter);
        },
        Key::Offset => {
            assert(key_of(key_text(Key::Offset)) == Key::Offset);
        },
        Key::Format => {
            assert(key_of(key_text(Key::Format)) == Key::Format);
        },
        Key::Para => {
            assert(key_of(key_text(Key::Para)) == Key::Para);
        },
        Key::Word => {
            assert(key_of(key_text(Key::Word)) == Key::Word);
        },
        Key::Layout => {
            assert(key_of(key_text(Key::Layout)) == Key::Layout);
        },
        Key::Page => {
            assert(key_of(key_text(Key::Page)) == Key::Page);
        },
        Key::ChapterNo => {
            assert(key_of(key_text(Key::ChapterNo)) == Key::ChapterNo);
        },
        Key::ChapterCount => {
            assert(key_of(key_text(Key::ChapterCount)) == Key::ChapterCount);
        },
        Key::Percent => {
            assert(key_of(key_text(Key::Percent)) == Key::Percent);
        },
        Key::Font => {
            assert(key_of(key_text(Key::Font)) == Key::Font);
        },
        Key::Sum => {
            assert(key_of(key_text(Key::Sum)) == Key::Sum);
        },
        Key::Other => {
            assert(key_of(key_text(Key::Other)) == Key::Other);
        },
    }
}

fn is_key(text: &[u8], k: Key) -> (r: bool)
    ensures
        r == (text@ == key_text(k)),
{
    let want: Vec<u8> = key_bytes(k);
    bytes::same(text, want.as_slice())
}

fn find_key(text: &[u8]) -> (k: Key)
    ensures
        k == key_of(text@),
{
    if is_key(text, Key::Pages) {
        Key::Pages
    } else if is_key(text, Key::Time) {
        Key::Time
    } else if is_key(text, Key::Sessions) {
        Key::Sessions
    } else if is_key(text, Key::Serial) {
        Key::Serial
    } else if is_key(text, Key::Size) {
        Key::Size
    } else if is_key(text, Key::Chapter) {
        Key::Chapter
    } else if is_key(text, Key::Offset) {
        Key::Offset
    } else if is_key(text, Key::Format) {
        Key::Format
    } else if is_key(text, Key::Para) {
        Key::Para
    } else if is_key(text, Key::Word) {
        Key::Word
    } else if is_key(text, Key::Layout) {
        Key::Layout
    } else if is_key(text, Key::Page) {
        Key::Page
    } else if is_key(text, Key::ChapterNo) {
        Key::ChapterNo
    } else if is_key(text, Key::ChapterCount) {
        Key::ChapterCount
    } else if is_key(text, Key::Percent) {
        Key::Percent
    } else if is_key(text, Key::Font) {
        Key::Font
    } else if is_key(text, Key::Sum) {
        Key::Sum
    } else {
        Key::Other
    }
}

// ── writing ───────────────────────────────────────────────────────

/// A line of the record.
pub open spec fn entry(k: Key, v: nat) -> Seq<u8> {
    key_text(k) + seq![0x3Du8] + digits::decimal(v) + seq![0x0Au8]
}

/// The fields that are always written.
pub open spec fn head_fields(r: BookRecord) -> Seq<(Key, nat)> {
    seq![
        (Key::Pages, r.stats.pages as nat),
        (Key::Time, r.stats.time_secs as nat),
        (Key::Sessions, r.stats.sessions as nat),
        (Key::Serial, r.seq as nat),
    ]
}

pub open spec fn anchor_fields(p: Position) -> Seq<(Key, nat)> {
    if p.spec_anchor() is Some {
        seq![(Key::Para, p.para as nat), (Key::Word, p.word as nat)]
    } else {
        Seq::empty()
    }
}

pub open spec fn place_fields(p: Position) -> Seq<(Key, nat)> {
    seq![
        (Key::Size, p.archive_size as nat),
        (Key::Chapter, p.chapter as nat),
        (Key::Offset, p.byte_offset as nat),
        (Key::Format, p.content_fmt as nat),
    ]
}

pub open spec fn page_fields(p: Position) -> Seq<(Key, nat)> {
    seq![
        (Key::Layout, p.layout_key as nat),
        (Key::Page, p.page as nat),
        (Key::ChapterNo, p.chapter_no as nat),
        (Key::ChapterCount, p.chapter_count as nat),
        (Key::Percent, p.progress_pct as nat),
        (Key::Font, p.font_idx as nat),
    ]
}

/// The fields of a record in the order in which they are written. The anchor
/// is left out where there is none.
pub open spec fn fields(r: BookRecord) -> Seq<(Key, nat)> {
    head_fields(r) + match r.pos {
        Some(p) => place_fields(p) + anchor_fields(p) + page_fields(p),
        None => Seq::empty(),
    }
}

/// The lines of the fields.
pub open spec fn entries(fs: Seq<(Key, nat)>) -> Seq<u8>
    decreases fs.len(),
{
    if fs.len() == 0 {
        Seq::empty()
    } else {
        entries(fs.drop_last()) + entry(fs.last().0, fs.last().1)
    }
}

/// The line that closes a record with the hash of `body`.
pub open spec fn sum_line(body: Seq<u8>) -> Seq<u8> {
    key_text(Key::Sum) + seq![0x3Du8] + digits::hex(hash::fnv(body) as nat, 8) + seq![0x0Au8]
}

/// A record on disk.
pub open spec fn encoded(r: BookRecord) -> Seq<u8> {
    let body = entries(fields(r));
    body + sum_line(body)
}

/// Append a line; it takes no more than its key and twelve bytes.
fn push_entry(out: &mut Vec<u8>, k: Key, v: u32)
    ensures
        final(out)@ == old(out)@ + entry(k, v as nat),
        final(out)@.len() <= old(out)@.len() + key_text(k).len() + 12,
{
    let key: Vec<u8> = key_bytes(k);
    bytes::push_all(out, key.as_slice());
    out.push(0x3D);
    digits::push_decimal(out, v);
    out.push(0x0A);
    proof {
        assert(out@ =~= old(out)@ + entry(k, v as nat));
    }
}

proof fn lemma_entries_push(fs: Seq<(Key, nat)>, k: Key, v: nat)
    ensures
        entries(fs.push((k, v))) == entries(fs) + entry(k, v),
{
    assert(fs.push((k, v)).drop_last() =~= fs);
}

/// Append a line to those of `fs`.
fn push_field(out: &mut Vec<u8>, k: Key, v: u32, Ghost(fs): Ghost<Seq<(Key, nat)>>)
    requires
        old(out)@ == entries(fs),
    ensures
        final(out)@ == entries(fs.push((k, v as nat))),
        final(out)@.len() <= old(out)@.len() + key_text(k).len() + 12,
{
    push_entry(out, k, v);
    proof {
        lemma_entries_push(fs, k, v as nat);
    }
}

impl BookRecord {
    /// The lines of the record before the one that closes it.
    fn body(&self) -> (out: Vec<u8>)
        ensures
            out@ == entries(fields(*self)),
            out@.len() <= 254,
    {
        let mut out: Vec<u8> = Vec::new();
        let ghost mut fs = Seq::<(Key, nat)>::empty();
        proof {
            assert(out@ =~= entries(fs));
        }
        push_field(&mut out, Key::Pages, self.stats.pages, Ghost(fs));
        proof {
            fs = fs.push((Key::Pages, self.stats.pages as nat));
        }
        push_field(&mut out, Key::Time, self.stats.time_secs, Ghost(fs));
        proof {
            fs = fs.push((Key::Time, self.stats.time_secs as nat));
        }
        push_field(&mut out, Key::Sessions, self.stats.sessions, Ghost(fs));
        proof {
            fs = fs.push((Key::Sessions, self.stats.sessions as nat));
        }
        push_field(&mut out, Key::Serial, self.seq, Ghost(fs));
        proof {
            fs = fs.push((Key::Serial, self.seq as nat));
        }
        proof {
            assert(fs =~= head_fields(*self));
        }
        if let Some(p) = self.pos {
            push_field(&mut out, Key::Size, p.archive_size, Ghost(fs));
            proof {
                fs = fs.push((Key::Size, p.archive_size as nat));
            }
            push_field(&mut out, Key::Chapter, p.chapter as u32, Ghost(fs));
            proof {
                fs = fs.push((Key::Chapter, p.chapter as nat));
            }
            push_field(&mut out, Key::Offset, p.byte_offset, Ghost(fs));
            proof {
                fs = fs.push((Key::Offset, p.byte_offset as nat));
            }
            push_field(&mut out, Key::Format, p.content_fmt as u32, Ghost(fs));
            proof {
                fs = fs.push((Key::Format, p.content_fmt as nat));
            }
            proof {
                assert(fs =~= head_fields(*self) + place_fields(p));
            }
            if p.anchor().is_some() {
                push_field(&mut out, Key::Para, p.para, Ghost(fs));
                proof {
                    fs = fs.push((Key::Para, p.para as nat));
                }
                push_field(&mut out, Key::Word, p.word, Ghost(fs));
                proof {
                    fs = fs.push((Key::Word, p.word as nat));
                }
            }
            proof {
                assert(fs =~= head_fields(*self) + (place_fields(p) + anchor_fields(p)));
            }
            push_field(&mut out, Key::Layout, p.layout_key, Ghost(fs));
            proof {
                fs = fs.push((Key::Layout, p.layout_key as nat));
            }
            push_field(&mut out, Key::Page, p.page as u32, Ghost(fs));
            proof {
                fs = fs.push((Key::Page, p.page as nat));
            }
            push_field(&mut out, Key::ChapterNo, p.chapter_no as u32, Ghost(fs));
            proof {
                fs = fs.push((Key::ChapterNo, p.chapter_no as nat));
            }
            push_field(&mut out, Key::ChapterCount, p.chapter_count as u32, Ghost(fs));
            proof {
                fs = fs.push((Key::ChapterCount, p.chapter_count as nat));
            }
            push_field(&mut out, Key::Percent, p.progress_pct as u32, Ghost(fs));
            proof {
                fs = fs.push((Key::Percent, p.progress_pct as nat));
            }
            push_field(&mut out, Key::Font, p.font_idx as u32, Ghost(fs));
            proof {
                fs = fs.push((Key::Font, p.font_idx as nat));
            }
        }
        proof {
            assert(fs =~= fields(*self));
        }
        out
    }

    /// Write the record to the start of `out`; how many bytes it takes.
    pub fn encode(&self, out: &mut [u8; BUF_LEN]) -> (n: usize)
        ensures
            n == encoded(*self).len(),
            n <= BUF_LEN,
            final(out)@.take(n as int) == encoded(*self),
    {
        let mut all: Vec<u8> = self.body();
        let ghost body = all@;
        let sum: u32 = hash::fnv1a(all.as_slice());
        let key: Vec<u8> = key_bytes(Key::Sum);
        bytes::push_all(&mut all, key.as_slice());
        all.push(0x3D);
        digits::push_hex(&mut all, sum, 8);
        all.push(0x0A);
        proof {
            digits::lemma_hex_shape(sum as nat, 8);
            assert(all@ =~= body + sum_line(body));
        }
        let n: usize = all.len();
        let mut i: usize = 0;
        while i < n
            invariant
                i <= n <= BUF_LEN,
                n == all@.len(),
                out@.len() == BUF_LEN,
                forall|k: int| 0 <= k < i ==> out@[k] == all@[k],
            decreases n - i,
        {
            out[i] = all[i];
            i = i + 1;
        }
        proof {
            assert(out@.take(n as int) =~= all@);
        }
        n
    }
}

// ── reading ───────────────────────────────────────────────────────

/// Where the line at `pos` ends: at the next newline, or at the end.
pub open spec fn line_end(data: Seq<u8>, pos: int) -> int
    decreases data.len() - pos,
{
    if pos < 0 || pos >= data.len() || data[pos] == 0x0A {
        pos
    } else {
        line_end(data, pos + 1)
    }
}

/// Space, tab, newline, form feed, carriage return.
pub open spec fn blank(b: u8) -> bool {
    b == 0x20 || b == 0x09 || b == 0x0A || b == 0x0C || b == 0x0D
}

/// `end` without the blanks before it.
pub open spec fn unpadded(data: Seq<u8>, start: int, end: int) -> int
    decreases end - start,
{
    if end > start && blank(data[end - 1]) {
        unpadded(data, start, end - 1)
    } else {
        end
    }
}

/// Where the first `=` of `start..end` stands, or the end.
pub open spec fn equals_at(data: Seq<u8>, start: int, end: int) -> int
    decreases end - start,
{
    if start >= end || data[start] == 0x3D {
        start
    } else {
        equals_at(data, start + 1, end)
    }
}

/// A line of a record: where its text and its `=` stand.
pub struct Line {
    pub start: int,
    pub eq: int,
    pub end: int,
    pub next: int,
}

pub open spec fn line_at(data: Seq<u8>, start: int) -> Line {
    let nl = line_end(data, start);
    let end = unpadded(data, start, nl);
    Line {
        start,
        eq: equals_at(data, start, end),
        end,
        next: if nl < data.len() {
            nl + 1
        } else {
            nl
        },
    }
}

impl Line {
    /// Whether the line has a key and a value.
    pub open spec fn is_entry(self) -> bool {
        self.eq < self.end
    }

    pub open spec fn key(self, data: Seq<u8>) -> Key {
        key_of(data.subrange(self.start, self.eq))
    }

    pub open spec fn value(self, data: Seq<u8>) -> Seq<u8> {
        data.subrange(self.eq + 1, self.end)
    }
}

/// What was read so far.
#[derive(Clone, Copy, Debug, PartialEq, Eq, Structural)]
pub struct Reading {
    pub seq: u32,
    pub pos: Position,
    pub have_pos: bool,
    /// whether the closing line was there and right
    pub summed: bool,
}

pub open spec fn spec_nothing_read() -> Reading {
    Reading {
        seq: 0,
        pos: Position { para: NO_ANCHOR, word: NO_ANCHOR, ..Position::spec_start() },
        have_pos: false,
        summed: false,
    }
}

/// What a field changes. Numbers that do not fit keep their low bits, and a
/// percentage is at most 100.
pub open spec fn with_field(r: Reading, k: Key, v: int) -> Reading {
    match k {
        Key::Serial => Reading { seq: v as u32, ..r },
        Key::Size => Reading {
            pos: Position { archive_size: v as u32, ..r.pos },
            have_pos: true,
            ..r
        },
        Key::Chapter => Reading { pos: Position { chapter: (v % 65536) as u16, ..r.pos }, ..r },
        Key::Offset => Reading { pos: Position { byte_offset: v as u32, ..r.pos }, ..r },
        Key::Format => Reading { pos: Position { content_fmt: (v % 256) as u8, ..r.pos }, ..r },
        Key::Para => Reading { pos: Position { para: v as u32, ..r.pos }, ..r },
        Key::Word => Reading { pos: Position { word: v as u32, ..r.pos }, ..r },
        Key::Layout => Reading { pos: Position { layout_key: v as u32, ..r.pos }, ..r },
        Key::Page => Reading { pos: Position { page: (v % 65536) as u16, ..r.pos }, ..r },
        Key::ChapterNo => Reading {
            pos: Position { chapter_no: (v % 65536) as u16, ..r.pos },
            ..r
        },
        Key::ChapterCount => Reading {
            pos: Position { chapter_count: (v % 65536) as u16, ..r.pos },
            ..r
        },
        Key::Percent => Reading {
            pos: Position {
                progress_pct: (if v < 100 {
                    v
                } else {
                    100
                }) as u8,
                ..r.pos
            },
            ..r
        },
        Key::Font => Reading { pos: Position { font_idx: (v % 256) as u8, ..r.pos }, ..r },
        _ => r,
    }
}

/// What the lines from `start` on add. The closing line ends the record; it is
/// right if it holds the hash of all before it.
pub open spec fn read_on(data: Seq<u8>, start: int, r: Reading) -> Reading
    decreases data.len() - start,
{
    let line = line_at(data, start);
    if start < 0 || start >= data.len() || line.next <= start || line.next > data.len() {
        r
    } else if !line.is_entry() {
        read_on(data, line.next, r)
    } else if line.key(data) == Key::Sum {
        Reading {
            summed: digits::hex_number(line.value(data)) == hash::fnv(data.take(start)),
            ..r
        }
    } else {
        read_on(
            data,
            line.next,
            with_field(r, line.key(data), digits::number(line.value(data))),
        )
    }
}

pub open spec fn with_stat(s: ReadingStats, k: Key, v: int) -> ReadingStats {
    match k {
        Key::Pages => ReadingStats { pages: v as u32, ..s },
        Key::Time => ReadingStats { time_secs: v as u32, ..s },
        Key::Sessions => ReadingStats { sessions: v as u32, ..s },
        _ => s,
    }
}

/// The statistics that the lines from `start` on add.
pub open spec fn stats_on(data: Seq<u8>, start: int, s: ReadingStats) -> ReadingStats
    decreases data.len() - start,
{
    let line = line_at(data, start);
    if start < 0 || start >= data.len() || line.next <= start || line.next > data.len() {
        s
    } else if !line.is_entry() {
        stats_on(data, line.next, s)
    } else {
        stats_on(
            data,
            line.next,
            with_stat(s, line.key(data), digits::number(line.value(data))),
        )
    }
}

/// The record in `data`: its statistics in any case, its position only under a
/// closing line that is right.
pub open spec fn parsed(data: Seq<u8>) -> BookRecord {
    let r = read_on(data, 0, spec_nothing_read());
    BookRecord {
        stats: stats_on(data, 0, BookRecord::spec_empty().stats),
        pos: if r.have_pos && r.summed {
            Some(r.pos)
        } else {
            None
        },
        seq: r.seq,
    }
}

/// The bounds of the line at `start`: its `=`, its end, and the next line.
fn split_line(data: &[u8], start: usize) -> (r: (usize, usize, usize))
    requires
        start < data@.len(),
    ensures
        ({
            let line = line_at(data@, start as int);
            r.0 == line.eq && r.1 == line.end && r.2 == line.next
        }),
        start <= r.0 <= r.1 <= data@.len(),
        start < r.2 <= data@.len(),
{
    let mut nl: usize = start;
    while nl < data.len() && data[nl] != 0x0A
        invariant
            start <= nl <= data@.len(),
            line_end(data@, nl as int) == line_end(data@, start as int),
        decreases data@.len() - nl,
    {
        nl = nl + 1;
    }
    let mut end: usize = nl;
    while end > start && is_blank(data[end - 1])
        invariant
            start <= end <= nl <= data@.len(),
            unpadded(data@, start as int, end as int) == unpadded(data@, start as int, nl as int),
        decreases end - start,
    {
        end = end - 1;
    }
    let mut eq: usize = start;
    while eq < end && data[eq] != 0x3D
        invariant
            start <= eq <= end <= data@.len(),
            equals_at(data@, eq as int, end as int) == equals_at(data@, start as int, end as int),
        decreases end - eq,
    {
        eq = eq + 1;
    }
    let next: usize = if nl < data.len() {
        nl + 1
    } else {
        nl
    };
    (eq, end, next)
}

fn is_blank(b: u8) -> (r: bool)
    ensures
        r == blank(b),
{
    b == 0x20 || b == 0x09 || b == 0x0A || b == 0x0C || b == 0x0D
}

fn take_field(r: &mut Reading, k: Key, v: u32)
    ensures
        *final(r) == with_field(*old(r), k, v as int),
{
    match k {
        Key::Serial => {
            r.seq = v;
        },
        Key::Size => {
            r.pos.archive_size = v;
            r.have_pos = true;
        },
        Key::Chapter => {
            r.pos.chapter = (v % 65536) as u16;
        },
        Key::Offset => {
            r.pos.byte_offset = v;
        },
        Key::Format => {
            r.pos.content_fmt = (v % 256) as u8;
        },
        Key::Para => {
            r.pos.para = v;
        },
        Key::Word => {
            r.pos.word = v;
        },
        Key::Layout => {
            r.pos.layout_key = v;
        },
        Key::Page => {
            r.pos.page = (v % 65536) as u16;
        },
        Key::ChapterNo => {
            r.pos.chapter_no = (v % 65536) as u16;
        },
        Key::ChapterCount => {
            r.pos.chapter_count = (v % 65536) as u16;
        },
        Key::Percent => {
            r.pos.progress_pct = if v < 100 {
                v as u8
            } else {
                100
            };
        },
        Key::Font => {
            r.pos.font_idx = (v % 256) as u8;
        },
        _ => {},
    }
}

impl ReadingStats {
    /// The statistics in a record.
    pub fn parse(data: &[u8]) -> (s: ReadingStats)
        ensures
            s == stats_on(data@, 0, BookRecord::spec_empty().stats),
    {
        let mut s = ReadingStats { pages: 0, time_secs: 0, sessions: 0 };
        let mut start: usize = 0;
        while start < data.len()
            invariant
                start <= data@.len(),
                stats_on(data@, start as int, s) == stats_on(
                    data@,
                    0,
                    BookRecord::spec_empty().stats,
                ),
            decreases data@.len() - start,
        {
            let (eq, end, next): (usize, usize, usize) = split_line(data, start);
            if eq < end {
                let k: Key = find_key(vstd::slice::slice_subrange(data, start, eq));
                let v: u32 = digits::parse_u32(vstd::slice::slice_subrange(data, eq + 1, end));
                match k {
                    Key::Pages => {
                        s.pages = v;
                    },
                    Key::Time => {
                        s.time_secs = v;
                    },
                    Key::Sessions => {
                        s.sessions = v;
                    },
                    _ => {},
                }
            }
            start = next;
        }
        s
    }
}

impl BookRecord {
    /// Read a record. Statistics always parse; the position only when the
    /// closing line is there and right, so that a file cut short opens the
    /// book at its start.
    pub fn parse(data: &[u8]) -> (rec: BookRecord)
        ensures
            rec == parsed(data@),
    {
        let stats = ReadingStats::parse(data);
        let mut r = Reading {
            seq: 0,
            pos: Position::default(),
            have_pos: false,
            summed: false,
        };
        r.pos.para = NO_ANCHOR;
        r.pos.word = NO_ANCHOR;
        let mut start: usize = 0;
        let mut open: bool = true;
        while open && start < data.len()
            invariant
                start <= data@.len(),
                open ==> read_on(data@, start as int, r) == read_on(
                    data@,
                    0,
                    spec_nothing_read(),
                ),
                !open ==> r == read_on(data@, 0, spec_nothing_read()),
            decreases data@.len() - start,
        {
            let (eq, end, next): (usize, usize, usize) = split_line(data, start);
            if eq < end {
                let k: Key = find_key(vstd::slice::slice_subrange(data, start, eq));
                let val: &[u8] = vstd::slice::slice_subrange(data, eq + 1, end);
                if k == Key::Sum {
                    let head: &[u8] = vstd::slice::slice_subrange(data, 0, start);
                    proof {
                        assert(head@ =~= data@.take(start as int));
                    }
                    r.summed = digits::parse_hex(val) == hash::fnv1a(head);
                    open = false;
                } else {
                    take_field(&mut r, k, digits::parse_u32(val));
                }
            }
            start = next;
        }
        BookRecord {
            stats,
            pos: if r.have_pos && r.summed {
                Some(r.pos)
            } else {
                None
            },
            seq: r.seq,
        }
    }
}

impl BookRecord {
    /// The record in what was read of its file; none where reading failed or
    /// the file is empty.
    pub fn load(read: Option<&[u8]>) -> (r: Option<BookRecord>)
        ensures
            r == (match read {
                Some(data) if data@.len() > 0 => Some(parsed(data@)),
                _ => None,
            }),
    {
        match read {
            Some(data) => if data.len() == 0 {
                None
            } else {
                Some(BookRecord::parse(data))
            },
            None => None,
        }
    }

    /// The bytes to write to the book's file.
    pub fn save(&self) -> (out: Vec<u8>)
        ensures
            out@ == encoded(*self),
    {
        let mut buf: [u8; BUF_LEN] = [0; BUF_LEN];
        let n: usize = self.encode(&mut buf);
        let mut out: Vec<u8> = Vec::new();
        let mut i: usize = 0;
        while i < n
            invariant
                i <= n <= BUF_LEN,
                out@ =~= buf@.take(i as int),
            decreases n - i,
        {
            out.push(buf[i]);
            i = i + 1;
        }
        out
    }
}

// ── reading what was written ──────────────────────────────────────

proof fn lemma_line_end(data: Seq<u8>, pos: int, end: int)
    requires
        0 <= pos <= end < data.len(),
        data[end] == 0x0A,
        forall|k: int| pos <= k < end ==> data[k] != 0x0A,
    ensures
        line_end(data, pos) == end,
    decreases end - pos,
{
    if pos < end {
        lemma_line_end(data, pos + 1, end);
    }
}

proof fn lemma_equals_at(data: Seq<u8>, pos: int, at: int, end: int)
    requires
        0 <= pos <= at < end <= data.len(),
        data[at] == 0x3D,
        forall|k: int| pos <= k < at ==> data[k] != 0x3D,
    ensures
        equals_at(data, pos, end) == at,
    decreases at - pos,
{
    if pos < at {
        lemma_equals_at(data, pos + 1, at, end);
    }
}

/// A line as it is written: the key, `=`, a value without blanks, newline.
proof fn lemma_written_line(data: Seq<u8>, start: int, k: Key, val: Seq<u8>)
    requires
        0 <= start,
        k != Key::Other,
        val.len() > 0,
        forall|j: int| 0 <= j < val.len() ==> !blank(#[trigger] val[j]),
        start + key_text(k).len() + 1 + val.len() + 1 <= data.len(),
        data.subrange(start, start + key_text(k).len() + val.len() + 2) == key_text(k) + seq![
            0x3Du8,
        ] + val + seq![0x0Au8],
    ensures
        ({
            let line = line_at(data, start);
            &&& line.is_entry()
            &&& line.next == start + key_text(k).len() + val.len() + 2
            &&& line.key(data) == k
            &&& line.value(data) == val
        }),
{
    let key = key_text(k);
    let n = key.len() as int;
    let m = val.len() as int;
    let text = key + seq![0x3Du8] + val + seq![0x0Au8];
    let part = data.subrange(start, start + n + m + 2);
    assert forall|j: int| 0 <= j < n + m + 2 implies data[start + j] == #[trigger] text[j] by {
        assert(part[j] == text[j]);
    }
    assert forall|j: int| 0 <= j < n implies key[j] != 0x3D && key[j] != 0x0A by {
    }
    assert forall|p: int| start <= p < start + n implies data[p] != 0x0A && data[p] != 0x3D by {
        assert(data[p] == text[p - start]);
        assert(text[p - start] == key[p - start]);
    }
    assert(data[start + n] == 0x3D) by {
        assert(text[n] == 0x3D);
    }
    assert forall|p: int| start + n < p < start + n + 1 + m implies data[p] == val[p - start - n
        - 1] by {
        assert(data[p] == text[p - start]);
    }
    assert(data[start + n + 1 + m] == 0x0A) by {
        assert(text[n + 1 + m] == 0x0A);
    }
    let nl = start + n + 1 + m;
    assert forall|p: int| start <= p < nl implies data[p] != 0x0A by {
        if p > start + n {
            assert(!blank(val[p - start - n - 1]));
        }
    }
    lemma_line_end(data, start, nl);
    assert(!blank(data[nl - 1])) by {
        assert(!blank(val[m - 1]));
    }
    assert(unpadded(data, start, nl) == nl);
    lemma_equals_at(data, start, start + n, nl);
    lemma_keys_differ(k);
    assert(data.subrange(start, start + n) =~= key);
    assert(data.subrange(start + n + 1, nl) =~= val);
}

/// `data` goes on with `text` at `start`.
spec fn follows(data: Seq<u8>, start: int, text: Seq<u8>) -> bool {
    &&& 0 <= start
    &&& start + text.len() <= data.len()
    &&& data.subrange(start, start + text.len()) == text
}

proof fn lemma_read_entry(data: Seq<u8>, start: int, k: Key, v: u32, r: Reading, s: ReadingStats)
    requires
        follows(data, start, entry(k, v as nat)),
        k != Key::Other,
        k != Key::Sum,
    ensures
        read_on(data, start, r) == read_on(
            data,
            start + entry(k, v as nat).len(),
            with_field(r, k, v as int),
        ),
        stats_on(data, start, s) == stats_on(
            data,
            start + entry(k, v as nat).len(),
            with_stat(s, k, v as int),
        ),
{
    digits::lemma_decimal_shape(v as nat);
    digits::law_decimals_read_back(v);
    lemma_written_line(data, start, k, digits::decimal(v as nat));
}

/// All fields applied in turn.
spec fn all_read(fs: Seq<(Key, nat)>, r: Reading) -> Reading
    decreases fs.len(),
{
    if fs.len() == 0 {
        r
    } else {
        with_field(all_read(fs.drop_last(), r), fs.last().0, fs.last().1 as int)
    }
}

spec fn all_stats(fs: Seq<(Key, nat)>, s: ReadingStats) -> ReadingStats
    decreases fs.len(),
{
    if fs.len() == 0 {
        s
    } else {
        with_stat(all_stats(fs.drop_last(), s), fs.last().0, fs.last().1 as int)
    }
}

proof fn lemma_read_entries(data: Seq<u8>, fs: Seq<(Key, nat)>, r: Reading, s: ReadingStats)
    requires
        follows(data, 0, entries(fs)),
        forall|i: int|
            0 <= i < fs.len() ==> (#[trigger] fs[i]).0 != Key::Other && fs[i].0 != Key::Sum
                && fs[i].1 <= u32::MAX,
    ensures
        read_on(data, 0, r) == read_on(data, entries(fs).len() as int, all_read(fs, r)),
        stats_on(data, 0, s) == stats_on(data, entries(fs).len() as int, all_stats(fs, s)),
    decreases fs.len(),
{
    if fs.len() > 0 {
        let head = fs.drop_last();
        let (k, v) = fs.last();
        let before = entries(head);
        assert(entries(fs) == before + entry(k, v));
        assert(fs.last() == fs[fs.len() - 1]);
        assert(data.subrange(0, before.len() as int) =~= before) by {
            assert(data.subrange(0, entries(fs).len() as int).take(before.len() as int)
                =~= data.subrange(0, before.len() as int));
            assert(entries(fs).take(before.len() as int) =~= before);
        }
        assert forall|i: int| 0 <= i < head.len() implies (#[trigger] head[i]).0 != Key::Other
            && head[i].0 != Key::Sum && head[i].1 <= u32::MAX by {
            assert(head[i] == fs[i]);
        }
        lemma_read_entries(data, head, r, s);
        assert(data.subrange(before.len() as int, entries(fs).len() as int) =~= entry(k, v)) by {
            assert(data.subrange(0, entries(fs).len() as int).skip(before.len() as int)
                =~= data.subrange(before.len() as int, entries(fs).len() as int));
            assert(entries(fs).skip(before.len() as int) =~= entry(k, v));
        }
        lemma_read_entry(
            data,
            before.len() as int,
            k,
            v as u32,
            all_read(head, r),
            all_stats(head, s),
        );
    }
}

proof fn lemma_all_push(fs: Seq<(Key, nat)>, k: Key, v: nat, r: Reading, s: ReadingStats)
    ensures
        all_read(fs.push((k, v)), r) == with_field(all_read(fs, r), k, v as int),
        all_stats(fs.push((k, v)), s) == with_stat(all_stats(fs, s), k, v as int),
{
    assert(fs.push((k, v)).drop_last() =~= fs);
}

/// The position as it is read back: without half an anchor.
pub open spec fn kept(p: Position) -> Position {
    if p.spec_anchor() is Some {
        p
    } else {
        Position { para: NO_ANCHOR, word: NO_ANCHOR, ..p }
    }
}

proof fn lemma_head_adds(fs: Seq<(Key, nat)>, r: BookRecord, r0: Reading, s0: ReadingStats)
    ensures
        all_read(fs + head_fields(r), r0) == ({
            let got = all_read(fs, r0);
            Reading { seq: r.seq, ..got }
        }),
        all_stats(fs + head_fields(r), s0) == ({
            let got = all_stats(fs, s0);
            r.stats
        }),
{
    lemma_all_push(fs, Key::Pages, r.stats.pages as nat, r0, s0);
    let g0 = fs.push((Key::Pages, r.stats.pages as nat));
    lemma_all_push(g0, Key::Time, r.stats.time_secs as nat, r0, s0);
    let g1 = g0.push((Key::Time, r.stats.time_secs as nat));
    lemma_all_push(g1, Key::Sessions, r.stats.sessions as nat, r0, s0);
    let g2 = g1.push((Key::Sessions, r.stats.sessions as nat));
    lemma_all_push(g2, Key::Serial, r.seq as nat, r0, s0);
    let g3 = g2.push((Key::Serial, r.seq as nat));
    assert(g3 =~= fs + head_fields(r));
}

proof fn lemma_place_adds(fs: Seq<(Key, nat)>, p: Position, r0: Reading, s0: ReadingStats)
    ensures
        all_read(fs + place_fields(p), r0) == ({
            let got = all_read(fs, r0);
            Reading {
                pos: Position {
                    archive_size: p.archive_size,
                    chapter: p.chapter,
                    byte_offset: p.byte_offset,
                    content_fmt: p.content_fmt,
                    ..got.pos
                },
                have_pos: true,
                ..got
            }
        }),
        all_stats(fs + place_fields(p), s0) == ({
            let got = all_stats(fs, s0);
            got
        }),
{
    lemma_all_push(fs, Key::Size, p.archive_size as nat, r0, s0);
    let g0 = fs.push((Key::Size, p.archive_size as nat));
    lemma_all_push(g0, Key::Chapter, p.chapter as nat, r0, s0);
    let g1 = g0.push((Key::Chapter, p.chapter as nat));
    lemma_all_push(g1, Key::Offset, p.byte_offset as nat, r0, s0);
    let g2 = g1.push((Key::Offset, p.byte_offset as nat));
    lemma_all_push(g2, Key::Format, p.content_fmt as nat, r0, s0);
    let g3 = g2.push((Key::Format, p.content_fmt as nat));
    assert(g3 =~= fs + place_fields(p));
}

proof fn lemma_anchor_adds(fs: Seq<(Key, nat)>, p: Position, r0: Reading, s0: ReadingStats)
    ensures
        all_read(fs + anchor_fields(p), r0) == ({
            let got = all_read(fs, r0);
            if p.spec_anchor() is Some {
                Reading { pos: Position { para: p.para, word: p.word, ..got.pos }, ..got }
            } else {
                got
            }
        }),
        all_stats(fs + anchor_fields(p), s0) == all_stats(fs, s0),
{
    if p.spec_anchor() is Some {
        lemma_all_push(fs, Key::Para, p.para as nat, r0, s0);
        let g = fs.push((Key::Para, p.para as nat));
        lemma_all_push(g, Key::Word, p.word as nat, r0, s0);
        assert(g.push((Key::Word, p.word as nat)) =~= fs + anchor_fields(p));
    } else {
        assert(fs + anchor_fields(p) =~= fs);
    }
}

#[verifier::spinoff_prover]
#[verifier::rlimit(40)]
proof fn lemma_page_adds(fs: Seq<(Key, nat)>, p: Position, r0: Reading, s0: ReadingStats)
    ensures
        all_read(fs + page_fields(p), r0) == ({
            let got = all_read(fs, r0);
            Reading {
                pos: Position {
                    layout_key: p.layout_key,
                    page: p.page,
                    chapter_no: p.chapter_no,
                    chapter_count: p.chapter_count,
                    progress_pct: if p.progress_pct < 100 {
                        p.progress_pct
                    } else {
                        100
                    },
                    font_idx: p.font_idx,
                    ..got.pos
                },
                ..got
            }
        }),
        all_stats(fs + page_fields(p), s0) == ({
            let got = all_stats(fs, s0);
            got
        }),
{
    lemma_all_push(fs, Key::Layout, p.layout_key as nat, r0, s0);
    let g0 = fs.push((Key::Layout, p.layout_key as nat));
    lemma_all_push(g0, Key::Page, p.page as nat, r0, s0);
    let g1 = g0.push((Key::Page, p.page as nat));
    lemma_all_push(g1, Key::ChapterNo, p.chapter_no as nat, r0, s0);
    let g2 = g1.push((Key::ChapterNo, p.chapter_no as nat));
    lemma_all_push(g2, Key::ChapterCount, p.chapter_count as nat, r0, s0);
    let g3 = g2.push((Key::ChapterCount, p.chapter_count as nat));
    lemma_all_push(g3, Key::Percent, p.progress_pct as nat, r0, s0);
    let g4 = g3.push((Key::Percent, p.progress_pct as nat));
    lemma_all_push(g4, Key::Font, p.font_idx as nat, r0, s0);
    let g5 = g4.push((Key::Font, p.font_idx as nat));
    assert(g5 =~= fs + page_fields(p));
}

/// What the fields of a record add up to.
proof fn lemma_fields_add_up(r: BookRecord)
    requires
        r.pos matches Some(p) ==> p.progress_pct <= 100,
    ensures
        ({
            let got = all_read(fields(r), spec_nothing_read());
            &&& got.seq == r.seq
            &&& !got.summed
            &&& got.have_pos == r.pos is Some
            &&& r.pos matches Some(p) ==> got.pos == kept(p)
        }),
        all_stats(fields(r), BookRecord::spec_empty().stats) == r.stats,
{
    let r0 = spec_nothing_read();
    let s0 = BookRecord::spec_empty().stats;
    let none = Seq::<(Key, nat)>::empty();
    let head = head_fields(r);
    lemma_head_adds(none, r, r0, s0);
    assert(none + head =~= head);
    if let Some(p) = r.pos {
        let place = head + place_fields(p);
        let anchor = place + anchor_fields(p);
        lemma_place_adds(head, p, r0, s0);
        lemma_anchor_adds(place, p, r0, s0);
        lemma_page_adds(anchor, p, r0, s0);
        assert(anchor + page_fields(p) =~= fields(r));
    } else {
        assert(head =~= fields(r));
    }
}

proof fn lemma_fields_plain(r: BookRecord)
    ensures
        forall|i: int|
            0 <= i < fields(r).len() ==> (#[trigger] fields(r)[i]).0 != Key::Other && fields(
                r,
            )[i].0 != Key::Sum && fields(r)[i].1 <= u32::MAX,
{
}

proof fn lemma_read_sum(data: Seq<u8>, body: Seq<u8>, r: Reading, s: ReadingStats)
    requires
        data == body + sum_line(body),
    ensures
        read_on(data, body.len() as int, r) == (Reading { summed: true, ..r }),
        stats_on(data, body.len() as int, s) == s,
{
    let h = hash::fnv(body);
    let val = digits::hex(h as nat, 8);
    digits::lemma_hex_shape(h as nat, 8);
    digits::law_hex_reads_back(h);
    let start = body.len() as int;
    assert forall|j: int| 0 <= j < val.len() implies !blank(#[trigger] val[j]) by {
        assert(digits::hex_value(val[j]) is Some);
    }
    assert(data.subrange(start, start + key_text(Key::Sum).len() + val.len() + 2) =~= sum_line(
        body,
    ));
    lemma_written_line(data, start, Key::Sum, val);
    assert(data.take(start) =~= body);
    let line = line_at(data, start);
    assert(line.next == data.len());
    assert(stats_on(data, start, s) == stats_on(
        data,
        line.next,
        with_stat(s, line.key(data), digits::number(line.value(data))),
    ));
}

/// A record that was written is read back as it was, save that half an anchor
/// is none.
pub proof fn law_records_come_back(r: BookRecord)
    requires
        r.pos matches Some(p) ==> p.progress_pct <= 100,
    ensures
        parsed(encoded(r)) == (BookRecord {
            pos: match r.pos {
                Some(p) => Some(kept(p)),
                None => None,
            },
            ..r
        }),
{
    let body = entries(fields(r));
    let data = encoded(r);
    lemma_fields_add_up(r);
    lemma_fields_plain(r);
    assert(data.subrange(0, body.len() as int) =~= body);
    lemma_read_entries(data, fields(r), spec_nothing_read(), BookRecord::spec_empty().stats);
    lemma_read_sum(
        data,
        body,
        all_read(fields(r), spec_nothing_read()),
        all_stats(fields(r), BookRecord::spec_empty().stats),
    );
}

proof fn lemma_no_newline(data: Seq<u8>, pos: int)
    requires
        0 <= pos <= data.len(),
        forall|k: int| pos <= k < data.len() ==> data[k] != 0x0A,
    ensures
        line_end(data, pos) == data.len(),
    decreases data.len() - pos,
{
    if pos < data.len() {
        lemma_no_newline(data, pos + 1);
    }
}

proof fn lemma_no_equals(data: Seq<u8>, pos: int, end: int)
    requires
        0 <= pos <= end <= data.len(),
        forall|k: int| pos <= k < end ==> data[k] != 0x3D,
    ensures
        equals_at(data, pos, end) == end,
    decreases end - pos,
{
    if pos < end {
        lemma_no_equals(data, pos + 1, end);
    }
}

/// A line that is cut off: it has its key and may have its value in part, or
/// it is none.
proof fn lemma_torn_line(data: Seq<u8>, start: int, k: Key, val: Seq<u8>)
    requires
        0 <= start < data.len(),
        k != Key::Other,
        forall|j: int| 0 <= j < val.len() ==> !blank(#[trigger] val[j]),
        data.len() - start <= key_text(k).len() + 1 + val.len(),
        data.skip(start) == (key_text(k) + seq![0x3Du8] + val).take(data.len() - start),
    ensures
        ({
            let line = line_at(data, start);
            &&& line.next == data.len()
            &&& line.is_entry() ==> line.key(data) == k
        }),
{
    let key = key_text(k);
    let n = key.len() as int;
    let text = key + seq![0x3Du8] + val;
    let m = data.len() - start;
    assert forall|j: int| 0 <= j < m implies data[start + j] == #[trigger] text[j] by {
        assert(data.skip(start)[j] == text.take(m)[j]);
    }
    assert forall|p: int| start <= p < data.len() implies !blank(#[trigger] data[p]) by {
        let j = p - start;
        assert(data[p] == text[j]);
        if j > n {
            assert(text[j] == val[j - n - 1]);
            assert(!blank(val[j - n - 1]));
        } else if j < n {
            assert(text[j] == key[j]);
        }
    }
    lemma_no_newline(data, start);
    let end = data.len() as int;
    assert(!blank(data[end - 1]));
    assert(unpadded(data, start, end) == end);
    assert forall|p: int| start <= p < start + n && p < end implies data[p] != 0x3D by {
        assert(data[p] == text[p - start]);
        assert(text[p - start] == key[p - start]);
    }
    if m > n {
        assert(data[start + n] == 0x3D) by {
            assert(text[n] == 0x3D);
        }
        lemma_equals_at(data, start, start + n, end);
        lemma_keys_differ(k);
        assert(data.subrange(start, start + n) =~= key) by {
            assert forall|j: int| 0 <= j < n implies data[start + j] == key[j] by {
                assert(text[j] == key[j]);
            }
        }
    } else {
        lemma_no_equals(data, start, end);
    }
}

/// What is cut off among the fields has no closing line.
proof fn lemma_torn_fields(fs: Seq<(Key, nat)>, n: int, r: Reading)
    requires
        forall|i: int|
            0 <= i < fs.len() ==> (#[trigger] fs[i]).0 != Key::Other && fs[i].0 != Key::Sum
                && fs[i].1 <= u32::MAX,
        0 <= n <= entries(fs).len(),
        !r.summed,
    ensures
        !read_on(entries(fs).take(n), 0, r).summed,
    decreases fs.len(),
{
    let data = entries(fs).take(n);
    if fs.len() > 0 {
        let head = fs.drop_last();
        let (k, v) = fs.last();
        assert(fs.last() == fs[fs.len() - 1]);
        let before = entries(head);
        let b = before.len() as int;
        assert forall|i: int| 0 <= i < head.len() implies (#[trigger] head[i]).0 != Key::Other
            && head[i].0 != Key::Sum && head[i].1 <= u32::MAX by {
            assert(head[i] == fs[i]);
        }
        if n <= b {
            lemma_torn_fields(head, n, r);
            assert(data =~= before.take(n));
        } else {
            assert(data.subrange(0, b) =~= before);
            lemma_read_entries(data, head, r, BookRecord::spec_empty().stats);
            let r1 = all_read(head, r);
            lemma_all_summed(head, r);
            if n == entries(fs).len() {
                assert(data =~= entries(fs));
                assert(data.subrange(b, b + entry(k, v).len()) =~= entry(k, v));
                lemma_read_entry(data, b, k, v as u32, r1, BookRecord::spec_empty().stats);
            } else {
                digits::lemma_decimal_shape(v);
                let text = key_text(k) + seq![0x3Du8] + digits::decimal(v);
                assert(data.skip(b) =~= entry(k, v).take(n - b));
                assert(data.skip(b) =~= text.take(n - b));
                lemma_torn_line(data, b, k, digits::decimal(v));
                let line = line_at(data, b);
                let r2 = with_field(r1, k, digits::number(line.value(data)));
                assert(read_on(data, data.len() as int, r1) == r1);
                assert(read_on(data, data.len() as int, r2) == r2);
            }
        }
    } else {
        assert(data.len() == 0);
    }
}

/// No field closes a record.
proof fn lemma_all_summed(fs: Seq<(Key, nat)>, r: Reading)
    ensures
        all_read(fs, r).summed == r.summed,
    decreases fs.len(),
{
    if fs.len() > 0 {
        lemma_all_summed(fs.drop_last(), r);
    }
}

/// A torn write never invents a position: whatever part of a record was
/// written, reading it gives no position or the one that was meant.
pub proof fn law_torn_writes_invent_no_position(r: BookRecord, n: int)
    requires
        r.pos matches Some(p) ==> p.progress_pct <= 100,
        0 <= n <= encoded(r).len(),
    ensures
        ({
            let got = parsed(encoded(r).take(n)).pos;
            got is None || (r.pos matches Some(p) && got == Some(kept(p)))
        }),
{
    let fs = fields(r);
    let body = entries(fs);
    let b = body.len() as int;
    let data = encoded(r).take(n);
    let r0 = spec_nothing_read();
    lemma_fields_plain(r);
    lemma_fields_add_up(r);
    if n <= b {
        assert(data =~= body.take(n));
        lemma_torn_fields(fs, n, r0);
    } else if n == encoded(r).len() {
        assert(data =~= encoded(r));
        law_records_come_back(r);
    } else {
        assert(data.subrange(0, b) =~= body);
        lemma_read_entries(data, fs, r0, BookRecord::spec_empty().stats);
        let r1 = all_read(fs, r0);
        let h = hash::fnv(body);
        let val = digits::hex(h as nat, 8);
        digits::lemma_hex_shape(h as nat, 8);
        assert forall|j: int| 0 <= j < val.len() implies !blank(#[trigger] val[j]) by {
            assert(digits::hex_value(val[j]) is Some);
        }
        let text = key_text(Key::Sum) + seq![0x3Du8] + val;
        assert(data.skip(b) =~= text.take(n - b));
        lemma_torn_line(data, b, Key::Sum, val);
        assert(read_on(data, data.len() as int, r1) == r1);
    }
}

} // verus!
