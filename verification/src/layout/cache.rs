//! Stored chapter layouts.
//!
//! A book's layouts are kept in two parts. The directory holds a header that
//! stamps the key they were made under, and one entry for each chapter. The
//! data holds the records of pages and lines that entries point to; it only
//! grows. Where each field stands in the header, an entry and a record is a
//! format of this library.

use crate::bytes;
use crate::layout::table;
use crate::layout::table::{
    LayoutIdxHeader, LayoutKey, LineLayout, PageLayout, MAX_LINES_PER_CHAPTER, MAX_PAGES,
};
use vstd::prelude::*;

verus! {

/// Bytes of the header, of an entry, and of a record.
pub const HEADER_SIZE: usize = 16;

pub const ENTRY_SIZE: usize = 24;

pub const RECORD_SIZE: usize = 12;

/// The entry of a chapter: its counts, and where its records stand in the data.
#[derive(Clone, Copy, Debug, PartialEq, Eq, Structural)]
pub struct ChapterLayoutDir {
    pub chapter_index: u16,
    pub page_count: u16,
    pub line_count: u16,
    pub flags: u16,
    pub pages_offset: u32,
    pub lines_offset: u32,
    pub byte_size: u32,
}

// ── records ───────────────────────────────────────────────────────

pub open spec fn line_bytes(l: LineLayout) -> Seq<u8> {
    bytes::le32(l.start_byte) + bytes::le32(l.end_byte) + seq![l.flags, l.indent, l.align, l.extra]
}

pub open spec fn line_at(b: Seq<u8>, i: int) -> LineLayout {
    LineLayout {
        start_byte: bytes::u32_at(b, i),
        end_byte: bytes::u32_at(b, i + 4),
        flags: b[i + 8],
        indent: b[i + 9],
        align: b[i + 10],
        extra: b[i + 11],
    }
}

pub open spec fn page_bytes(p: PageLayout) -> Seq<u8> {
    bytes::le16(p.first_line) + seq![p.line_count, p.flags] + bytes::le32(p.start_byte)
        + bytes::le32(p.end_byte)
}

pub open spec fn page_at(b: Seq<u8>, i: int) -> PageLayout {
    PageLayout {
        first_line: bytes::u16_at(b, i),
        line_count: b[i + 2],
        flags: b[i + 3],
        start_byte: bytes::u32_at(b, i + 4),
        end_byte: bytes::u32_at(b, i + 8),
    }
}

pub open spec fn entry_bytes(e: ChapterLayoutDir) -> Seq<u8> {
    bytes::le16(e.chapter_index) + bytes::le16(e.page_count) + bytes::le16(e.line_count)
        + bytes::le16(e.flags) + bytes::le32(e.pages_offset) + bytes::le32(e.lines_offset)
        + bytes::le32(e.byte_size) + bytes::le32(0)
}

pub open spec fn entry_at(b: Seq<u8>, i: int) -> ChapterLayoutDir {
    ChapterLayoutDir {
        chapter_index: bytes::u16_at(b, i),
        page_count: bytes::u16_at(b, i + 2),
        line_count: bytes::u16_at(b, i + 4),
        flags: bytes::u16_at(b, i + 6),
        pages_offset: bytes::u32_at(b, i + 8),
        lines_offset: bytes::u32_at(b, i + 12),
        byte_size: bytes::u32_at(b, i + 16),
    }
}

pub open spec fn header_bytes(h: LayoutIdxHeader) -> Seq<u8> {
    seq![h.format_version, h.algo_version, h.font_idx, h.content_fmt] + bytes::le16(h.text_w)
        + bytes::le16(h.line_h) + seq![h.max_lines, h.flags, h.font_family, 0u8] + bytes::le32(
        h.total_pages,
    )
}

pub open spec fn header_at(b: Seq<u8>, i: int) -> LayoutIdxHeader {
    LayoutIdxHeader {
        format_version: b[i],
        algo_version: b[i + 1],
        font_idx: b[i + 2],
        content_fmt: b[i + 3],
        text_w: bytes::u16_at(b, i + 4),
        line_h: bytes::u16_at(b, i + 6),
        max_lines: b[i + 8],
        flags: b[i + 9],
        font_family: b[i + 10],
        total_pages: bytes::u32_at(b, i + 12),
    }
}

/// The text `t` stands at `i` of `b`.
pub open spec fn stands_at(b: Seq<u8>, i: int, t: Seq<u8>) -> bool {
    &&& 0 <= i
    &&& i + t.len() <= b.len()
    &&& forall|k: int| 0 <= k < t.len() ==> #[trigger] b[i + k] == t[k]
}

proof fn lemma_line_back(b: Seq<u8>, i: int, l: LineLayout)
    requires
        stands_at(b, i, line_bytes(l)),
    ensures
        line_at(b, i) == l,
{
    let t = line_bytes(l);
    assert(b[i + 0] == t[0] && b[i + 1] == t[1] && b[i + 2] == t[2] && b[i + 3] == t[3]);
    assert(b[i + 4] == t[4] && b[i + 5] == t[5] && b[i + 6] == t[6] && b[i + 7] == t[7]);
    assert(b[i + 8] == t[8] && b[i + 9] == t[9] && b[i + 10] == t[10] && b[i + 11] == t[11]);
    bytes::law_numbers_read_back(b, i, 0, l.start_byte);
    bytes::law_numbers_read_back(b, i + 4, 0, l.end_byte);
}

proof fn lemma_page_back(b: Seq<u8>, i: int, p: PageLayout)
    requires
        stands_at(b, i, page_bytes(p)),
    ensures
        page_at(b, i) == p,
{
    let t = page_bytes(p);
    assert(b[i + 0] == t[0] && b[i + 1] == t[1] && b[i + 2] == t[2] && b[i + 3] == t[3]);
    assert(b[i + 4] == t[4] && b[i + 5] == t[5] && b[i + 6] == t[6] && b[i + 7] == t[7]);
    assert(b[i + 8] == t[8] && b[i + 9] == t[9] && b[i + 10] == t[10] && b[i + 11] == t[11]);
    bytes::law_numbers_read_back(b, i, p.first_line, 0);
    bytes::law_numbers_read_back(b, i + 4, 0, p.start_byte);
    bytes::law_numbers_read_back(b, i + 8, 0, p.end_byte);
}

proof fn lemma_entry_back(b: Seq<u8>, i: int, e: ChapterLayoutDir)
    requires
        stands_at(b, i, entry_bytes(e)),
    ensures
        entry_at(b, i) == e,
{
    let t = entry_bytes(e);
    assert(b[i + 0] == t[0] && b[i + 1] == t[1] && b[i + 2] == t[2] && b[i + 3] == t[3]);
    assert(b[i + 4] == t[4] && b[i + 5] == t[5] && b[i + 6] == t[6] && b[i + 7] == t[7]);
    assert(b[i + 8] == t[8] && b[i + 9] == t[9] && b[i + 10] == t[10] && b[i + 11] == t[11]);
    assert(b[i + 12] == t[12] && b[i + 13] == t[13] && b[i + 14] == t[14] && b[i + 15] == t[15]);
    assert(b[i + 16] == t[16] && b[i + 17] == t[17] && b[i + 18] == t[18] && b[i + 19] == t[19]);
    bytes::law_numbers_read_back(b, i, e.chapter_index, 0);
    bytes::law_numbers_read_back(b, i + 2, e.page_count, 0);
    bytes::law_numbers_read_back(b, i + 4, e.line_count, 0);
    bytes::law_numbers_read_back(b, i + 6, e.flags, 0);
    bytes::law_numbers_read_back(b, i + 8, 0, e.pages_offset);
    bytes::law_numbers_read_back(b, i + 12, 0, e.lines_offset);
    bytes::law_numbers_read_back(b, i + 16, 0, e.byte_size);
}

proof fn lemma_header_back(b: Seq<u8>, i: int, h: LayoutIdxHeader)
    requires
        stands_at(b, i, header_bytes(h)),
    ensures
        header_at(b, i) == h,
{
    let t = header_bytes(h);
    assert(b[i + 0] == t[0] && b[i + 1] == t[1] && b[i + 2] == t[2] && b[i + 3] == t[3]);
    assert(b[i + 4] == t[4] && b[i + 5] == t[5] && b[i + 6] == t[6] && b[i + 7] == t[7]);
    assert(b[i + 8] == t[8] && b[i + 9] == t[9] && b[i + 10] == t[10] && b[i + 11] == t[11]);
    assert(b[i + 12] == t[12] && b[i + 13] == t[13] && b[i + 14] == t[14] && b[i + 15] == t[15]);
    bytes::law_numbers_read_back(b, i + 4, h.text_w, 0);
    bytes::law_numbers_read_back(b, i + 6, h.line_h, 0);
    bytes::law_numbers_read_back(b, i + 12, 0, h.total_pages);
}

/// The records of pages, one behind the other.
pub open spec fn pages_bytes(pages: Seq<PageLayout>) -> Seq<u8> {
    Seq::new(
        (RECORD_SIZE * pages.len()) as nat,
        |k: int| page_bytes(pages[k / (RECORD_SIZE as int)])[k % (RECORD_SIZE as int)],
    )
}

/// The records of lines, one behind the other.
pub open spec fn lines_bytes(lines: Seq<LineLayout>) -> Seq<u8> {
    Seq::new(
        (RECORD_SIZE * lines.len()) as nat,
        |k: int| line_bytes(lines[k / (RECORD_SIZE as int)])[k % (RECORD_SIZE as int)],
    )
}

fn push_page(out: &mut Vec<u8>, p: &PageLayout)
    ensures
        final(out)@ == old(out)@ + page_bytes(*p),
{
    bytes::push_u16(out, p.first_line);
    out.push(p.line_count);
    out.push(p.flags);
    bytes::push_u32(out, p.start_byte);
    bytes::push_u32(out, p.end_byte);
    proof {
        assert(out@ =~= old(out)@ + page_bytes(*p));
    }
}

fn push_line(out: &mut Vec<u8>, l: &LineLayout)
    ensures
        final(out)@ == old(out)@ + line_bytes(*l),
{
    bytes::push_u32(out, l.start_byte);
    bytes::push_u32(out, l.end_byte);
    out.push(l.flags);
    out.push(l.indent);
    out.push(l.align);
    out.push(l.extra);
    proof {
        assert(out@ =~= old(out)@ + line_bytes(*l));
    }
}

fn push_pages(out: &mut Vec<u8>, pages: &[PageLayout])
    ensures
        final(out)@ == old(out)@ + pages_bytes(pages@),
{
    let mut i: usize = 0;
    proof {
        assert(out@ =~= old(out)@ + pages_bytes(pages@.take(0)));
    }
    while i < pages.len()
        invariant
            i <= pages@.len(),
            out@ == old(out)@ + pages_bytes(pages@.take(i as int)),
        decreases pages@.len() - i,
    {
        push_page(out, &pages[i]);
        proof {
            assert(pages_bytes(pages@.take(i + 1)) =~= pages_bytes(pages@.take(i as int))
                + page_bytes(pages@[i as int]));
            assert(out@ =~= old(out)@ + pages_bytes(pages@.take(i + 1)));
        }
        i = i + 1;
    }
    proof {
        assert(pages@.take(i as int) =~= pages@);
    }
}

fn push_lines(out: &mut Vec<u8>, lines: &[LineLayout])
    ensures
        final(out)@ == old(out)@ + lines_bytes(lines@),
{
    let mut i: usize = 0;
    proof {
        assert(out@ =~= old(out)@ + lines_bytes(lines@.take(0)));
    }
    while i < lines.len()
        invariant
            i <= lines@.len(),
            out@ == old(out)@ + lines_bytes(lines@.take(i as int)),
        decreases lines@.len() - i,
    {
        push_line(out, &lines[i]);
        proof {
            assert(lines_bytes(lines@.take(i + 1)) =~= lines_bytes(lines@.take(i as int))
                + line_bytes(lines@[i as int]));
            assert(out@ =~= old(out)@ + lines_bytes(lines@.take(i + 1)));
        }
        i = i + 1;
    }
    proof {
        assert(lines@.take(i as int) =~= lines@);
    }
}

// ── loading ───────────────────────────────────────────────────────

/// A stored layout of one chapter. It has no pages where they were built for
/// another spacing; its lines hold all the same.
pub struct LoadedChapter {
    pub pages: Vec<PageLayout>,
    pub lines: Vec<LineLayout>,
    /// size of the chapter when it was laid out
    pub byte_size: u32,
}

/// The header was stamped under exactly this key.
pub open spec fn stamps(key: LayoutKey, h: LayoutIdxHeader) -> bool {
    key.spec_lines_match(h) && h.line_h == key.line_h && h.max_lines == key.max_lines
}

/// Where the entry of a chapter stands in the directory.
pub open spec fn entry_pos(ch: int) -> int {
    HEADER_SIZE + ch * ENTRY_SIZE
}

/// `n` records from `at` on are within the data.
pub open spec fn in_data(data: Seq<u8>, at: u32, n: u16) -> bool {
    at + RECORD_SIZE * n <= data.len()
}

/// The entry has lines.
pub open spec fn has_lines(e: ChapterLayoutDir) -> bool {
    e.line_count > 0 && e.lines_offset != 0
}

/// The entry can be followed: it has pages, is within the limits, and points
/// into the data.
pub open spec fn sound(e: ChapterLayoutDir, data: Seq<u8>) -> bool {
    &&& 0 < e.page_count <= MAX_PAGES
    &&& e.line_count <= MAX_LINES_PER_CHAPTER
    &&& in_data(data, e.pages_offset, e.page_count)
    &&& has_lines(e) ==> in_data(data, e.lines_offset, e.line_count)
}

/// The directory has an entry for the chapter under a key with the same lines.
pub open spec fn found(dir: Seq<u8>, data: Seq<u8>, ch: int, spine_len: int, key: LayoutKey) -> bool {
    &&& ch < spine_len
    &&& HEADER_SIZE <= dir.len()
    &&& key.spec_lines_match(header_at(dir, 0))
    &&& entry_pos(ch) + ENTRY_SIZE <= dir.len()
    &&& sound(entry_at(dir, entry_pos(ch)), data)
}

pub open spec fn stored_pages(data: Seq<u8>, e: ChapterLayoutDir) -> Seq<PageLayout> {
    Seq::new(
        e.page_count as nat,
        |i: int| page_at(data, e.pages_offset + RECORD_SIZE * i),
    )
}

pub open spec fn stored_lines(data: Seq<u8>, e: ChapterLayoutDir) -> Seq<LineLayout> {
    if has_lines(e) {
        Seq::new(
            e.line_count as nat,
            |i: int| line_at(data, e.lines_offset + RECORD_SIZE * i),
        )
    } else {
        Seq::empty()
    }
}

/// The stored layout of a chapter: pages, lines and size.
pub open spec fn stored(
    dir: Seq<u8>,
    data: Seq<u8>,
    ready: bool,
    ch: int,
    spine_len: int,
    key: LayoutKey,
) -> Option<(Seq<PageLayout>, Seq<LineLayout>, u32)> {
    let e = entry_at(dir, entry_pos(ch));
    if ready && found(dir, data, ch, spine_len, key) {
        Some(
            (
                if stamps(key, header_at(dir, 0)) {
                    stored_pages(data, e)
                } else {
                    Seq::empty()
                },
                stored_lines(data, e),
                e.byte_size,
            ),
        )
    } else {
        None
    }
}

/// The outcome `r` is what `want` says.
pub open spec fn layout_is(
    r: Option<LoadedChapter>,
    want: Option<(Seq<PageLayout>, Seq<LineLayout>, u32)>,
) -> bool {
    match (r, want) {
        (Some(c), Some((pages, lines, size))) => c.pages@ == pages && c.lines@ == lines
            && c.byte_size == size,
        (None, None) => true,
        _ => false,
    }
}

fn read_header(b: &[u8]) -> (h: LayoutIdxHeader)
    requires
        b@.len() >= HEADER_SIZE,
    ensures
        h == header_at(b@, 0),
{
    LayoutIdxHeader {
        format_version: b[0],
        algo_version: b[1],
        font_idx: b[2],
        content_fmt: b[3],
        text_w: bytes::read_u16(b, 4),
        line_h: bytes::read_u16(b, 6),
        max_lines: b[8],
        flags: b[9],
        font_family: b[10],
        total_pages: bytes::read_u32(b, 12),
    }
}

fn read_entry(b: &[u8], i: usize) -> (e: ChapterLayoutDir)
    requires
        i + ENTRY_SIZE <= b@.len(),
    ensures
        e == entry_at(b@, i as int),
{
    let _len: usize = b.len();
    ChapterLayoutDir {
        chapter_index: bytes::read_u16(b, i),
        page_count: bytes::read_u16(b, i + 2),
        line_count: bytes::read_u16(b, i + 4),
        flags: bytes::read_u16(b, i + 6),
        pages_offset: bytes::read_u32(b, i + 8),
        lines_offset: bytes::read_u32(b, i + 12),
        byte_size: bytes::read_u32(b, i + 16),
    }
}

fn key_stamps(key: &LayoutKey, h: &LayoutIdxHeader) -> (b: bool)
    ensures
        b == stamps(*key, *h),
{
    key.lines_match(h) && h.line_h == key.line_h && h.max_lines == key.max_lines
}

fn records_in(len: usize, at: u32, n: u16) -> (b: bool)
    ensures
        b == (at + RECORD_SIZE * n <= len),
{
    at as u64 + 12 * (n as u64) <= len as u64
}

fn read_pages(data: &[u8], e: &ChapterLayoutDir, out: &mut Vec<PageLayout>)
    requires
        in_data(data@, e.pages_offset, e.page_count),
        old(out)@.len() == 0,
    ensures
        final(out)@ == stored_pages(data@, *e),
{
    let mut i: u16 = 0;
    let at: usize = e.pages_offset as usize;
    let len: usize = data.len();
    while i < e.page_count
        invariant
            i <= e.page_count,
            at == e.pages_offset,
            len == data@.len(),
            in_data(data@, e.pages_offset, e.page_count),
            out@ =~= stored_pages(data@, *e).take(i as int),
        decreases e.page_count - i,
    {
        let p: usize = at + 12 * (i as usize);
        out.push(
            PageLayout {
                first_line: bytes::read_u16(data, p),
                line_count: data[p + 2],
                flags: data[p + 3],
                start_byte: bytes::read_u32(data, p + 4),
                end_byte: bytes::read_u32(data, p + 8),
            },
        );
        i = i + 1;
    }
}

fn read_lines(data: &[u8], e: &ChapterLayoutDir, out: &mut Vec<LineLayout>)
    requires
        has_lines(*e) ==> in_data(data@, e.lines_offset, e.line_count),
        old(out)@.len() == 0,
    ensures
        final(out)@ == stored_lines(data@, *e),
{
    if e.line_count == 0 || e.lines_offset == 0 {
        proof {
            assert(out@ =~= stored_lines(data@, *e));
        }
        return;
    }
    let mut i: u16 = 0;
    let at: usize = e.lines_offset as usize;
    let len: usize = data.len();
    while i < e.line_count
        invariant
            i <= e.line_count,
            has_lines(*e),
            at == e.lines_offset,
            len == data@.len(),
            in_data(data@, e.lines_offset, e.line_count),
            out@ =~= stored_lines(data@, *e).take(i as int),
        decreases e.line_count - i,
    {
        let p: usize = at + 12 * (i as usize);
        out.push(
            LineLayout {
                start_byte: bytes::read_u32(data, p),
                end_byte: bytes::read_u32(data, p + 4),
                flags: data[p + 8],
                indent: data[p + 9],
                align: data[p + 10],
                extra: data[p + 11],
            },
        );
        i = i + 1;
    }
}

/// The entry of a chapter, if the directory has one that can be followed.
fn find_entry(
    dir: &[u8],
    data_len: usize,
    ch: usize,
    spine_len: usize,
    key: &LayoutKey,
    Ghost(data): Ghost<Seq<u8>>,
) -> (r: Option<ChapterLayoutDir>)
    requires
        data_len == data.len(),
    ensures
        r == (if found(dir@, data, ch as int, spine_len as int, *key) {
            Some(entry_at(dir@, entry_pos(ch as int)))
        } else {
            None
        }),
{
    if ch >= spine_len || dir.len() < HEADER_SIZE {
        return None;
    }
    let h: LayoutIdxHeader = read_header(dir);
    if !key.lines_match(&h) {
        return None;
    }
    if ch >= (dir.len() - HEADER_SIZE) / ENTRY_SIZE {
        return None;
    }
    let e: ChapterLayoutDir = read_entry(dir, HEADER_SIZE + ch * ENTRY_SIZE);
    if e.page_count == 0 || !table::fits_in_caps(e.page_count as usize, e.line_count as usize) {
        return None;
    }
    if !records_in(data_len, e.pages_offset, e.page_count) {
        return None;
    }
    if e.line_count > 0 && e.lines_offset != 0 && !records_in(
        data_len,
        e.lines_offset,
        e.line_count,
    ) {
        return None;
    }
    Some(e)
}

/// `want`, if memory for it is granted.
pub open spec fn granted(
    want: Option<(Seq<PageLayout>, Seq<LineLayout>, u32)>,
    room: bool,
) -> Option<(Seq<PageLayout>, Seq<LineLayout>, u32)> {
    if room {
        want
    } else {
        None
    }
}

/// Read the layout that an entry points to into empty tables.
fn read_layout(
    dir: &[u8],
    data: &[u8],
    key: &LayoutKey,
    e: &ChapterLayoutDir,
    pages: Vec<PageLayout>,
    lines: Vec<LineLayout>,
) -> (c: LoadedChapter)
    requires
        dir@.len() >= HEADER_SIZE,
        sound(*e, data@),
        pages@.len() == 0,
        lines@.len() == 0,
    ensures
        c.pages@ == (if stamps(*key, header_at(dir@, 0)) {
            stored_pages(data@, *e)
        } else {
            Seq::empty()
        }),
        c.lines@ == stored_lines(data@, *e),
        c.byte_size == e.byte_size,
{
    let mut c = LoadedChapter { pages, lines, byte_size: e.byte_size };
    let h: LayoutIdxHeader = read_header(dir);
    if key_stamps(key, &h) {
        read_pages(data, e, &mut c.pages);
    }
    read_lines(data, e, &mut c.lines);
    proof {
        if !stamps(*key, header_at(dir@, 0)) {
            assert(c.pages@ =~= Seq::<PageLayout>::empty());
        }
    }
    c
}

/// `load_layoutidx` with the answer of the allocator as an argument.
pub fn load_layoutidx_granted(
    dir: &[u8],
    data: &[u8],
    ready: bool,
    ch: usize,
    spine_len: usize,
    key: &LayoutKey,
    room: bool,
) -> (r: Option<LoadedChapter>)
    ensures
        layout_is(
            r,
            granted(stored(dir@, data@, ready, ch as int, spine_len as int, *key), room),
        ),
{
    if !ready || !room {
        return None;
    }
    match find_entry(dir, data.len(), ch, spine_len, key, Ghost(data@)) {
        Some(e) => Some(read_layout(dir, data, key, &e, Vec::new(), Vec::new())),
        None => None,
    }
}

/// The stored layout of a chapter: `dir` and `data` are the two parts of the
/// book's layouts, `ready` says whether they are complete. None where the
/// chapter has none under this key, where an entry cannot be followed, or
/// where memory is refused.
pub fn load_layoutidx(
    dir: &[u8],
    data: &[u8],
    ready: bool,
    ch: usize,
    spine_len: usize,
    key: &LayoutKey,
) -> (r: Option<LoadedChapter>)
    ensures
        exists|room: bool|
            layout_is(
                r,
                #[trigger] granted(
                    stored(dir@, data@, ready, ch as int, spine_len as int, *key),
                    room,
                ),
            ),
{
    let ghost want = stored(dir@, data@, ready, ch as int, spine_len as int, *key);
    if !ready {
        proof {
            assert(layout_is(None, granted(want, true)));
        }
        return None;
    }
    match find_entry(dir, data.len(), ch, spine_len, key, Ghost(data@)) {
        Some(e) => {
            let mut pages: Vec<PageLayout> = Vec::new();
            let mut lines: Vec<LineLayout> = Vec::new();
            if pages.try_reserve(e.page_count as usize).is_err() || lines.try_reserve(
                e.line_count as usize,
            ).is_err() {
                proof {
                    assert(layout_is(None, granted(want, false)));
                }
                return None;
            }
            let c: LoadedChapter = read_layout(dir, data, key, &e, pages, lines);
            proof {
                assert(layout_is(Some(c), granted(want, true)));
            }
            Some(c)
        },
        None => {
            proof {
                assert(layout_is(None, granted(want, true)));
            }
            None
        },
    }
}

// ── saving ────────────────────────────────────────────────────────

/// What became of a layout that was to be saved.
#[derive(Clone, Copy, Debug, PartialEq, Eq, Structural)]
pub enum Saved {
    Yes,
    /// nothing was to be done: the book is not complete, the chapter is not
    /// one of it, or the layout exceeds the limits
    No,
    /// the directory has no place for the chapter, or the data is full
    Failed,
}

/// The directory of `n` bytes without entries, stamped under a key; one that
/// is too short for the stamp is zeros.
pub open spec fn fresh_dir(n: int, key: LayoutKey) -> Seq<u8> {
    let h = header_bytes(key.spec_header(0));
    Seq::new(
        n as nat,
        |k: int|
            if k < HEADER_SIZE <= n {
                h[k]
            } else {
                0u8
            },
    )
}

/// The directory to add an entry to: one stamped under another key starts over.
pub open spec fn stamped_dir(dir: Seq<u8>, key: LayoutKey) -> Seq<u8> {
    if dir.len() >= HEADER_SIZE && stamps(key, header_at(dir, 0)) {
        dir
    } else {
        fresh_dir(dir.len() as int, key)
    }
}

/// `b` with `t` written at `i`.
pub open spec fn written(b: Seq<u8>, i: int, t: Seq<u8>) -> Seq<u8> {
    Seq::new(
        b.len(),
        |k: int|
            if i <= k < i + t.len() {
                t[k - i]
            } else {
                b[k]
            },
    )
}

/// The entry of a layout whose records stand at the end of the data.
pub open spec fn new_entry(
    data: Seq<u8>,
    ch: int,
    pages: Seq<PageLayout>,
    lines: Seq<LineLayout>,
    byte_size: u32,
) -> ChapterLayoutDir {
    ChapterLayoutDir {
        chapter_index: (ch % 0x10000) as u16,
        page_count: pages.len() as u16,
        line_count: lines.len() as u16,
        flags: 0,
        pages_offset: data.len() as u32,
        lines_offset: if lines.len() == 0 {
            0
        } else {
            (data.len() + RECORD_SIZE * pages.len()) as u32
        },
        byte_size,
    }
}

/// The data with the records of a layout behind it.
pub open spec fn grown_data(data: Seq<u8>, pages: Seq<PageLayout>, lines: Seq<LineLayout>) -> Seq<u8> {
    data + pages_bytes(pages) + lines_bytes(lines)
}

/// The layout is one to be saved.
pub open spec fn savable(core_ready: bool, ch: int, spine_len: int, pages: int, lines: int) -> bool {
    core_ready && ch < spine_len && pages <= MAX_PAGES && lines <= MAX_LINES_PER_CHAPTER
}

/// The data has room for its records.
pub open spec fn has_room(data_len: int, pages: int, lines: int) -> bool {
    data_len + RECORD_SIZE * (pages + lines) <= u32::MAX
}

/// There is a place for it.
pub open spec fn has_place(dir_len: int, data_len: int, ch: int, pages: int, lines: int) -> bool {
    &&& entry_pos(ch) + ENTRY_SIZE <= dir_len
    &&& has_room(data_len, pages, lines)
}

/// The directory after a layout was saved.
pub open spec fn dir_after(
    dir: Seq<u8>,
    data: Seq<u8>,
    ch: int,
    key: LayoutKey,
    pages: Seq<PageLayout>,
    lines: Seq<LineLayout>,
    byte_size: u32,
) -> Seq<u8> {
    written(
        stamped_dir(dir, key),
        entry_pos(ch),
        entry_bytes(new_entry(data, ch, pages, lines, byte_size)),
    )
}

/// What saving a layout gives, the directory and the data. The directory is
/// stamped first, then the records are written, and the entry last: a layout
/// that finds no place leaves what came before it.
pub open spec fn saved(
    dir: Seq<u8>,
    data: Seq<u8>,
    core_ready: bool,
    ch: int,
    spine_len: int,
    key: LayoutKey,
    pages: Seq<PageLayout>,
    lines: Seq<LineLayout>,
    byte_size: u32,
) -> (Saved, Seq<u8>, Seq<u8>) {
    let n = pages.len() as int;
    let m = lines.len() as int;
    if !savable(core_ready, ch, spine_len, n, m) {
        (Saved::No, dir, data)
    } else if dir.len() < HEADER_SIZE || !has_room(data.len() as int, n, m) {
        (Saved::Failed, stamped_dir(dir, key), data)
    } else if entry_pos(ch) + ENTRY_SIZE > dir.len() {
        (Saved::Failed, stamped_dir(dir, key), grown_data(data, pages, lines))
    } else {
        (
            Saved::Yes,
            dir_after(dir, data, ch, key, pages, lines, byte_size),
            grown_data(data, pages, lines),
        )
    }
}

fn write_bytes(b: &mut Vec<u8>, at: usize, t: &Vec<u8>)
    requires
        at + t@.len() <= old(b)@.len(),
    ensures
        final(b)@ == written(old(b)@, at as int, t@),
{
    let n: usize = b.len();
    let mut k: usize = 0;
    while k < t.len()
        invariant
            k <= t@.len(),
            at + t@.len() <= n,
            n == b@.len() == old(b)@.len(),
            forall|j: int| 0 <= j < n && !(at <= j < at + k) ==> b@[j] == old(b)@[j],
            forall|j: int| at <= j < at + k ==> b@[j] == t@[j - at],
        decreases t@.len() - k,
    {
        b.set(at + k, t[k]);
        k = k + 1;
    }
    proof {
        assert(b@ =~= written(old(b)@, at as int, t@));
    }
}

fn header_vec(h: &LayoutIdxHeader) -> (v: Vec<u8>)
    ensures
        v@ == header_bytes(*h),
{
    let mut v: Vec<u8> = Vec::new();
    v.push(h.format_version);
    v.push(h.algo_version);
    v.push(h.font_idx);
    v.push(h.content_fmt);
    bytes::push_u16(&mut v, h.text_w);
    bytes::push_u16(&mut v, h.line_h);
    v.push(h.max_lines);
    v.push(h.flags);
    v.push(h.font_family);
    v.push(0);
    bytes::push_u32(&mut v, h.total_pages);
    proof {
        assert(v@ =~= header_bytes(*h));
    }
    v
}

fn entry_vec(e: &ChapterLayoutDir) -> (v: Vec<u8>)
    ensures
        v@ == entry_bytes(*e),
        v@.len() == ENTRY_SIZE,
{
    let mut v: Vec<u8> = Vec::new();
    bytes::push_u16(&mut v, e.chapter_index);
    bytes::push_u16(&mut v, e.page_count);
    bytes::push_u16(&mut v, e.line_count);
    bytes::push_u16(&mut v, e.flags);
    bytes::push_u32(&mut v, e.pages_offset);
    bytes::push_u32(&mut v, e.lines_offset);
    bytes::push_u32(&mut v, e.byte_size);
    bytes::push_u32(&mut v, 0);
    proof {
        assert(v@ =~= entry_bytes(*e));
    }
    v
}

/// Clear the directory, and stamp it under `key`; `false` if it is too short
/// for the stamp.
pub fn reset_pidx_dir(dir: &mut Vec<u8>, key: &LayoutKey) -> (done: bool)
    ensures
        final(dir)@ == fresh_dir(old(dir)@.len() as int, *key),
        done == (old(dir)@.len() >= HEADER_SIZE),
{
    let n: usize = dir.len();
    let h: Vec<u8> = header_vec(&key.to_header(0));
    let mut k: usize = 0;
    while k < n
        invariant
            k <= n,
            n == dir@.len() == old(dir)@.len(),
            h@ == header_bytes(key.spec_header(0)),
            h@.len() == HEADER_SIZE,
            forall|j: int|
                0 <= j < k ==> dir@[j] == fresh_dir(n as int, *key)[j],
        decreases n - k,
    {
        let b: u8 = if k < HEADER_SIZE && HEADER_SIZE <= n {
            h[k]
        } else {
            0
        };
        dir.set(k, b);
        k = k + 1;
    }
    proof {
        assert(dir@ =~= fresh_dir(n as int, *key));
    }
    n >= HEADER_SIZE
}

/// Drop all stored layouts, and stamp the directory under a new key. The data
/// stays; nothing points to it any more. `false` if the directory is too short
/// for the stamp.
pub fn invalidate_layoutidx(dir: &mut Vec<u8>, key: &LayoutKey) -> (done: bool)
    ensures
        done == (old(dir)@.len() >= HEADER_SIZE),
        final(dir)@ == fresh_dir(old(dir)@.len() as int, *key),
{
    reset_pidx_dir(dir, key)
}

/// Save the layout of a chapter. A directory that was stamped under another key
/// starts over; the records go behind the data, and the entry is written last.
pub fn save_layoutidx(
    dir: &mut Vec<u8>,
    data: &mut Vec<u8>,
    core_ready: bool,
    ch: usize,
    spine_len: usize,
    key: &LayoutKey,
    pages: &[PageLayout],
    lines: &[LineLayout],
    byte_size: u32,
) -> (r: Saved)
    ensures
        (r, final(dir)@, final(data)@) == saved(
            old(dir)@,
            old(data)@,
            core_ready,
            ch as int,
            spine_len as int,
            *key,
            pages@,
            lines@,
            byte_size,
        ),
{
    if !core_ready || ch >= spine_len || !table::fits_in_caps(pages.len(), lines.len()) {
        return Saved::No;
    }
    if dir.len() < HEADER_SIZE {
        reset_pidx_dir(dir, key);
        return Saved::Failed;
    }
    let h: LayoutIdxHeader = read_header(dir.as_slice());
    if !key_stamps(key, &h) {
        reset_pidx_dir(dir, key);
    }
    let base: usize = data.len();
    let more: usize = 12 * (pages.len() + lines.len());
    if base > 0xffff_ffff || more > 0xffff_ffff - base {
        return Saved::Failed;
    }
    push_pages(data, pages);
    push_lines(data, lines);
    if ch >= (dir.len() - HEADER_SIZE) / ENTRY_SIZE {
        return Saved::Failed;
    }
    let e = ChapterLayoutDir {
        chapter_index: (ch % 0x10000) as u16,
        page_count: pages.len() as u16,
        line_count: lines.len() as u16,
        flags: 0,
        pages_offset: base as u32,
        lines_offset: if lines.len() == 0 {
            0
        } else {
            (base + 12 * pages.len()) as u32
        },
        byte_size,
    };
    let entry: Vec<u8> = entry_vec(&e);
    write_bytes(dir, HEADER_SIZE + ch * ENTRY_SIZE, &entry);
    Saved::Yes
}

// ── laws ──────────────────────────────────────────────────────────

proof fn lemma_page_stands(data: Seq<u8>, at: int, pages: Seq<PageLayout>, i: int)
    requires
        stands_at(data, at, pages_bytes(pages)),
        0 <= i < pages.len(),
    ensures
        page_at(data, at + RECORD_SIZE * i) == pages[i],
{
    let all = pages_bytes(pages);
    let p = at + RECORD_SIZE * i;
    assert forall|k: int| 0 <= k < 12 implies #[trigger] data[p + k] == page_bytes(pages[i])[k] by {
        let j = RECORD_SIZE * i + k;
        assert(data[at + j] == all[j]);
        assert(j / 12 == i && j % 12 == k);
    }
    lemma_page_back(data, p, pages[i]);
}

proof fn lemma_line_stands(data: Seq<u8>, at: int, lines: Seq<LineLayout>, i: int)
    requires
        stands_at(data, at, lines_bytes(lines)),
        0 <= i < lines.len(),
    ensures
        line_at(data, at + RECORD_SIZE * i) == lines[i],
{
    let all = lines_bytes(lines);
    let p = at + RECORD_SIZE * i;
    assert forall|k: int| 0 <= k < 12 implies #[trigger] data[p + k] == line_bytes(lines[i])[k] by {
        let j = RECORD_SIZE * i + k;
        assert(data[at + j] == all[j]);
        assert(j / 12 == i && j % 12 == k);
    }
    lemma_line_back(data, p, lines[i]);
}

proof fn lemma_stamped(dir: Seq<u8>, key: LayoutKey)
    requires
        dir.len() >= HEADER_SIZE,
    ensures
        stamped_dir(dir, key).len() == dir.len(),
        stamps(key, header_at(stamped_dir(dir, key), 0)),
{
    if !stamps(key, header_at(dir, 0)) {
        let h = key.spec_header(0);
        let d = fresh_dir(dir.len() as int, key);
        assert forall|k: int| 0 <= k < 16 implies #[trigger] d[0 + k] == header_bytes(h)[k] by {
        }
        lemma_header_back(d, 0, h);
    }
}

/// The header of a directory is that of another one with the same first bytes.
proof fn lemma_same_header(a: Seq<u8>, b: Seq<u8>)
    requires
        forall|k: int| 0 <= k < HEADER_SIZE ==> a[k] == b[k],
    ensures
        header_at(a, 0) == header_at(b, 0),
{
}

/// What was saved is loaded: the layout of a chapter comes back as it was,
/// under the same key.
pub proof fn law_saved_layouts_come_back(
    dir: Seq<u8>,
    data: Seq<u8>,
    ch: int,
    spine_len: int,
    key: LayoutKey,
    pages: Seq<PageLayout>,
    lines: Seq<LineLayout>,
    byte_size: u32,
)
    requires
        0 <= ch,
        savable(true, ch, spine_len, pages.len() as int, lines.len() as int),
        has_place(
            dir.len() as int,
            data.len() as int,
            ch,
            pages.len() as int,
            lines.len() as int,
        ),
        pages.len() > 0,
    ensures
        stored(
            dir_after(dir, data, ch, key, pages, lines, byte_size),
            grown_data(data, pages, lines),
            true,
            ch,
            spine_len,
            key,
        ) == Some((pages, lines, byte_size)),
{
    let e = new_entry(data, ch, pages, lines, byte_size);
    let d = dir_after(dir, data, ch, key, pages, lines, byte_size);
    let g = grown_data(data, pages, lines);
    lemma_stamped(dir, key);
    lemma_same_header(d, stamped_dir(dir, key));
    assert(entry_bytes(e).len() == ENTRY_SIZE);
    lemma_entry_back(d, entry_pos(ch), e);
    assert(stands_at(g, data.len() as int, pages_bytes(pages))) by {
        assert forall|k: int| 0 <= k < pages_bytes(pages).len() implies #[trigger] g[data.len()
            + k] == pages_bytes(pages)[k] by {
        }
    }
    let lines_pos = data.len() + RECORD_SIZE * pages.len();
    assert(stands_at(g, lines_pos as int, lines_bytes(lines))) by {
        assert forall|k: int| 0 <= k < lines_bytes(lines).len() implies #[trigger] g[lines_pos
            + k] == lines_bytes(lines)[k] by {
        }
    }
    assert forall|i: int| 0 <= i < pages.len() implies #[trigger] stored_pages(g, e)[i]
        == pages[i] by {
        lemma_page_stands(g, data.len() as int, pages, i);
    }
    assert(stored_pages(g, e) =~= pages);
    if lines.len() > 0 {
        assert forall|i: int| 0 <= i < lines.len() implies #[trigger] stored_lines(g, e)[i]
            == lines[i] by {
            lemma_line_stands(g, lines_pos as int, lines, i);
        }
    }
    assert(stored_lines(g, e) =~= lines);
}

/// Saving a chapter leaves the layouts of the others alone, as long as the key
/// is the one that they were saved under.
pub proof fn law_saving_keeps_other_chapters(
    dir: Seq<u8>,
    data: Seq<u8>,
    ch: int,
    other: int,
    spine_len: int,
    key: LayoutKey,
    pages: Seq<PageLayout>,
    lines: Seq<LineLayout>,
    byte_size: u32,
)
    requires
        0 <= ch,
        0 <= other,
        ch != other,
        has_place(
            dir.len() as int,
            data.len() as int,
            ch,
            pages.len() as int,
            lines.len() as int,
        ),
        stamps(key, header_at(dir, 0)),
        found(dir, data, other, spine_len, key),
    ensures
        stored(
            dir_after(dir, data, ch, key, pages, lines, byte_size),
            grown_data(data, pages, lines),
            true,
            other,
            spine_len,
            key,
        ) == stored(dir, data, true, other, spine_len, key),
{
    let d = dir_after(dir, data, ch, key, pages, lines, byte_size);
    let g = grown_data(data, pages, lines);
    let e = entry_at(dir, entry_pos(other));
    assert(entry_bytes(new_entry(data, ch, pages, lines, byte_size)).len() == ENTRY_SIZE);
    lemma_same_header(d, dir);
    assert(entry_at(d, entry_pos(other)) == e);
    assert(stored_pages(g, e) =~= stored_pages(data, e));
    assert(stored_lines(g, e) =~= stored_lines(data, e));
}

/// A save that fails leaves every layout that was stored under the key as it
/// was.
pub proof fn law_failed_saves_keep_all_chapters(
    dir: Seq<u8>,
    data: Seq<u8>,
    ch: int,
    other: int,
    spine_len: int,
    key: LayoutKey,
    pages: Seq<PageLayout>,
    lines: Seq<LineLayout>,
    byte_size: u32,
)
    requires
        0 <= other,
        saved(dir, data, true, ch, spine_len, key, pages, lines, byte_size).0 == Saved::Failed,
        found(dir, data, other, spine_len, key),
        stamps(key, header_at(dir, 0)),
    ensures
        ({
            let (_, d, g) = saved(dir, data, true, ch, spine_len, key, pages, lines, byte_size);
            stored(d, g, true, other, spine_len, key) == stored(
                dir,
                data,
                true,
                other,
                spine_len,
                key,
            )
        }),
{
    let e = entry_at(dir, entry_pos(other));
    let g = grown_data(data, pages, lines);
    assert(stored_pages(g, e) =~= stored_pages(data, e));
    assert(stored_lines(g, e) =~= stored_lines(data, e));
}

/// A layout is never taken for one of another key: other line breaks find
/// nothing, and another spacing finds the lines but not the pages.
pub proof fn law_stale_layouts_are_not_used(
    dir: Seq<u8>,
    data: Seq<u8>,
    ready: bool,
    ch: int,
    spine_len: int,
    key: LayoutKey,
)
    requires
        dir.len() >= HEADER_SIZE,
    ensures
        !key.spec_lines_match(header_at(dir, 0)) ==> stored(
            dir,
            data,
            ready,
            ch,
            spine_len,
            key,
        ) is None,
        !stamps(key, header_at(dir, 0)) ==> (stored(dir, data, ready, ch, spine_len, key) matches Some(
            (pages, _, _),
        ) ==> pages.len() == 0),
{
}

/// After invalidation no chapter has a layout, under whatever key.
pub proof fn law_invalidation_drops_all(
    n: int,
    data: Seq<u8>,
    ch: int,
    spine_len: int,
    new_key: LayoutKey,
    key: LayoutKey,
)
    requires
        n >= HEADER_SIZE,
        0 <= ch,
    ensures
        stored(fresh_dir(n, new_key), data, true, ch, spine_len, key) is None,
{
    let d = fresh_dir(n, new_key);
    let p = entry_pos(ch);
    if p + ENTRY_SIZE <= n {
        assert(d[p + 2] == 0 && d[p + 3] == 0);
        assert(entry_at(d, p).page_count == 0);
    }
}

} // verus!
