//! What holds of stored layouts, whatever chapter they are of.

use vstd::prelude::*;

use crate::bytes;
use crate::layout::cache::{self, ChapterLayoutDir, Saved};
use crate::layout::convert;
use crate::layout::paginate::PageSpacing;
use crate::layout::pipeline;
use crate::layout::table::{LayoutKey, LineLayout, PageLayout};
use crate::reader::adopt;

verus! {

/// A record takes twelve bytes. That of a line starts with its two ends, that
/// of a page with its lines, and ends with its two ends.
pub proof fn law_records_take_twelve_bytes(l: LineLayout, p: PageLayout)
    ensures
        cache::line_bytes(l).len() == 12,
        cache::line_bytes(l)[8] == l.flags,
        cache::line_bytes(l)[9] == l.indent,
        cache::line_bytes(l)[10] == l.align,
        cache::line_bytes(l)[11] == l.extra,
        cache::line_bytes(l).take(4) == bytes::le32(l.start_byte),
        cache::line_bytes(l).subrange(4, 8) == bytes::le32(l.end_byte),
        cache::page_bytes(p).len() == 12,
        cache::page_bytes(p).take(2) == bytes::le16(p.first_line),
        cache::page_bytes(p)[2] == p.line_count,
        cache::page_bytes(p)[3] == p.flags,
        cache::page_bytes(p).subrange(4, 8) == bytes::le32(p.start_byte),
        cache::page_bytes(p).subrange(8, 12) == bytes::le32(p.end_byte),
{
    assert(cache::line_bytes(l).take(4) =~= bytes::le32(l.start_byte));
    assert(cache::line_bytes(l).subrange(4, 8) =~= bytes::le32(l.end_byte));
    assert(cache::page_bytes(p).take(2) =~= bytes::le16(p.first_line));
    assert(cache::page_bytes(p).subrange(4, 8) =~= bytes::le32(p.start_byte));
    assert(cache::page_bytes(p).subrange(8, 12) =~= bytes::le32(p.end_byte));
}

/// Entries stand behind a header of 16 bytes, 24 bytes each, and do not
/// overlap.
pub proof fn law_entries_stand_side_by_side(a: int, b: int)
    requires
        0 <= a < b,
    ensures
        cache::entry_pos(0) == 16,
        cache::entry_pos(a) + 24 <= cache::entry_pos(b),
        cache::entry_pos(a + 1) == cache::entry_pos(a) + 24,
{
}

/// An entry is followed only where it has pages, 512 at most, and 4096 lines at
/// most, and where every record that it points to is within the data.
pub proof fn law_entries_point_into_the_data(e: ChapterLayoutDir, data: Seq<u8>)
    ensures
        cache::sound(e, data) ==> 1 <= e.page_count <= 512 && e.line_count <= 4096,
        cache::sound(e, data) ==> e.pages_offset + 12 * e.page_count <= data.len(),
        cache::sound(e, data) && e.line_count > 0 && e.lines_offset > 0 ==> e.lines_offset + 12
            * e.line_count <= data.len(),
        1 <= e.page_count <= 512 && e.line_count <= 4096 && e.pages_offset + 12 * e.page_count
            <= data.len() && e.lines_offset + 12 * e.line_count <= data.len() ==> cache::sound(
            e,
            data,
        ),
{
}

/// A chapter has no layout while the book's are not complete, where it is none
/// of the book's, or where the directory does not reach its entry.
pub proof fn law_layouts_need_their_entry(
    dir: Seq<u8>,
    data: Seq<u8>,
    ch: int,
    n: int,
    key: LayoutKey,
)
    requires
        0 <= ch,
    ensures
        cache::stored(dir, data, false, ch, n, key) is None,
        ch >= n ==> cache::stored(dir, data, true, ch, n, key) is None,
        dir.len() < 16 + 24 * (ch + 1) ==> cache::stored(dir, data, true, ch, n, key) is None,
        cache::stored(dir, data, true, ch, n, key) matches Some((pages, lines, size))
            ==> pages.len() <= 512 && lines.len() <= 4096,
{
}

/// A layout is saved once the book is complete, for its chapters alone, and if
/// it is not too large; it fails where the directory or the data has no place
/// for it.
pub proof fn law_what_is_saved(
    dir: Seq<u8>,
    data: Seq<u8>,
    core: bool,
    ch: int,
    n: int,
    key: LayoutKey,
    pages: Seq<PageLayout>,
    lines: Seq<LineLayout>,
    size: u32,
)
    requires
        0 <= ch,
    ensures
        ({
            let r = cache::saved(dir, data, core, ch, n, key, pages, lines, size);
            let wanted = core && ch < n && pages.len() <= 512 && lines.len() <= 4096;
            let fits = dir.len() >= 16 + 24 * (ch + 1) && data.len() + 12 * pages.len() + 12
                * lines.len() <= 4294967295;
            &&& !wanted ==> r == (Saved::No, dir, data)
            &&& wanted && fits ==> r.0 == Saved::Yes
            &&& wanted && !fits ==> r.0 == Saved::Failed
            &&& r.1.len() == dir.len()
            &&& data.len() <= r.2.len() && r.2.take(data.len() as int) == data
            &&& r.0 == Saved::Yes ==> r.2.len() == data.len() + 12 * pages.len() + 12 * lines.len()
        }),
{
    let r = cache::saved(dir, data, core, ch, n, key, pages, lines, size);
    assert(r.2.take(data.len() as int) =~= data);
}

/// A directory under the same key is kept, one under another starts over with
/// its stamp and no entry.
pub proof fn law_other_keys_start_over(dir: Seq<u8>, key: LayoutKey, k: int)
    requires
        dir.len() >= 16,
        16 <= k < dir.len(),
    ensures
        ({
            let h = cache::header_at(dir, 0);
            let same = h.format_version == key.format_version && h.algo_version == key.algo_version
                && h.font_idx == key.font_idx && h.font_family == key.font_family && h.content_fmt
                == key.content_fmt && h.text_w == key.text_w && h.line_h == key.line_h
                && h.max_lines == key.max_lines;
            &&& same ==> cache::stamped_dir(dir, key) == dir
            &&& !same ==> cache::stamped_dir(dir, key)[k] == 0
        }),
        cache::fresh_dir(dir.len() as int, key)[k] == 0,
        cache::fresh_dir(dir.len() as int, key)[0] == key.format_version,
        cache::fresh_dir(dir.len() as int, key)[2] == key.font_idx,
{
}

// ── image blocks of a stored layout ──────────────────────────────

/// A block is an image line and the fillers behind it, 255 at most; every other
/// line has none.
pub proof fn law_blocks_are_images_and_their_fillers(lines: Seq<LineLayout>, i: int, n: int)
    requires
        0 <= i,
        1 <= n <= 255,
        i + n <= lines.len(),
        lines[i].image(),
        !(lines[i].start_byte == 0 && lines[i].end_byte == 0),
        forall|k: int|
            i < k < i + n ==> (#[trigger] lines[k]).image() && lines[k].start_byte == 0
                && lines[k].end_byte == 0,
        i + n < lines.len() ==> !(lines[i + n].image() && lines[i + n].start_byte == 0 && lines[i
            + n].end_byte == 0),
    ensures
        adopt::blocks_of(lines)[i] == n,
        forall|k: int| i < k < i + n ==> (#[trigger] adopt::blocks_of(lines)[k]) == 0,
{
    lemma_run(lines, i + 1, n - 1);
    assert forall|k: int| i < k < i + n implies (#[trigger] adopt::blocks_of(lines)[k]) == 0 by {
        assert(lines[k].image());
        assert(lines[k - 1].image()) by {
            if k - 1 > i {
                assert(lines[k - 1].image());
            }
        }
    }
}

proof fn lemma_run(lines: Seq<LineLayout>, i: int, n: int)
    requires
        0 <= i,
        0 <= n,
        i + n <= lines.len(),
        forall|k: int|
            i <= k < i + n ==> (#[trigger] lines[k]).image() && lines[k].start_byte == 0
                && lines[k].end_byte == 0,
        i + n < lines.len() ==> !(lines[i + n].image() && lines[i + n].start_byte == 0 && lines[i
            + n].end_byte == 0),
    ensures
        adopt::filler_run(lines, i) == n,
    decreases n,
{
    if n > 0 {
        assert(lines[i].image());
        lemma_run(lines, i + 1, n - 1);
    }
}

/// Text has no block.
pub proof fn law_text_has_no_block(lines: Seq<LineLayout>, i: int)
    requires
        0 <= i < lines.len(),
        lines[i].flags / 8 % 2 == 0,
    ensures
        adopt::blocks_of(lines).len() == lines.len(),
        !lines[i].image() ==> adopt::blocks_of(lines)[i] == 0,
{
}

/// At another line height an image gets the lines that its height needs, one at
/// least and 255 at most; one whose height was not kept has as many as before.
pub proof fn law_images_keep_their_height(l: LineLayout, before: int, line_h: u16)
    requires
        line_h > 0,
        before >= 1,
    ensures
        ({
            let n = adopt::block_at_height(l, before, line_h);
            let h = 4 * l.extra;
            &&& h == 0 ==> n == before
            &&& h > 0 ==> 1 <= n <= 255 && (n < 255 ==> n * line_h >= h) && (n > 1 ==> (n - 1)
                * line_h < h)
        }),
{
    let h = 4 * l.extra as int;
    let lh = line_h as int;
    if h > 0 {
        let c = pipeline::ceil_div(h, lh);
        assert(c * lh >= h && (c - 1) * lh < h && c >= 1) by (nonlinear_arith)
            requires
                c == (h + lh - 1) / lh,
                lh > 0,
                h > 0,
        ;
        let n = adopt::block_at_height(l, before, line_h);
        assert(n <= c);
        assert((n - 1) * lh <= (c - 1) * lh) by (nonlinear_arith)
            requires
                n <= c,
                lh > 0,
        ;
    }
}

/// Lines without an image are the same at every line height, and have no
/// blocks.
pub proof fn law_plain_lines_fit_every_height(lines: Seq<LineLayout>, line_h: u16)
    requires
        forall|k: int| 0 <= k < lines.len() ==> !(#[trigger] lines[k]).image(),
    ensures
        adopt::at_height(lines, line_h) == Some(
            (lines, Seq::new(lines.len(), |k: int| 0u8)),
        ),
{
    lemma_plain(lines, line_h, 0);
    assert(lines.take(0) =~= Seq::empty());
    assert(Seq::new(0, |k: int| 0u8) =~= Seq::empty());
}

proof fn lemma_plain(lines: Seq<LineLayout>, line_h: u16, i: int)
    requires
        0 <= i <= lines.len(),
        forall|k: int| 0 <= k < lines.len() ==> !(#[trigger] lines[k]).image(),
    ensures
        adopt::rebuilt(lines, line_h, i, lines.take(i), Seq::new(i as nat, |k: int| 0u8)) == Some(
            (lines, Seq::new(lines.len(), |k: int| 0u8)),
        ),
    decreases lines.len() - i,
{
    if i < lines.len() {
        lemma_plain(lines, line_h, i + 1);
        assert(lines.take(i).push(lines[i]) =~= lines.take(i + 1));
        assert(Seq::new(i as nat, |k: int| 0u8).push(0) =~= Seq::new((i + 1) as nat, |k: int| 0u8));
    } else {
        assert(lines.take(i) =~= lines);
    }
}

/// A lone image becomes its origin and fillers, as many lines in all as its
/// height needs, and its block says so.
pub proof fn law_lone_images_are_filled_up(l: LineLayout, line_h: u16)
    requires
        l.image(),
        l.extra > 0,
        line_h > 0,
    ensures
        ({
            let n = adopt::block_at_height(l, 1, line_h);
            adopt::at_height(seq![l], line_h) matches Some((lines, blocks)) && lines.len() == n
                && blocks.len() == n && lines[0] == l && blocks[0] == n && forall|k: int|
                0 < k < n ==> (#[trigger] lines[k]).image() && lines[k].start_byte == 0
                    && lines[k].end_byte == 0 && blocks[k] == 0
        }),
{
    law_images_keep_their_height(l, 1, line_h);
    let src = seq![l];
    let n = adopt::block_at_height(l, 1, line_h);
    assert(adopt::filler_run(src, 1) == 0);
    let lines = Seq::<LineLayout>::empty() + adopt::image_lines(l, n);
    let blocks = Seq::<u8>::empty() + adopt::image_counts(n);
    assert(adopt::rebuilt(src, line_h, 1, lines, blocks) == Some((lines, blocks)));
    assert(adopt::at_height(src, line_h) == Some((lines, blocks)));
    assert forall|k: int| 0 < k < n implies (#[trigger] lines[k]).image() && lines[k].start_byte
        == 0 && lines[k].end_byte == 0 && blocks[k] == 0 by {
        assert(lines[k] == convert::image_filler());
    }
}

/// Pages are made anew only where memory is granted for the lines.
pub proof fn law_new_pages_need_room(src: Seq<LineLayout>, max: u8, sp: PageSpacing, room: bool)
    ensures
        adopt::repaginated(src, max, sp, false, room) is None,
        adopt::at_height(src, sp.line_h) is None ==> adopt::repaginated(
            src,
            max,
            sp,
            true,
            room,
        ) is None,
        adopt::repaginated(src, max, sp, true, room) matches Some((lines, blocks, pages))
            ==> adopt::at_height(src, sp.line_h) == Some((lines, blocks)),
{
}

} // verus!
