//! What holds of records, captions and stand-in covers, whatever they hold.

use vstd::prelude::*;

use crate::book_record::{self, Key, Position, Reading, ReadingStats};
use crate::cover::{self, Figure, ShapeKind, Tone};
use crate::digits;
use crate::hash;
use crate::recent::{self, Recent};
use crate::text;
use crate::ui::Region;

verus! {

// ── the book that was read last ──────────────────────────────────

/// The bytes of a record: each text up to its limit with a zero behind it, and
/// the progress last.
pub proof fn law_recent_records_end_with_the_progress(r: Recent)
    ensures
        recent::encoded(r).last() == r.progress,
        r.filename.len() <= 32 && r.title.len() <= 64 && r.author.len() <= 64 ==> recent::encoded(
            r,
        ).len() == r.filename.len() + r.title.len() + r.author.len() + 4,
        r.filename.len() >= 32 && r.title.len() >= 64 && r.author.len() >= 64 ==> recent::encoded(
            r,
        ).len() == 164,
        forall|k: int|
            0 <= k < r.filename.len() && k < 32 ==> #[trigger] recent::encoded(r)[k]
                == r.filename[k],
        r.filename.len() <= 32 ==> recent::encoded(r)[r.filename.len() as int] == 0,
        r.filename.len() >= 32 ==> recent::encoded(r)[32] == 0,
{
}

/// Bytes without a zero are a file's name and nothing more.
pub proof fn law_names_alone_are_read(data: Seq<u8>)
    requires
        recent::zero_free(data),
    ensures
        recent::decoded(data) == (Recent {
            filename: data,
            title: Seq::empty(),
            author: Seq::empty(),
            progress: 0,
        }),
{
    lemma_no_zero(data, 0);
    assert(recent::zero_at(data, data.len() as int) == data.len());
    assert(data.subrange(0, data.len() as int) =~= data);
    assert(data.subrange(data.len() as int, data.len() as int) =~= Seq::empty());
}

proof fn lemma_no_zero(data: Seq<u8>, from: int)
    requires
        0 <= from <= data.len(),
        recent::zero_free(data),
    ensures
        recent::zero_at(data, from) == data.len(),
    decreases data.len() - from,
{
    if from < data.len() {
        lemma_no_zero(data, from + 1);
    }
}

// ── the record of a book ─────────────────────────────────────────

/// A position is read only under a closing line that holds the hash of all
/// that stands before it.
pub proof fn law_positions_need_their_sum(data: Seq<u8>)
    requires
        book_record::parsed(data).pos is Some,
    ensures
        exists|start: int| #[trigger] closes(data, start),
{
    lemma_summed(data, 0, book_record::spec_nothing_read());
}

/// The line at `start` closes the record.
pub open spec fn closes(data: Seq<u8>, start: int) -> bool {
    let line = book_record::line_at(data, start);
    &&& 0 <= start < line.eq < line.end <= data.len()
    &&& data.subrange(start, line.eq) == seq![0x73u8, 0x75, 0x6D]
    &&& data[line.eq] == 0x3D
    &&& digits::hex_number(data.subrange(line.eq + 1, line.end)) == hash::fnv(data.take(start))
}

proof fn lemma_line(data: Seq<u8>, start: int)
    requires
        0 <= start < data.len(),
    ensures
        ({
            let line = book_record::line_at(data, start);
            &&& start <= line.eq <= line.end <= data.len()
            &&& line.eq < line.end ==> data[line.eq] == 0x3D
        }),
{
    lemma_line_end(data, start);
    let nl = book_record::line_end(data, start);
    lemma_unpadded(data, start, nl);
    lemma_equals(data, start, book_record::unpadded(data, start, nl));
}

proof fn lemma_line_end(data: Seq<u8>, pos: int)
    requires
        0 <= pos <= data.len(),
    ensures
        pos <= book_record::line_end(data, pos) <= data.len(),
    decreases data.len() - pos,
{
    if pos < data.len() && data[pos] != 0x0A {
        lemma_line_end(data, pos + 1);
    }
}

proof fn lemma_unpadded(data: Seq<u8>, start: int, end: int)
    requires
        start <= end,
    ensures
        start <= book_record::unpadded(data, start, end) <= end,
    decreases end - start,
{
    if end > start && book_record::blank(data[end - 1]) {
        lemma_unpadded(data, start, end - 1);
    }
}

proof fn lemma_equals(data: Seq<u8>, start: int, end: int)
    requires
        start <= end,
    ensures
        ({
            let e = book_record::equals_at(data, start, end);
            &&& start <= e <= end
            &&& e < end ==> data[e] == 0x3D
        }),
    decreases end - start,
{
    if start < end && data[start] != 0x3D {
        lemma_equals(data, start + 1, end);
    }
}

proof fn lemma_summed(data: Seq<u8>, start: int, r: Reading)
    requires
        0 <= start,
        !r.summed,
        book_record::read_on(data, start, r).summed,
    ensures
        exists|at: int| #[trigger] closes(data, at),
    decreases data.len() - start,
{
    let line = book_record::line_at(data, start);
    if start < data.len() && start < line.next <= data.len() {
        lemma_line(data, start);
        if line.is_entry() && line.key(data) == Key::Sum {
            assert(data.subrange(line.start, line.eq) == book_record::key_text(Key::Sum));
            assert(data.subrange(start, line.eq).len() == 3);
            assert(closes(data, start));
        } else if line.is_entry() {
            let v = digits::number(line.value(data));
            lemma_summed(data, line.next, book_record::with_field(r, line.key(data), v));
        } else {
            lemma_summed(data, line.next, r);
        }
    }
}

/// A line changes what it is about and nothing else. Too large a number keeps
/// its low bits, a percentage is at most 100, and a line of an unknown key is
/// passed over.
pub proof fn law_lines_change_their_own_field(r: Reading, v: u32)
    ensures
        book_record::with_field(r, Key::Other, v as int) == r,
        book_record::with_field(r, Key::Pages, v as int) == r,
        book_record::with_field(r, Key::Serial, v as int) == (Reading { seq: v, ..r }),
        book_record::with_field(r, Key::Percent, v as int).pos.progress_pct <= 100,
        v <= 100 ==> book_record::with_field(r, Key::Percent, v as int).pos == (Position {
            progress_pct: v as u8,
            ..r.pos
        }),
        v > 100 ==> book_record::with_field(r, Key::Percent, v as int).pos.progress_pct == 100,
        book_record::with_field(r, Key::Size, v as int) == (Reading {
            pos: Position { archive_size: v, ..r.pos },
            have_pos: true,
            ..r
        }),
        book_record::with_field(r, Key::Offset, v as int) == (Reading {
            pos: Position { byte_offset: v, ..r.pos },
            ..r
        }),
        v < 65536 ==> book_record::with_field(r, Key::Chapter, v as int) == (Reading {
            pos: Position { chapter: v as u16, ..r.pos },
            ..r
        }),
        v < 65536 ==> book_record::with_field(r, Key::Page, v as int) == (Reading {
            pos: Position { page: v as u16, ..r.pos },
            ..r
        }),
{
}

/// A line of the statistics changes one of them, whether or not the record is
/// closed, and the others are passed over.
pub proof fn law_statistics_are_read_line_by_line(s: ReadingStats, v: u32)
    ensures
        book_record::with_stat(s, Key::Pages, v as int) == (ReadingStats { pages: v, ..s }),
        book_record::with_stat(s, Key::Time, v as int) == (ReadingStats { time_secs: v, ..s }),
        book_record::with_stat(s, Key::Sessions, v as int) == (ReadingStats { sessions: v, ..s }),
        book_record::with_stat(s, Key::Serial, v as int) == s,
        book_record::with_stat(s, Key::Sum, v as int) == s,
        book_record::with_stat(s, Key::Other, v as int) == s,
{
}

/// A place counts as an anchor only where both its paragraph and its word could
/// be counted.
pub proof fn law_half_an_anchor_is_none(p: Position)
    ensures
        p.para == 4294967295 || p.word == 4294967295 ==> p.spec_anchor() is None,
        p.para < 4294967295 && p.word < 4294967295 ==> p.spec_anchor() is Some
            && p.spec_anchor()->0.para == p.para && p.spec_anchor()->0.word == p.word,
{
}

// ── text in a line ───────────────────────────────────────────────

/// The first line of a title holds no more than fits and does not end within a
/// character. It ends at a space wherever one is in reach, and then at the last
/// one; else the whole line is filled.
pub proof fn law_titles_break_at_the_last_space(t: Seq<u8>, cut: int)
    requires
        0 <= cut < t.len(),
    ensures
        ({
            let end = text::title_split(t, cut).0;
            &&& 0 <= end <= cut
            &&& forall|k: int|
                end < k < t.len() && 0 < k && k + 1 <= cut && #[trigger] t[k] == 0x20 ==> exists|
                    j: int,
                |
                    k < j <= cut && 0x80 <= #[trigger] t[j] < 0xC0
            &&& end > 0 ==> !(0x80 <= t[end] < 0xC0)
        }),
        cut > 0 && !(0x80 <= t[cut] < 0xC0) && (forall|k: int|
            0 < k < cut ==> #[trigger] t[k] != 0x20) ==> text::title_split(t, cut) == (cut, cut),
{
    lemma_boundary(t, cut);
    let n = text::boundary_before(t, cut);
    lemma_space(t, n);
    let end = text::title_split(t, cut).0;
    assert forall|k: int|
        end < k < t.len() && 0 < k && k + 1 <= cut && #[trigger] t[k] == 0x20 implies exists|j: int|
        k < j <= cut && 0x80 <= #[trigger] t[j] < 0xC0 by {
        assert(k >= n);
        assert(n < cut);
        if k == n {
            assert(n + 1 <= cut);
            assert(0x80 <= t[n + 1] < 0xC0);
            assert(k < n + 1 && n + 1 <= cut);
        } else {
            assert(0x80 <= t[k] < 0xC0);
        }
    }
    if cut > 0 && !(0x80 <= t[cut] < 0xC0) && (forall|k: int|
        0 < k < cut ==> #[trigger] t[k] != 0x20) {
        assert(n == cut);
        assert(text::space_before(t, n) is None);
    }
}

proof fn lemma_boundary(t: Seq<u8>, n: int)
    requires
        0 <= n < t.len(),
    ensures
        ({
            let m = text::boundary_before(t, n);
            &&& 0 <= m <= n
            &&& m > 0 ==> !(0x80 <= t[m] < 0xC0)
            &&& forall|k: int| m < k <= n ==> 0x80 <= #[trigger] t[k] < 0xC0
        }),
    decreases n,
{
    if n > 0 && 0x80 <= t[n] < 0xC0 {
        lemma_boundary(t, n - 1);
    }
}

proof fn lemma_space(t: Seq<u8>, n: int)
    requires
        0 <= n < t.len(),
    ensures
        match text::space_before(t, n) {
            Some(sp) => 0 < sp < n && t[sp] == 0x20 && forall|k: int|
                sp < k < n ==> #[trigger] t[k] != 0x20,
            None => forall|k: int| 0 < k < n ==> #[trigger] t[k] != 0x20,
        },
    decreases n,
{
    if n > 1 && t[n - 1] != 0x20 {
        lemma_space(t, n - 1);
    }
}

/// Text that fits is left as it is. Other text is cut behind its last whole
/// character that fits, and three bytes of an ellipsis follow.
pub proof fn law_cut_text_ends_in_an_ellipsis(t: Seq<u8>, cut: int, cap: int)
    requires
        0 <= cut,
        0 <= cap,
    ensures
        cut >= t.len() ==> text::ellipsized(t, cut, cap) == t,
        cut < t.len() ==> {
            let e = text::ellipsized(t, cut, cap);
            let n = e.len() - 3;
            &&& 0 <= n <= cut && n <= cap
            &&& e.take(n) == t.take(n)
            &&& e[n] == 0xE2 && e[n + 1] == 0x80 && e[n + 2] == 0xA6
            &&& n > 0 ==> !(0x80 <= t[n] < 0xC0)
            &&& forall|k: int| n < k <= cut && k <= cap ==> 0x80 <= #[trigger] t[k] < 0xC0
        },
{
    if cut < t.len() {
        let m = if cut < cap {
            cut
        } else {
            cap
        };
        lemma_boundary(t, m);
        let n = text::boundary_before(t, m);
        let e = text::ellipsized(t, cut, cap);
        assert(e.len() == n + 3);
        assert(e.take(n) =~= t.take(n));
    }
}

// ── stand-ins ────────────────────────────────────────────────────

/// Books six apart have the same shape, books 256 apart the same tone; the tone
/// changes every 128 books. The shapes come in their order, the disc first.
pub proof fn law_stand_ins_go_round(id: u32)
    ensures
        id <= u32::MAX - 6 ==> cover::shape_of((id + 6) as u32) == cover::shape_of(id),
        id <= u32::MAX - 1 ==> cover::shape_of((id + 1) as u32) != cover::shape_of(id),
        id <= u32::MAX - 256 ==> cover::tone_of((id + 256) as u32) == cover::tone_of(id),
        id <= u32::MAX - 128 ==> cover::tone_of((id + 128) as u32) != cover::tone_of(id),
        id < 128 ==> cover::tone_of(id) == Tone::Dark,
        id % 6 == 0 ==> cover::shape_of(id) == ShapeKind::Disc,
        id % 6 == 1 ==> cover::shape_of(id) == ShapeKind::Bar,
        id % 6 == 2 ==> cover::shape_of(id) == ShapeKind::Line,
        id % 6 == 3 ==> cover::shape_of(id) == ShapeKind::Ring,
        id % 6 == 4 ==> cover::shape_of(id) == ShapeKind::Diamond,
        id % 6 == 5 ==> cover::shape_of(id) == ShapeKind::Dash,
{
}

/// Twice the distance of the shape's middle from the cover's, and how wide and
/// high the shape is.
pub open spec fn middle_and_size(f: Figure) -> (int, int, int, int) {
    match f {
        Figure::Circle { x, y, d, filled: _ } => (2 * x + d, 2 * y + d, d as int, d as int),
        Figure::Box { x, y, w, h } => (2 * x + w, 2 * y + h, w as int, h as int),
        Figure::Diamond { cx, cy, r } => (2 * cx, 2 * cy, 2 * r, 2 * r),
    }
}

/// Every shape is in the middle of its cover, to a pixel on each side.
pub proof fn law_shapes_are_centred(kind: ShapeKind, region: Region)
    ensures
        ({
            let (mx, my, w, h) = middle_and_size(cover::figure_of(kind, region));
            &&& -2 <= mx - (2 * region.x + region.w) <= 2
            &&& -2 <= my - (2 * region.y + region.h) <= 2
        }),
{
}

/// On a cover that is not tiny, a disc and a ring are half as wide as its
/// shorter side, the ring being hollow, a diamond two fifths; an upright bar is
/// three fifths as high, a dash as wide, and a line half as wide.
pub proof fn law_shapes_go_by_the_cover(region: Region)
    requires
        region.w >= 64,
        region.h >= 64,
    ensures
        ({
            let short = if region.w < region.h {
                region.w as int
            } else {
                region.h as int
            };
            let (_, _, disc, _) = middle_and_size(cover::figure_of(ShapeKind::Disc, region));
            let (_, _, ring, _) = middle_and_size(cover::figure_of(ShapeKind::Ring, region));
            let (_, _, diamond, _) = middle_and_size(cover::figure_of(ShapeKind::Diamond, region));
            let (_, _, bar_w, bar_h) = middle_and_size(cover::figure_of(ShapeKind::Bar, region));
            let (_, _, line_w, line_h) = middle_and_size(cover::figure_of(ShapeKind::Line, region));
            let (_, _, dash_w, dash_h) = middle_and_size(cover::figure_of(ShapeKind::Dash, region));
            &&& disc == ring && 2 * disc <= short < 2 * disc + 4
            &&& 5 * diamond <= 2 * short < 5 * diamond + 10
            &&& 10 * bar_h <= 6 * region.h < 10 * bar_h + 10 && 7 * bar_w <= region.w < 7 * bar_w
                + 7
            &&& 2 * line_w <= region.w < 2 * line_w + 2 && 14 * line_h <= region.h < 14 * line_h
                + 14
            &&& 10 * dash_w <= 6 * region.w < 10 * dash_w + 10 && (region.h >= 40 ==> 10 * dash_h
                <= region.h < 10 * dash_h + 10)
            &&& cover::figure_of(ShapeKind::Disc, region)->filled
            &&& !cover::figure_of(ShapeKind::Ring, region)->filled
        }),
{
}

/// Blanks between the lines of a title are those of Unicode: tab to carriage
/// return, the space, the next line, the fixed space and the wide ones.
pub proof fn law_blanks_between_title_lines(cp: int)
    ensures
        cp < 9 || 13 < cp < 32 || 32 < cp < 0x85 || 0x85 < cp < 0xA0 || 0xA0 < cp < 0x1680
            || 0x1680 < cp < 0x2000 || 0x200A < cp < 0x2028 || 0x2029 < cp < 0x202F || 0x202F < cp
            < 0x205F || 0x205F < cp < 0x3000 || 0x3000 < cp ==> !text::white(cp),
        9 <= cp < 14 ==> text::white(cp),
        text::white(32) && text::white(0x85) && text::white(0xA0) && text::white(0x1680),
        0x2000 <= cp < 0x200B ==> text::white(cp),
        text::white(0x2028) && text::white(0x2029) && text::white(0x202F) && text::white(0x205F)
            && text::white(0x3000),
{
}

} // verus!
