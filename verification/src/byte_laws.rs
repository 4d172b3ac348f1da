//! What holds of characters, markup records and stored covers, whatever bytes
//! they are made of.

use vstd::prelude::*;

use crate::bytes;
use crate::cover_cache::{self, Cover, CoverKind, CoverStore, CoverVariant, SectionUse};
use crate::markup::{self, Align, BlockProps, Style};
use crate::utf8;

verus! {

// ── characters ───────────────────────────────────────────────────

/// A byte below 128 is its own character.
pub proof fn law_ascii_is_one_byte(buf: Seq<u8>, pos: int)
    requires
        0 <= pos < buf.len(),
        buf[pos] < 128,
    ensures
        utf8::utf8_at(buf, pos) == (buf[pos] as int, 1int),
{
}

/// Two, three and four bytes give 11, 16 and 21 bits: what is left of the lead
/// byte, then six of each byte behind it. Surrogates and numbers behind the last
/// character are damage.
pub proof fn law_long_characters_add_their_bits(buf: Seq<u8>, pos: int)
    requires
        0 <= pos,
        pos + 4 <= buf.len(),
    ensures
        ({
            let a = buf[pos] as int;
            let b = buf[pos + 1] - 128;
            let c = buf[pos + 2] - 128;
            let d = buf[pos + 3] - 128;
            let two = (a - 192) * 64 + b;
            let three = (a - 224) * 4096 + b * 64 + c;
            let four = (a - 240) * 262144 + b * 4096 + c * 64 + d;
            let (cp, n) = utf8::utf8_at(buf, pos);
            &&& 192 <= a < 224 && 0 <= b < 64 ==> (cp, n) == (two, 2int)
            &&& 224 <= a < 240 && 0 <= b < 64 && 0 <= c < 64 && !(0xD800 <= three < 0xE000) ==> (
                cp,
                n,
            ) == (three, 3int)
            &&& 224 <= a < 240 && 0 <= b < 64 && 0 <= c < 64 && 0xD800 <= three < 0xE000 ==> (
                cp,
                n,
            ) == (0xFFFDint, 3int)
            &&& 240 <= a < 248 && 0 <= b < 64 && 0 <= c < 64 && 0 <= d < 64 && !(0xD800 <= four
                < 0xE000) && four <= 0x10FFFF ==> (cp, n) == (four, 4int)
            &&& 240 <= a < 248 && 0 <= b < 64 && 0 <= c < 64 && 0 <= d < 64 && four > 0x10FFFF
                ==> (cp, n) == (0xFFFDint, 4int)
        }),
{
    reveal_with_fuel(utf8::code_point, 5);
    reveal_with_fuel(utf8::good_prefix, 5);
}

/// A byte that starts nothing is damage of one byte. A character that breaks
/// off is damage up to where it does, and one that the end cuts off, up to the
/// end.
pub proof fn law_damage_ends_where_it_shows(buf: Seq<u8>, pos: int)
    requires
        0 <= pos < buf.len(),
    ensures
        128 <= buf[pos] < 192 || buf[pos] >= 248 ==> utf8::utf8_at(buf, pos) == (0xFFFDint, 1int),
        192 <= buf[pos] < 248 && pos + 1 == buf.len() ==> utf8::utf8_at(buf, pos) == (
            0xFFFDint,
            1int,
        ),
        192 <= buf[pos] < 224 && pos + 2 <= buf.len() && !(128 <= buf[pos + 1] < 192)
            ==> utf8::utf8_at(buf, pos) == (0xFFFDint, 1int),
        224 <= buf[pos] < 248 && pos + 2 == buf.len() ==> utf8::utf8_at(buf, pos) == (
            0xFFFDint,
            2int,
        ),
        240 <= buf[pos] < 248 && pos + 3 == buf.len() ==> utf8::utf8_at(buf, pos) == (
            0xFFFDint,
            3int,
        ),
        224 <= buf[pos] < 240 && pos + 3 <= buf.len() && 128 <= buf[pos + 1] < 192 && !(128
            <= buf[pos + 2] < 192) ==> utf8::utf8_at(buf, pos) == (0xFFFDint, 2int),
        240 <= buf[pos] < 248 && pos + 4 <= buf.len() && 128 <= buf[pos + 1] < 192 && 128
            <= buf[pos + 2] < 192 && !(128 <= buf[pos + 3] < 192) ==> utf8::utf8_at(buf, pos) == (
            0xFFFDint,
            3int,
        ),
{
    reveal_with_fuel(utf8::good_prefix, 5);
}

// ── markup ───────────────────────────────────────────────────────

/// A style has one bit for each attribute, from the lowest on: bold, italic,
/// underlined, struck through. The level stands in the high four.
pub proof fn law_style_bits(s: Style)
    requires
        s.heading <= 15,
    ensures
        ({
            let b = markup::packed_style(s);
            &&& 0 <= b < 256
            &&& b % 2 == 1 <==> s.bold
            &&& b / 2 % 2 == 1 <==> s.italic
            &&& b / 4 % 2 == 1 <==> s.underline
            &&& b / 8 % 2 == 1 <==> s.strike
            &&& b / 16 == s.heading
        }),
{
    markup::law_style_round_trip(s);
    let b = markup::packed_style(s) as u8;
    assert(markup::unpacked_style(b) == s);
}

/// A block record is five bytes: the marker 1, `K`, and three from 128 on that
/// hold alignment and levels, indent, and space above.
pub proof fn law_block_records_are_five_bytes(p: BlockProps)
    requires
        p.left <= 31,
        p.text_indent_qem <= 127,
        p.space_above_qem <= 127,
    ensures
        ({
            let r = markup::block_bytes(p);
            &&& r.len() == 5
            &&& r[0] == 1
            &&& r[1] == 0x4B
            &&& r[2] / 4 - 32 == p.left
            &&& r[2] % 4 == (match p.align {
                Align::Default => 0int,
                Align::Left => 1,
                Align::Center => 2,
                Align::Right => 3,
            })
            &&& r[3] == 128 + p.text_indent_qem
            &&& r[4] == 128 + p.space_above_qem
        }),
{
}

/// A record that is cut off, or has a byte below 128 in it, is none.
pub proof fn law_damaged_block_records_are_none(buf: Seq<u8>, i: int)
    requires
        0 <= i < buf.len(),
    ensures
        i + 5 > buf.len() ==> markup::block_at(buf, i) is None,
        i + 5 <= buf.len() && (buf[i] != 1 || buf[i + 1] != 0x4B || buf[i + 2] < 128 || buf[i + 3] < 128 || buf[i
            + 4] < 128) ==> markup::block_at(buf, i) is None,
        markup::block_at(buf, i) matches Some(p) ==> p.left <= 31 && p.text_indent_qem <= 127
            && p.space_above_qem <= 127,
{
}

// ── covers ───────────────────────────────────────────────────────

/// The head of the covers takes twelve bytes and starts with their number; an
/// entry takes sixteen and starts with its kind.
pub proof fn law_cover_entries(v: CoverVariant, n: int)
    requires
        0 <= n <= 255,
    ensures
        cover_cache::head_bytes(n).len() == 12,
        cover_cache::head_bytes(n)[0] == n,
        cover_cache::entry_bytes(v).len() == 16,
        v.kind == CoverKind::Card ==> cover_cache::entry_bytes(v)[0] == 0,
        v.kind == CoverKind::Mini ==> cover_cache::entry_bytes(v)[0] == 1,
        cover_cache::entry_bytes(v).subrange(2, 4) == bytes::le16(v.width),
        cover_cache::entry_bytes(v).subrange(4, 6) == bytes::le16(v.height),
        cover_cache::entry_bytes(v).subrange(6, 8) == bytes::le16(v.stride),
        cover_cache::entry_bytes(v).subrange(8, 12) == bytes::le32(v.data_offset),
        cover_cache::entry_bytes(v).subrange(12, 16) == bytes::le32(v.data_size),
{
    reveal(cover_cache::head_bytes);
    reveal(cover_cache::entry_bytes);
    let e = cover_cache::entry_bytes(v);
    assert(e.subrange(2, 4) =~= bytes::le16(v.width));
    assert(e.subrange(4, 6) =~= bytes::le16(v.height));
    assert(e.subrange(6, 8) =~= bytes::le16(v.stride));
    assert(e.subrange(8, 12) =~= bytes::le32(v.data_offset));
    assert(e.subrange(12, 16) =~= bytes::le32(v.data_size));
}

/// The cover that is shown is of the kind that is preferred, the first such, and
/// where there is none the first of all.
pub proof fn law_the_preferred_cover_is_shown(vs: Seq<CoverVariant>, prefer: CoverKind, k: int)
    requires
        0 <= k <= vs.len(),
        forall|i: int| 0 <= i < k ==> (#[trigger] vs[i]).kind != prefer,
    ensures
        k < vs.len() && vs[k].kind == prefer ==> cover_cache::picked(vs, prefer) == Some(vs[k]),
        0 < k == vs.len() ==> cover_cache::picked(vs, prefer) == Some(vs[0]),
        vs.len() == 0 ==> cover_cache::picked(vs, prefer) is None,
{
    lemma_first_of(vs, prefer, 0, k);
}

proof fn lemma_first_of(vs: Seq<CoverVariant>, kind: CoverKind, j: int, k: int)
    requires
        0 <= j <= k <= vs.len(),
        forall|i: int| j <= i < k ==> (#[trigger] vs[i]).kind != kind,
    ensures
        k < vs.len() && vs[k].kind == kind ==> cover_cache::first_of(vs, kind, j) == Some(vs[k]),
        k == vs.len() ==> cover_cache::first_of(vs, kind, j) is None,
    decreases k - j,
{
    if j < k {
        lemma_first_of(vs, kind, j + 1, k);
    }
}

/// No cover is shown while the covers are not complete, where there is no
/// section or one too short for an entry, or where there is no memory. One that
/// is shown has a size, and its bits lie in the section.
pub proof fn law_covers_are_shown_whole(s: CoverStore, prefer: CoverKind)
    ensures
        !s.ready ==> cover_cache::stored(s, prefer) is None,
        s.section is None ==> cover_cache::stored(s, prefer) is None,
        s.section matches Some(b) ==> b@.len() < 28 ==> cover_cache::stored(s, prefer) is None,
        cover_cache::cover_with(s, prefer, false) is None,
        cover_cache::stored(s, prefer) matches Some(c) ==> c.width > 0 && c.height > 0
            && c.bits.len() <= (s.section->0)@.len(),
{
    if cover_cache::stored(s, prefer) is Some {
        assert(cover_cache::picked(cover_cache::table_of(s), prefer) is Some);
    }
    let none = Seq::<CoverVariant>::empty();
    assert(cover_cache::first_of(none, prefer, 0) is None);
    assert(cover_cache::picked(none, prefer) is None);
}

/// At most the first four entries are looked at, and those of an unknown kind
/// are passed over.
pub proof fn law_four_entries_are_looked_at(b: Seq<u8>, i: int)
    requires
        0 <= i,
    ensures
        cover_cache::listed(b, i).len() <= i,
        cover_cache::listed(b, i).len() <= 4,
        i >= 4 ==> cover_cache::listed(b, i) == cover_cache::listed(b, 4),
        i >= 1 && b.len() >= 28 && b[12] > 1 ==> cover_cache::listed(b, 1).len() == 0,
        i >= 1 && b.len() >= 28 && b[12] <= 1 ==> cover_cache::listed(b, 1).len() == 1,
    decreases i,
{
    reveal(cover_cache::entry_at);
    assert(cover_cache::listed(b, 0).len() == 0);
    assert(cover_cache::listed(b, 1).len() <= 1);
    if i > 0 {
        law_four_entries_are_looked_at(b, i - 1);
        if i > 4 {
            assert(12 + i * 16 > 76);
            assert(!cover_cache::looked_at(b, i - 1));
        }
    }
}

/// Covers go over the start of a section that is large enough, whose rest stays;
/// else they get a new one of their size.
pub proof fn law_sections_are_used_again(before: Option<Vec<u8>>, new: Seq<u8>)
    ensures
        before is None ==> cover_cache::use_of(before, new.len() as int) == SectionUse::Allocate
            && cover_cache::written(before, new) == new,
        before matches Some(b) ==> b@.len() >= new.len() ==> cover_cache::use_of(
            before,
            new.len() as int,
        ) == SectionUse::Reuse && cover_cache::written(before, new).len() == b@.len()
            && cover_cache::written(before, new).take(new.len() as int) == new
            && cover_cache::written(before, new).skip(new.len() as int) == b@.skip(
            new.len() as int,
        ),
        before matches Some(b) ==> b@.len() < new.len() ==> cover_cache::use_of(
            before,
            new.len() as int,
        ) == SectionUse::Replace && cover_cache::written(before, new) == new,
{
    if let Some(b) = before {
        if b@.len() >= new.len() {
            let w = cover_cache::written(before, new);
            assert(w.take(new.len() as int) =~= new);
            assert(w.skip(new.len() as int) =~= b@.skip(new.len() as int));
        }
    }
}

/// Stored covers take a head, an entry each, and their bits.
pub proof fn law_covers_take_their_bits(cs: Seq<Cover>)
    requires
        cs.len() == 2,
    ensures
        cover_cache::bits_at(cs, 0) == 12 + 16 * 2,
        cover_cache::bits_at(cs, 1) == 44 + cs[0].bits.len(),
        cover_cache::total_size(cs) == 44 + cs[0].bits.len() + cs[1].bits.len(),
{
    reveal_with_fuel(cover_cache::bits_at, 3);
}

} // verus!
