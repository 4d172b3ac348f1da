//! What the marks of the chapter stream are for: styles hold until they are turned
//! off, words are whole, and every break and image is told.

use crate::layout::events;
use crate::layout::events::{Event, EventState};
use crate::layout::scan;
use crate::layout::scan::{BlockAlign, BlockState, ScanState, TextStyle, Token};
use vstd::prelude::*;

verus! {

/// A byte of plain text that a word is made of.
pub open spec fn is_letter(b: u8) -> bool {
    0x20 < b < 0x80
}

/// The mark `tag` stands at the position, and a letter behind it.
pub open spec fn mark_then_text(buf: Seq<u8>, s: ScanState, tag: u8) -> bool {
    &&& 0 <= s.pos
    &&& s.pos + 2 < buf.len() <= u32::MAX
    &&& buf[s.pos] == 0x01
    &&& buf[s.pos + 1] == tag
    &&& is_letter(buf[s.pos + 2])
}

/// The style of the word behind a mark.
pub open spec fn style_behind(buf: Seq<u8>, s: ScanState) -> Option<TextStyle> {
    match scan::next_token(buf, s).0 {
        Some(Token::Word { start, style, .. }) => if start == s.pos + 2 {
            Some(style)
        } else {
            None
        },
        _ => None,
    }
}

/// A style mark changes the style of the text behind it, and nothing else of it:
/// each attribute has a mark that turns it on and one that turns it off.
pub proof fn law_style_marks_change_the_text_behind_them(buf: Seq<u8>, s: ScanState, tag: u8)
    requires
        mark_then_text(buf, s, tag),
    ensures
        tag == 0x42 ==> style_behind(buf, s) == Some(TextStyle { bold: true, ..s.style }),
        tag == 0x62 ==> style_behind(buf, s) == Some(TextStyle { bold: false, ..s.style }),
        tag == 0x49 ==> style_behind(buf, s) == Some(
            TextStyle { italic: true, ..s.style },
        ),
        tag == 0x69 ==> style_behind(buf, s) == Some(
            TextStyle { italic: false, ..s.style },
        ),
        tag == 0x55 ==> style_behind(buf, s) == Some(
            TextStyle { underline: true, ..s.style },
        ),
        tag == 0x75 ==> style_behind(buf, s) == Some(
            TextStyle { underline: false, ..s.style },
        ),
        tag == 0x53 ==> style_behind(buf, s) == Some(
            TextStyle { strike: true, ..s.style },
        ),
        tag == 0x73 ==> style_behind(buf, s) == Some(
            TextStyle { strike: false, ..s.style },
        ),
{
    reveal_with_fuel(scan::next_token, 3);
}

/// A heading mark gives the text behind it the level that it names, one without a
/// level the second, and the mark that closes a heading none.
pub proof fn law_heading_marks_set_the_level(buf: Seq<u8>, s: ScanState, tag: u8, level: u8)
    requires
        mark_then_text(buf, s, tag),
        1 <= level <= 6,
    ensures
        tag == 0x30 + level ==> style_behind(buf, s) == Some(
            TextStyle { heading: true, hlevel: level, ..s.style },
        ),
        tag == 0x20 + level ==> style_behind(buf, s) == Some(
            TextStyle { heading: false, hlevel: 0, ..s.style },
        ),
        tag == 0x48 ==> style_behind(buf, s) == Some(
            TextStyle { heading: true, hlevel: 2, ..s.style },
        ),
        tag == 0x68 ==> style_behind(buf, s) == Some(
            TextStyle { heading: false, hlevel: 0, ..s.style },
        ),
{
    reveal_with_fuel(scan::next_token, 3);
}

/// What a block mark changes: a quote is one level in and out, an alignment is set
/// and reset, a caption begins and ends. A mark that changes something is told.
pub proof fn law_block_marks_change_the_block(buf: Seq<u8>, s: ScanState, tag: u8)
    requires
        mark_then_text(buf, s, tag),
    ensures
        ({
            let (tok, after) = scan::next_token(buf, s);
            let b = s.block;
            let becomes = |want: BlockState|
                {
                    &&& want != b ==> tok == Some(
                        Token::BlockChanged { at: (s.pos + 2) as u32, block: want },
                    ) && after.block == want
                    &&& want == b ==> tok is Some && tok->0 is Word && after.block == b
                };
            &&& tag == 0x51 && b.indent < 255 ==> becomes(
                BlockState { indent: (b.indent + 1) as u8, ..b },
            )
            &&& tag == 0x71 && b.indent > 0 ==> becomes(
                BlockState { indent: (b.indent - 1) as u8, ..b },
            )
            &&& tag == 0x4C ==> becomes(BlockState { align: BlockAlign::Left, ..b })
            &&& tag == 0x43 ==> becomes(BlockState { align: BlockAlign::Center, ..b })
            &&& tag == 0x52 ==> becomes(BlockState { align: BlockAlign::Right, ..b })
            &&& tag == 0x4A ==> becomes(
                BlockState { align: BlockAlign::Justify, ..b },
            )
            &&& tag == 0x41 ==> becomes(BlockState { align: BlockAlign::Default, ..b })
            &&& tag == 0x46 ==> becomes(BlockState { figcaption: true, ..b })
            &&& tag == 0x66 ==> becomes(BlockState { figcaption: false, ..b })
        }),
{
    reveal_with_fuel(scan::next_token, 3);
}

/// A page break and a thematic break are told where they stand, and change nothing.
pub proof fn law_break_marks_are_told(buf: Seq<u8>, s: ScanState)
    requires
        0 <= s.pos,
        s.pos + 1 < buf.len() <= u32::MAX,
        buf[s.pos] == 0x01,
    ensures
        buf[s.pos + 1] == 0x50 ==> scan::next_token(buf, s) == (
            Some(Token::PageBreak { start: s.pos as u32, end: (s.pos + 2) as u32 }),
            ScanState { pos: s.pos + 2, ..s },
        ),
        buf[s.pos + 1] == 0x2D ==> scan::next_token(buf, s) == (
            Some(Token::ThematicBreak { start: s.pos as u32, end: (s.pos + 2) as u32 }),
            ScanState { pos: s.pos + 2, ..s },
        ),
{
}

/// The bytes of the buffer are all plain: no byte starts a longer character.
pub open spec fn all_plain(buf: Seq<u8>) -> bool {
    forall|i: int| 0 <= i < buf.len() ==> #[trigger] buf[i] < 0x80
}

proof fn lemma_word_end(buf: Seq<u8>, p: int)
    requires
        all_plain(buf),
        0 <= p <= buf.len(),
    ensures
        ({
            let e = scan::word_end(buf, p);
            &&& p <= e <= buf.len()
            &&& forall|i: int| p <= i < e ==> is_letter(#[trigger] buf[i])
            &&& e < buf.len() ==> !is_letter(buf[e])
        }),
    decreases buf.len() - p,
{
    if p < buf.len() && !scan::ends_word(buf[p]) {
        assert(buf[p] < 0x80);
        lemma_word_end(buf, p + 1);
    }
}

/// A word is whole: it goes from its first letter to the last one that follows
/// without a space, a break or a mark in between, in the style in force.
pub proof fn law_words_are_whole(buf: Seq<u8>, s: ScanState)
    requires
        all_plain(buf),
        0 <= s.pos < buf.len() <= u32::MAX,
        is_letter(buf[s.pos]),
    ensures
        scan::next_token(buf, s).0 matches Some(Token::Word { start, end, style }) && {
            &&& start == s.pos
            &&& start < end <= buf.len()
            &&& forall|i: int| start <= i < end ==> is_letter(#[trigger] buf[i])
            &&& end < buf.len() ==> !is_letter(buf[end as int])
            &&& style == s.style
            &&& scan::next_token(buf, s).1 == (ScanState { pos: end as int, ..s })
        },
{
    lemma_word_end(buf, s.pos + 1);
}

proof fn lemma_newlines(buf: Seq<u8>, p: int)
    requires
        0 <= p <= buf.len(),
    ensures
        ({
            let e = scan::newlines_end(buf, p);
            &&& p <= e <= buf.len()
            &&& forall|i: int| p <= i < e ==> #[trigger] buf[i] == 0x0A
            &&& e < buf.len() ==> buf[e] != 0x0A
        }),
    decreases buf.len() - p,
{
    if p < buf.len() && buf[p] == 0x0A {
        lemma_newlines(buf, p + 1);
    }
}

/// One newline is a hard break, and two or more are one paragraph break.
pub proof fn law_newlines_are_breaks(buf: Seq<u8>, s: ScanState)
    requires
        0 <= s.pos < buf.len() <= u32::MAX,
        buf[s.pos] == 0x0A,
    ensures
        s.pos + 1 == buf.len() || buf[s.pos + 1] != 0x0A ==> scan::next_token(buf, s) == (
            Some(Token::HardBreak { start: s.pos as u32, end: (s.pos + 1) as u32 }),
            ScanState { pos: s.pos + 1, ..s },
        ),
        s.pos + 1 < buf.len() && buf[s.pos + 1] == 0x0A ==> (scan::next_token(buf, s).0 matches Some(
            Token::ParagraphBreak { start, end },
        ) && start == s.pos && end >= s.pos + 2 && (forall|i: int|
            start <= i < end ==> #[trigger] buf[i] == 0x0A) && (end < buf.len() ==> buf[end as int]
            != 0x0A) && scan::next_token(buf, s).1 == (ScanState { pos: end as int, ..s })),
{
    lemma_newlines(buf, s.pos);
    let e = scan::newlines_end(buf, s.pos);
    if s.pos + 1 < buf.len() && buf[s.pos + 1] == 0x0A && e == s.pos + 1 {
        assert(buf[e] != 0x0A);
    }
    if e > s.pos + 1 {
        assert(buf[s.pos + 1] == 0x0A);
    }
}

/// A space is one space; the bytes of a space that does not break and of a soft
/// hyphen are told as those, in the style in force.
pub proof fn law_spaces_are_told(buf: Seq<u8>, s: ScanState)
    requires
        0 <= s.pos < buf.len() <= u32::MAX,
    ensures
        buf[s.pos] == 0x20 ==> scan::next_token(buf, s) == (
            Some(
                Token::Space { start: s.pos as u32, end: (s.pos + 1) as u32, style: s.style },
            ),
            ScanState { pos: s.pos + 1, ..s },
        ),
        s.pos + 1 < buf.len() && buf[s.pos] == 0xC2 && buf[s.pos + 1] == 0xA0 ==> scan::next_token(
            buf,
            s,
        ) == (
            Some(Token::Nbsp { start: s.pos as u32, end: (s.pos + 2) as u32, style: s.style }),
            ScanState { pos: s.pos + 2, ..s },
        ),
        s.pos + 1 < buf.len() && buf[s.pos] == 0xC2 && buf[s.pos + 1] == 0xAD ==> scan::next_token(
            buf,
            s,
        ) == (
            Some(
                Token::SoftHyphen { start: s.pos as u32, end: (s.pos + 2) as u32, style: s.style },
            ),
            ScanState { pos: s.pos + 2, ..s },
        ),
{
    if s.pos + 1 < buf.len() && buf[s.pos] == 0xC2 && (buf[s.pos + 1] == 0xA0 || buf[s.pos + 1]
        == 0xAD) {
        reveal_with_fuel(crate::utf8::good_prefix, 3);
        reveal_with_fuel(crate::utf8::code_point, 3);
    }
}

/// An image is told with what its record says: its size, and where its text and
/// its path stand. The stream goes on behind its path.
pub proof fn law_images_are_told(buf: Seq<u8>, s: ScanState)
    requires
        0 <= s.pos,
        s.pos + 9 <= buf.len() <= u32::MAX,
        buf[s.pos] == 0x01,
        buf[s.pos + 1] == 0x47,
        buf[s.pos + 8] > 0,
        s.pos + 9 + buf[s.pos + 7] + buf[s.pos + 8] <= buf.len(),
    ensures
        scan::next_token(buf, s).0 matches Some(Token::Image(img)) && {
            &&& img.start == s.pos
            &&& img.attr_w == buf[s.pos + 3] + 256 * buf[s.pos + 4]
            &&& img.attr_h == buf[s.pos + 5] + 256 * buf[s.pos + 6]
            &&& img.alt_start == s.pos + 9
            &&& img.alt_len == buf[s.pos + 7]
            &&& img.path_start == s.pos + 9 + buf[s.pos + 7]
            &&& img.path_len == buf[s.pos + 8]
            &&& img.end == img.path_start + img.path_len
            &&& scan::next_token(buf, s).1 == (ScanState { pos: img.end as int, ..s })
        },
{
}

/// A record that is cut off, or has no path, is an unknown mark of two bytes.
pub proof fn law_damaged_images_are_unknown(buf: Seq<u8>, s: ScanState)
    requires
        0 <= s.pos,
        s.pos + 1 < buf.len() <= u32::MAX,
        buf[s.pos] == 0x01,
        buf[s.pos + 1] == 0x47,
        s.pos + 9 > buf.len() || buf[s.pos + 8] == 0 || s.pos + 9 + buf[s.pos + 7] + buf[s.pos + 8]
            > buf.len(),
    ensures
        scan::next_token(buf, s) == (
            Some(
                Token::UnknownMarker {
                    start: s.pos as u32,
                    end: (s.pos + 2) as u32,
                    tag: 0x47,
                },
            ),
            ScanState { pos: s.pos + 2, ..s },
        ),
{
}

// ── events ────────────────────────────────────────────────────────

/// A word of the stream is an event with its bytes, and with the style in force: a
/// heading has its level, and other text none.
pub proof fn law_word_events_carry_the_style(buf: Seq<u8>, s: EventState)
    requires
        all_plain(buf),
        0 <= s.pos < buf.len() <= u32::MAX,
        is_letter(buf[s.pos]),
    ensures
        events::next_event(buf, s).0 matches Some(Event::Word { start, end, style }) && {
            &&& start == s.pos
            &&& start < end <= buf.len()
            &&& style.bold == s.style.bold
            &&& style.italic == s.style.italic
            &&& style.underline == s.style.underline
            &&& style.strike == s.style.strike
            &&& style.heading == (if s.style.heading {
                s.style.hlevel
            } else {
                0
            })
            &&& events::next_event(buf, s).1 == (EventState { pos: end as int, ..s })
        },
{
    law_words_are_whole(buf, s.scan());
}

/// A block goes on behind a hard break with its alignment and its levels alone;
/// behind any other break its record is gone.
pub proof fn law_records_end_with_their_block(buf: Seq<u8>, s: EventState)
    requires
        0 <= s.pos < buf.len() <= u32::MAX,
        s.record is Some,
        buf[s.pos] == 0x0A,
    ensures
        ({
            let after = events::next_event(buf, s).1;
            let p = s.record->0;
            if s.pos + 1 == buf.len() || buf[s.pos + 1] != 0x0A {
                &&& after.props().align == p.align
                &&& after.props().left == p.left
                &&& after.props().text_indent_qem == 0
                &&& after.props().space_above_qem == 0
            } else {
                after.record is None
            }
        }),
{
    law_newlines_are_breaks(buf, s.scan());
}

} // verus!
