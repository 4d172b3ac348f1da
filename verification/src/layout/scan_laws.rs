//! What holds of every scanned stream.

use crate::layout::scan;
use crate::layout::scan::{ScanState, Token};
use crate::utf8;
use vstd::prelude::*;

verus! {

/// The bytes a token stands for. A change of block state stands for the
/// marker that made it.
pub open spec fn span(tok: Token) -> (int, int) {
    match tok {
        Token::Word { start, end, .. } => (start as int, end as int),
        Token::Space { start, end, .. } => (start as int, end as int),
        Token::Nbsp { start, end, .. } => (start as int, end as int),
        Token::SoftHyphen { start, end, .. } => (start as int, end as int),
        Token::HardBreak { start, end } => (start as int, end as int),
        Token::ParagraphBreak { start, end } => (start as int, end as int),
        Token::PageBreak { start, end } => (start as int, end as int),
        Token::ThematicBreak { start, end } => (start as int, end as int),
        Token::Image(img) => (img.start as int, img.end as int),
        Token::BlockChanged { at, .. } => (at - 2, at as int),
        Token::UnknownMarker { start, end, .. } => (start as int, end as int),
    }
}

/// Tokens come in order and do not overlap: each begins at or behind where
/// the scanner stood, is not empty, lies within the buffer, and ends where the
/// scanner stands afterwards. Without a token the buffer is at its end.
pub proof fn law_tokens_are_disjoint(buf: Seq<u8>, s: ScanState)
    requires
        0 <= s.pos <= buf.len() <= u32::MAX,
    ensures
        ({
            let (tok, after) = scan::next_token(buf, s);
            &&& s.pos <= after.pos <= buf.len()
            &&& tok is None ==> after.pos == buf.len()
            &&& tok matches Some(t) ==> s.pos <= span(t).0 < span(t).1 == after.pos
        }),
    decreases buf.len() - s.pos,
{
    if s.pos < buf.len() {
        scan::lemma_scan_step(buf, s);
        let (tok, after) = scan::scan_step(buf, s);
        if tok is None {
            law_tokens_are_disjoint(buf, after);
        }
    }
}

/// The end of the stream stays the end: after it no call gives a token or
/// changes anything.
pub proof fn law_end_is_final(buf: Seq<u8>, s: ScanState)
    requires
        0 <= s.pos <= buf.len() <= u32::MAX,
        scan::next_token(buf, s).0 is None,
    ensures
        scan::next_token(buf, scan::next_token(buf, s).1) == (
            None::<Token>,
            scan::next_token(buf, s).1,
        ),
{
    law_tokens_are_disjoint(buf, s);
}

/// No multi-byte sequence runs past the end of the buffer.
pub open spec fn nothing_cut_off(buf: Seq<u8>) -> bool {
    forall|p: int|
        0 <= p < buf.len() && buf[p] >= 0xC0 ==> p + #[trigger] utf8::lead_len(buf[p]) <= buf.len()
}

proof fn lemma_char_bytes(buf: Seq<u8>, p: int)
    requires
        0 <= p < buf.len(),
        buf[p] >= 0xC0,
        nothing_cut_off(buf),
    ensures
        1 <= utf8::utf8_at(buf, p).1 <= buf.len() - p,
        forall|j: int|
            p < j < p + utf8::utf8_at(buf, p).1 ==> !scan::ends_word(#[trigger] buf[j]),
{
    utf8::lemma_utf8_len(buf, p);
    let n = utf8::lead_len(buf[p]);
    if n > 0 {
        utf8::lemma_good_prefix(buf, p, n, 1);
        let good = utf8::good_prefix(buf, p, n, 1);
        assert forall|j: int| p < j < p + utf8::utf8_at(buf, p).1 implies !scan::ends_word(
            #[trigger] buf[j],
        ) by {
            assert(utf8::is_continuation(buf[p + (j - p)]));
        }
    }
}

proof fn lemma_word_bytes(buf: Seq<u8>, p: int)
    requires
        0 <= p <= buf.len(),
        nothing_cut_off(buf),
    ensures
        forall|j: int| p <= j < scan::word_end(buf, p) ==> !scan::ends_word(#[trigger] buf[j]),
    decreases buf.len() - p,
{
    if p < buf.len() && !scan::ends_word(buf[p]) {
        if buf[p] >= 0xC0 {
            lemma_char_bytes(buf, p);
            let (cp, len) = utf8::utf8_at(buf, p);
            if !scan::is_nbsp(cp) && !scan::is_shy(cp) {
                lemma_word_bytes(buf, p + len);
            }
        } else {
            lemma_word_bytes(buf, p + 1);
        }
    }
}

/// The bytes of a word include no marker, no white space and no control
/// byte, in every buffer that cuts no character off at its end.
pub proof fn law_words_hold_text_only(buf: Seq<u8>, s: ScanState, j: int)
    requires
        0 <= s.pos <= buf.len() <= u32::MAX,
        nothing_cut_off(buf),
        scan::next_token(buf, s).0 matches Some(Token::Word { start, end, .. }) && start <= j < end,
    ensures
        buf[j] != scan::MARKER,
        buf[j] > 0x20,
    decreases buf.len() - s.pos,
{
    if s.pos < buf.len() {
        scan::lemma_scan_step(buf, s);
        let (tok, after) = scan::scan_step(buf, s);
        if tok is None {
            law_words_hold_text_only(buf, after, j);
        } else {
            let b = buf[s.pos];
            if b >= 0xC0 {
                lemma_char_bytes(buf, s.pos);
                lemma_word_bytes(buf, s.pos + utf8::utf8_at(buf, s.pos).1);
            } else {
                lemma_word_bytes(buf, s.pos + 1);
            }
            assert(!scan::ends_word(buf[j]));
        }
    }
}

} // verus!
