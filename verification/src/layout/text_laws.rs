//! What the items of a paragraph and the records of its lines are for: text is
//! measured as it is drawn, and a line knows its bytes, its style, its place in the
//! paragraph and how far its gaps spread.

use crate::layout::breaker::BreakChoice;
use crate::layout::convert;
use crate::layout::events::Event;
use crate::layout::items;
use crate::layout::items::{Advance, Item, ItemKind, ParagraphBuilder, ParagraphEnd, ParagraphMeta};
use crate::layout::pipeline;
use crate::layout::pipeline::{ImageBudget, Sheet};
use crate::layout::scan::ImageRef;
use crate::layout::table;
use crate::layout::table::LineLayout;
use crate::markup;
use crate::markup::Style;
use crate::utf8;
use vstd::prelude::*;

verus! {

// ── words ─────────────────────────────────────────────────────────

/// Where the pen is behind the first `k` letters of `word`: the sum of what each
/// moves it in style `s`, behind the letter before it.
pub open spec fn pen(adv: Advance, word: Seq<u8>, s: Style, k: int) -> int
    decreases k,
{
    if k <= 0 {
        0
    } else {
        pen(adv, word, s, k - 1) + adv(
            if k == 1 {
                None
            } else {
                Some(word[k - 2] as char)
            },
            word[k - 1] as char,
            s,
        )
    }
}

/// Every byte is a letter of its own.
pub open spec fn is_ascii(word: Seq<u8>) -> bool {
    forall|i: int| 0 <= i < word.len() ==> #[trigger] word[i] < 0x80
}

proof fn lemma_pen_small(adv: Advance, word: Seq<u8>, s: Style, k: int)
    requires
        0 <= k <= 256,
    ensures
        -32768 * k <= pen(adv, word, s, k) <= 32767 * k,
    decreases k,
{
    if k > 0 {
        lemma_pen_small(adv, word, s, k - 1);
    }
}

proof fn lemma_pen(adv: Advance, word: Seq<u8>, s: Style, k: int)
    requires
        is_ascii(word),
        0 <= k <= word.len() <= 256,
    ensures
        items::pen_after(
            adv,
            word,
            s,
            k,
            if k == 0 {
                None
            } else {
                Some(word[k - 1] as char)
            },
            pen(adv, word, s, k),
        ) == pen(adv, word, s, word.len() as int),
    decreases word.len() - k,
{
    if k < word.len() {
        assert(word[k] < 0x80);
        assert(utf8::utf8_at(word, k) == (word[k] as int, 1int));
        lemma_pen_small(adv, word, s, k);
        lemma_pen_small(adv, word, s, k + 1);
        lemma_pen(adv, word, s, k + 1);
        let ch = (word[k] as int) as char;
        assert(ch == word[k] as char);
    }
}

/// A word is a box as wide as the way of the pen over its letters, each in the
/// style of the word and behind the letter before it; no more than 256 bytes are
/// measured. The box carries that style, and the byte that the word starts at.
pub proof fn law_words_are_measured_in_their_style(
    adv: Advance,
    em_px: u16,
    start: u32,
    end: u32,
    style: Style,
    word: Seq<u8>,
    b: ParagraphBuilder,
    before: Seq<Item>,
)
    requires
        is_ascii(word),
        style.heading <= 15,
    ensures
        ({
            let (after, b2, meta) = items::fed(
                adv,
                em_px,
                Event::Word { start, end, style },
                word,
                b,
                before,
            );
            let it = after.last();
            let n: int = if word.len() < 256 {
                word.len() as int
            } else {
                256
            };
            let w = pen(adv, word.take(n), style, n);
            &&& after.len() > before.len()
            &&& it.spec_kind() == ItemKind::Box
            &&& 0 <= w <= 65535 ==> it.width == w
            &&& w < 0 ==> it.width == 0
            &&& w > 65535 ==> it.width == 65535
            &&& markup::unpacked_style(it.style) == style
            &&& it.byte_offset == start
            &&& meta is None
            &&& b2.last_end == end
        }),
{
    let n: int = if word.len() < 256 {
        word.len() as int
    } else {
        256
    };
    let part = word.take(n);
    assert(items::measured_part(word) == part);
    assert(is_ascii(part)) by {
        assert forall|i: int| 0 <= i < part.len() implies #[trigger] part[i] < 0x80 by {
            assert(part[i] == word[i]);
        }
    }
    lemma_pen(adv, part, style, 0);
    markup::law_style_round_trip(style);
    items::lemma_kinds(items::word_width(adv, part, style), 0, 0, start, style);
}

proof fn lemma_even_pen(adv: Advance, word: Seq<u8>, s: Style, c: int, k: int)
    requires
        forall|p: Option<char>, ch: char| #[trigger] adv(p, ch, s) == c,
        0 <= k,
    ensures
        pen(adv, word, s, k) == c * k,
    decreases k,
{
    if k > 0 {
        lemma_even_pen(adv, word, s, c, k - 1);
        let prev: Option<char> = if k == 1 {
            None
        } else {
            Some(word[k - 2] as char)
        };
        assert(adv(prev, word[k - 1] as char, s) == c);
        assert(c * (k - 1) + c == c * k) by (nonlinear_arith);
    } else {
        assert(c * 0 == 0) by (nonlinear_arith);
    }
}

/// Where every letter of a style moves the pen alike, a word is as wide as that
/// many letters of its own style, whatever the style where the paragraph began.
pub proof fn law_even_faces_measure_evenly(
    adv: Advance,
    em_px: u16,
    start: u32,
    end: u32,
    style: Style,
    word: Seq<u8>,
    b: ParagraphBuilder,
    before: Seq<Item>,
    c: int,
)
    requires
        is_ascii(word),
        word.len() <= 256,
        style.heading <= 15,
        0 <= c * word.len() <= 65535,
        forall|p: Option<char>, ch: char| #[trigger] adv(p, ch, style) == c,
    ensures
        items::fed(
            adv,
            em_px,
            Event::Word { start, end, style },
            word,
            b,
            before,
        ).0.last().width == c * word.len(),
{
    law_words_are_measured_in_their_style(adv, em_px, start, end, style, word, b, before);
    assert(word.take(word.len() as int) =~= word);
    lemma_even_pen(adv, word, style, c, word.len() as int);
}

// ── spaces, hyphens, ends ─────────────────────────────────────────

/// A space is glue as wide as a space of its style, which may stretch by half and
/// shrink by a third; one that does not break is a box of that width. Both carry
/// their style.
pub proof fn law_spaces_are_glue(
    adv: Advance,
    em_px: u16,
    start: u32,
    end: u32,
    style: Style,
    b: ParagraphBuilder,
    before: Seq<Item>,
)
    requires
        style.heading <= 15,
        0 <= adv(None, ' ', style) < 765,
    ensures
        ({
            let w = adv(None, ' ', style) as int;
            let it = items::fed(
                adv,
                em_px,
                Event::Space { start, end, style },
                Seq::empty(),
                b,
                before,
            ).0.last();
            &&& it.spec_kind() == ItemKind::Glue
            &&& it.width == w
            &&& 2 * it.stretch <= w < 2 * it.stretch + 2
            &&& 3 * it.shrink <= w < 3 * it.shrink + 3
            &&& markup::unpacked_style(it.style) == style
            &&& it.byte_offset == start
        }),
        ({
            let it = items::fed(
                adv,
                em_px,
                Event::Nbsp { start, end, style },
                Seq::empty(),
                b,
                before,
            ).0.last();
            &&& it.spec_kind() == ItemKind::Box
            &&& it.width == adv(None, ' ', style)
            &&& markup::unpacked_style(it.style) == style
            &&& it.byte_offset == start
        }),
{
    markup::law_style_round_trip(style);
    let w = adv(None, ' ', style) as int;
    items::lemma_kinds(w as u16, (w / 2) as u16, (w / 3) as u8, start, style);
}

/// A soft hyphen is a place where the word may break: a flagged penalty of 50.
pub proof fn law_soft_hyphens_may_break(
    adv: Advance,
    em_px: u16,
    start: u32,
    end: u32,
    style: Style,
    b: ParagraphBuilder,
    before: Seq<Item>,
)
    ensures
        ({
            let (after, _, meta) = items::fed(
                adv,
                em_px,
                Event::SoftHyphen { start, end, style },
                Seq::empty(),
                b,
                before,
            );
            let it = after.last();
            &&& after.len() == before.len() + 1
            &&& it.spec_kind() == ItemKind::Penalty
            &&& it.spec_penalty() == 50
            &&& it.spec_flagged()
            &&& !it.spec_forced()
            &&& it.byte_offset == start
            &&& meta is None
        }),
{
    items::lemma_penalty_kind(50, true, false, start);
    items::lemma_penalty_bits_of(50, true, false, start);
}

/// A paragraph ends in no break, glue that takes all the room there is, and a
/// forced break.
pub open spec fn is_closed(its: Seq<Item>) -> bool {
    let n = its.len() as int;
    &&& n >= 3
    &&& its[n - 3].spec_kind() == ItemKind::Penalty && its[n - 3].spec_penalty() == 32767
    &&& its[n - 2].spec_kind() == ItemKind::Glue && its[n - 2].width == 0 && its[n - 2].stretch
        == 65535 && its[n - 2].shrink == 0
    &&& its[n - 1].spec_kind() == ItemKind::Penalty && its[n - 1].spec_penalty() == -32768 && its[n
        - 1].spec_forced()
}

proof fn lemma_closed(before: Seq<Item>, at: u32)
    ensures
        is_closed(before + items::forced_triple(at)),
        (before + items::forced_triple(at)).take(before.len() as int) == before,
{
    items::lemma_penalty_kind(32767, false, false, at);
    items::lemma_kinds(0, 65535, 0, at, Style::spec_plain());
    items::lemma_penalty_kind(Item::PENALTY_FORCE, false, true, at);
    items::lemma_penalty_bits_of(Item::PENALTY_FORCE, false, true, at);
    let its = before + items::forced_triple(at);
    let n = before.len() as int;
    assert(its[n] == items::forced_triple(at)[0]);
    assert(its[n + 1] == items::forced_triple(at)[1]);
    assert(its[n + 2] == items::forced_triple(at)[2]);
    assert(its.take(n) =~= before);
}

/// Every kind of break ends the paragraph behind its text, and is told as what it
/// is: a newline or two, a page break, a thematic break, an image with its record.
pub proof fn law_breaks_end_paragraphs(
    adv: Advance,
    em_px: u16,
    start: u32,
    end: u32,
    img: ImageRef,
    b: ParagraphBuilder,
    before: Seq<Item>,
)
    requires
        before.len() > 0,
    ensures
        ({
            let fed = |ev: Event| items::fed(adv, em_px, ev, Seq::empty(), b, before);
            let hard = fed(Event::HardBreak { start, end });
            let para = fed(Event::ParagraphBreak { start, end });
            let page = fed(Event::PageBreak { start, end });
            let rule = fed(Event::ThematicBreak { start, end });
            let image = fed(Event::Image(img));
            &&& is_closed(hard.0) && is_closed(para.0) && is_closed(page.0) && is_closed(rule.0)
                && is_closed(image.0)
            &&& hard.2 matches Some(m) && m.end_kind == ParagraphEnd::ParagraphBreak && m.byte_end
                == end && m.block == b.block && m.byte_start == b.byte_start
            &&& para.2 matches Some(m) && m.end_kind == ParagraphEnd::ParagraphBreak && m.byte_end
                == end && m.block == b.block && m.byte_start == b.byte_start
            &&& page.2 matches Some(m) && m.end_kind == ParagraphEnd::PageBreakAfter && m.byte_end
                == end
            &&& rule.2 matches Some(m) && m.end_kind == ParagraphEnd::ThematicBreak && m.byte_end
                == end
            &&& image.2 matches Some(m) && m.end_kind == ParagraphEnd::ImageBlock && m.image
                == Some(img) && m.byte_end == img.end
        }),
{
    lemma_closed(before, start);
    lemma_closed(before, img.start);
}

/// Where no text came before it, a page break, a thematic break and an image have
/// no text; a block record is the one of the paragraph that is about to start.
/// Behind text it ends the paragraph, which keeps its own.
pub proof fn law_block_records_come_first(
    adv: Advance,
    em_px: u16,
    at: u32,
    block: markup::BlockProps,
    b: ParagraphBuilder,
    before: Seq<Item>,
)
    ensures
        ({
            let (after, b2, meta) = items::fed(
                adv,
                em_px,
                Event::Block { at, block },
                Seq::empty(),
                b,
                before,
            );
            &&& before.len() == 0 ==> after.len() == 0 && meta is None && b2.block == block
            &&& before.len() > 0 ==> is_closed(after) && (meta matches Some(m) && m.end_kind
                == ParagraphEnd::BlockChanged && m.block == b.block)
        }),
        items::fed(adv, em_px, Event::PageBreak { start: at, end: at }, Seq::empty(), b, Seq::empty()).0.len()
            == 0,
        items::fed(adv, em_px, Event::ThematicBreak { start: at, end: at }, Seq::empty(), b, Seq::empty()).0.len()
            == 0,
{
    lemma_closed(before, at);
}

/// The first text of a paragraph stands behind a box of the first-line indent,
/// and no other text does.
pub proof fn law_first_lines_are_indented(
    adv: Advance,
    em_px: u16,
    start: u32,
    end: u32,
    style: Style,
    word: Seq<u8>,
    b: ParagraphBuilder,
    before: Seq<Item>,
)
    requires
        b.block.text_indent_qem * em_px < 4 * 65536,
    ensures
        ({
            let (after, b2, _) = items::fed(
                adv,
                em_px,
                Event::Word { start, end, style },
                word,
                b,
                before,
            );
            let indent = b.block.text_indent_qem * em_px;
            &&& after.take(before.len() as int) == before
            &&& b.indent_pending && indent >= 4 ==> {
                &&& after.len() == before.len() + 2
                &&& after[before.len() as int].spec_kind() == ItemKind::Box
                &&& 4 * after[before.len() as int].width <= indent < 4 * after[before.len() as int].width
                    + 4
            }
            &&& !b.indent_pending || indent < 4 ==> after.len() == before.len() + 1
            &&& !b2.indent_pending
        }),
{
    let w = table::spec_indent_px(b.block.text_indent_qem, em_px);
    assert(b.block.text_indent_qem * em_px >= 0) by (nonlinear_arith);
    items::lemma_kinds(w, 0, 0, start, style);
    let after = items::fed(adv, em_px, Event::Word { start, end, style }, word, b, before).0;
    assert(after.take(before.len() as int) =~= before);
}

// ── line records ──────────────────────────────────────────────────

/// How many of `items[lo..hi]` are glue.
pub open spec fn glue_in(its: Seq<Item>, lo: int, hi: int) -> int
    decreases hi - lo,
{
    if lo >= hi {
        0
    } else {
        glue_in(its, lo, hi - 1) + (if its[hi - 1].spec_kind() == ItemKind::Glue {
            1int
        } else {
            0
        })
    }
}

proof fn lemma_glue(its: Seq<Item>, lo: int, hi: int)
    ensures
        convert::gap_count(its, lo, hi) == glue_in(its, lo, hi),
        0 <= glue_in(its, lo, hi) <= (if hi > lo {
            hi - lo
        } else {
            0
        }),
    decreases hi - lo,
{
    if lo < hi {
        lemma_glue(its, lo, hi - 1);
    }
}

/// A line record knows its bytes, whether it opens or closes its paragraph, and
/// whether a page break comes before it. Its indent and its gap are those of the
/// paragraph on the first line, and none on the others; its levels and its
/// alignment are those of the paragraph on every line.
#[verifier::rlimit(60)]
pub proof fn law_line_records_tell_their_place(
    its: Seq<Item>,
    choices: Seq<BreakChoice>,
    meta: ParagraphMeta,
    pending: bool,
    k: int,
)
    requires
        convert::ascending(choices, its.len() as int),
        0 <= k < choices.len(),
        meta.block.left <= 15,
        meta.block.text_indent_qem <= 15,
        meta.block.space_above_qem <= 15,
    ensures
        ({
            let lines = convert::kp_lines(its, choices, meta, pending);
            let l = lines[k];
            let lo: int = if k == 0 {
                0
            } else {
                choices[k - 1].item_idx + 1
            };
            let bits = choices[k].flags.bits;
            &&& lines.len() == choices.len()
            &&& l.start_byte == its[lo].byte_offset
            &&& l.end_byte == its[choices[k].item_idx as int].byte_offset
            &&& l.flags / 8 % 2 == 0
            &&& (l.flags / 16 % 2 == 1) == (pending && k == 0)
            &&& (l.flags / 32 % 2 == 1) == (k + 1 == choices.len() && (bits & 4 != 0 || bits & 1
                != 0))
            &&& l.indent % 16 == meta.block.left
            &&& l.indent / 16 == (if k == 0 {
                meta.block.text_indent_qem
            } else {
                0
            })
            &&& l.align / 16 == (if k == 0 {
                meta.block.space_above_qem
            } else {
                0
            })
            &&& l.align % 4 == (match meta.block.align {
                markup::Align::Default => 0int,
                markup::Align::Left => 1,
                markup::Align::Center => 2,
                markup::Align::Right => 3,
            })
        }),
{
    reveal(convert::line_record);
}

/// A line starts in the style of its first box: bold, italic, a heading, underlined
/// and struck through as that is.
#[verifier::rlimit(60)]
pub proof fn law_lines_start_in_the_style_of_their_text(
    its: Seq<Item>,
    choices: Seq<BreakChoice>,
    meta: ParagraphMeta,
    pending: bool,
    k: int,
    first: int,
)
    requires
        convert::ascending(choices, its.len() as int),
        0 <= k < choices.len(),
        (if k == 0 {
            0
        } else {
            choices[k - 1].item_idx + 1
        }) <= first <= choices[k].item_idx,
        its[first].spec_kind() == ItemKind::Box,
        forall|j: int|
            (if k == 0 {
                0
            } else {
                choices[k - 1].item_idx + 1
            }) <= j < first ==> (#[trigger] its[j]).spec_kind() != ItemKind::Box,
    ensures
        ({
            let l = convert::kp_lines(its, choices, meta, pending)[k];
            let s = markup::unpacked_style(its[first].style);
            &&& (l.flags % 2 == 1) == s.bold
            &&& (l.flags / 2 % 2 == 1) == s.italic
            &&& (l.flags / 4 % 2 == 1) == (s.heading != 0)
            &&& (l.align / 4 % 2 == 1) == s.underline
            &&& (l.align / 8 % 2 == 1) == s.strike
            &&& s.heading == 1 ==> l.flags / 64 == 2
            &&& s.heading == 2 ==> l.flags / 64 == 1
            &&& s.heading == 3 ==> l.flags / 64 == 0
            &&& s.heading >= 4 ==> l.flags / 64 == 3
        }),
{
    reveal(convert::line_record);
    let lo: int = if k == 0 {
        0
    } else {
        choices[k - 1].item_idx + 1
    };
    lemma_start_style(its, lo, choices[k].item_idx as int, first);
}

proof fn lemma_start_style(its: Seq<Item>, lo: int, bp: int, first: int)
    requires
        lo <= first <= bp,
        its[first].spec_kind() == ItemKind::Box,
        forall|j: int| lo <= j < first ==> (#[trigger] its[j]).spec_kind() != ItemKind::Box,
    ensures
        convert::start_style(its, lo, bp) == markup::unpacked_style(its[first].style),
    decreases first - lo,
{
    if lo < first {
        assert(its[lo].spec_kind() != ItemKind::Box);
        lemma_start_style(its, lo + 1, bp, first);
    }
}

/// What a line's gaps spread by is what its ratio asks for, shared out evenly and
/// rounded down: of its stretch, or of its shrink, which the high bit tells. The
/// last line of a paragraph and a heading do not stretch, and a line left too wide
/// does neither.
#[verifier::rlimit(60)]
pub proof fn law_gaps_share_the_spread(
    its: Seq<Item>,
    choices: Seq<BreakChoice>,
    meta: ParagraphMeta,
    pending: bool,
    k: int,
)
    requires
        convert::ascending(choices, its.len() as int),
        0 <= k < choices.len(),
        glue_in(
            its,
            if k == 0 {
                0
            } else {
                choices[k - 1].item_idx + 1
            },
            choices[k].item_idx as int,
        ) > 0,
    ensures
        ({
            let l = convert::kp_lines(its, choices, meta, pending)[k];
            let lo: int = if k == 0 {
                0
            } else {
                choices[k - 1].item_idx + 1
            };
            let c = choices[k];
            let gaps = glue_in(its, lo, c.item_idx as int);
            let r = c.adjustment_ratio_q8 as int;
            let e = l.extra as int;
            let rigid = l.flags / 32 % 2 == 1 || l.flags / 4 % 2 == 1;
            &&& r == 0 || r == -32768 ==> e == 0
            &&& r > 0 && rigid ==> e == 0
            &&& r > 0 && !rigid ==> e <= 127 && e * (256 * gaps) <= c.stretch_total * r && (e < 127
                ==> c.stretch_total * r < (e + 1) * (256 * gaps))
            &&& -32768 < r < 0 ==> e >= 128 && (e - 128) * (256 * gaps) <= c.shrink_total * -r && (e
                < 255 ==> c.shrink_total * -r < (e - 127) * (256 * gaps))
        }),
{
    reveal(convert::line_record);
    let lo: int = if k == 0 {
        0
    } else {
        choices[k - 1].item_idx + 1
    };
    let c = choices[k];
    lemma_glue(its, lo, c.item_idx as int);
    let gaps = glue_in(its, lo, c.item_idx as int);
    let r = c.adjustment_ratio_q8 as int;
    if r > 0 {
        lemma_shared(c.stretch_total as int, r, gaps);
    } else if -32768 < r < 0 {
        lemma_shared(c.shrink_total as int, -r, gaps);
    }
}

proof fn lemma_shared(total: int, r: int, gaps: int)
    requires
        0 <= total,
        0 < r,
        0 < gaps,
    ensures
        ({
            let each = ((total * r) / 256) / gaps;
            &&& 0 <= each
            &&& each * (256 * gaps) <= total * r < (each + 1) * (256 * gaps)
            &&& each >= 127 ==> 127 * (256 * gaps) <= total * r
        }),
{
    let t = total * r;
    let u = t / 256;
    let each = u / gaps;
    assert(t >= 0) by (nonlinear_arith)
        requires
            t == total * r,
            0 <= total,
            0 < r,
    ;
    assert(256 * u <= t < 256 * u + 256);
    assert(each * gaps <= u < each * gaps + gaps && each >= 0) by (nonlinear_arith)
        requires
            each == u / gaps,
            0 <= u,
            0 < gaps,
    ;
    assert(each * (256 * gaps) == 256 * (each * gaps)) by (nonlinear_arith);
    assert((each + 1) * (256 * gaps) == 256 * (each * gaps) + 256 * gaps) by (nonlinear_arith);
    if each >= 127 {
        assert(127 * (256 * gaps) <= each * (256 * gaps)) by (nonlinear_arith)
            requires
                each >= 127,
                gaps > 0,
        ;
    }
}

// ── first fit ─────────────────────────────────────────────────────

/// What the first `n` items take, added up.
pub open spec fn taken(its: Seq<Item>, n: int) -> int
    decreases n,
{
    if n <= 0 {
        0
    } else {
        taken(its, n - 1) + (if its[n - 1].spec_kind() == ItemKind::Penalty {
            0
        } else {
            its[n - 1].width as int
        })
    }
}

proof fn lemma_first_fit_run(
    its: Seq<Item>,
    meta: ParagraphMeta,
    lw: int,
    pending: bool,
    out: Seq<LineLayout>,
    n: int,
)
    requires
        0 <= n <= its.len(),
        0 <= lw <= 65535,
        taken(its, n) <= lw,
        forall|k: int|
            0 <= k < n ==> !((#[trigger] its[k]).spec_kind() == ItemKind::Penalty
                && its[k].spec_forced()),
    ensures
        ({
            let g = convert::greedy_run(its, meta, lw, pending, out, n);
            &&& g.start == 0
            &&& g.lines == out
            &&& g.pending == pending
            &&& g.cursor == taken(its, n)
            &&& 0 <= g.cursor
        }),
    decreases n,
{
    if n > 0 {
        lemma_first_fit_run(its, meta, lw, pending, out, n - 1);
        assert(!(its[n - 1].spec_kind() == ItemKind::Penalty && its[n - 1].spec_forced()));
    }
}

/// First fit keeps text that fits on one line, up to the forced break that ends it.
pub proof fn law_first_fit_keeps_what_fits(
    its: Seq<Item>,
    meta: ParagraphMeta,
    lw: int,
    pending: bool,
    out: Seq<LineLayout>,
)
    requires
        its.len() > 0,
        0 <= lw <= 65535,
        taken(its, its.len() - 1) <= lw,
        its.last().spec_kind() == ItemKind::Penalty,
        its.last().spec_forced(),
        forall|k: int|
            0 <= k < its.len() - 1 ==> !((#[trigger] its[k]).spec_kind() == ItemKind::Penalty
                && its[k].spec_forced()),
    ensures
        ({
            let g = convert::greedy_all(its, meta, lw, pending, out);
            let l = g.lines.last();
            &&& g.lines.len() == out.len() + 1
            &&& g.lines.drop_last() == out
            &&& l.start_byte == its[0].byte_offset
            &&& l.end_byte == its.last().byte_offset
            &&& l.flags / 32 % 2 == 1
            &&& (l.flags / 16 % 2 == 1) == pending
            &&& l.extra == 0
            &&& !g.pending
        }),
{
    reveal(convert::line_record);
    let n = its.len() as int;
    lemma_first_fit_run(its, meta, lw, pending, out, n - 1);
    let g = convert::greedy_all(its, meta, lw, pending, out);
    assert(g.lines.drop_last() =~= out);
}

/// First fit breaks text that does not fit at the last space that does: the first
/// line ends at the glue before the first box that runs over the column.
pub proof fn law_first_fit_breaks_at_the_last_space(
    its: Seq<Item>,
    meta: ParagraphMeta,
    lw: int,
    pending: bool,
    out: Seq<LineLayout>,
    glue: int,
    i: int,
)
    requires
        0 <= glue < i < its.len(),
        0 <= lw <= 65535,
        taken(its, i) <= lw < taken(its, i + 1),
        its[i].spec_kind() == ItemKind::Box,
        its[glue].spec_kind() == ItemKind::Glue,
        forall|k: int| glue < k < i ==> (#[trigger] its[k]).spec_kind() != ItemKind::Glue,
        forall|k: int|
            0 <= k < i ==> !((#[trigger] its[k]).spec_kind() == ItemKind::Penalty
                && its[k].spec_forced()),
    ensures
        ({
            let g = convert::greedy_run(its, meta, lw, pending, out, i + 1);
            let l = g.lines.last();
            &&& g.lines.len() == out.len() + 1
            &&& l.start_byte == its[0].byte_offset
            &&& l.end_byte == its[glue].byte_offset
            &&& l.flags / 32 % 2 == 0
            &&& g.start == glue + 1
        }),
{
    reveal(convert::line_record);
    lemma_first_fit_run(its, meta, lw, pending, out, i);
    lemma_last_glue(its, meta, lw, pending, out, glue, i);
    assert(taken(its, i + 1) == taken(its, i) + its[i].width);
}

proof fn lemma_last_glue(
    its: Seq<Item>,
    meta: ParagraphMeta,
    lw: int,
    pending: bool,
    out: Seq<LineLayout>,
    glue: int,
    n: int,
)
    requires
        0 <= glue < n <= its.len(),
        0 <= lw <= 65535,
        taken(its, n) <= lw,
        its[glue].spec_kind() == ItemKind::Glue,
        forall|k: int| glue < k < n ==> (#[trigger] its[k]).spec_kind() != ItemKind::Glue,
        forall|k: int|
            0 <= k < n ==> !((#[trigger] its[k]).spec_kind() == ItemKind::Penalty
                && its[k].spec_forced()),
    ensures
        convert::greedy_run(its, meta, lw, pending, out, n).glue == glue,
    decreases n,
{
    lemma_first_fit_run(its, meta, lw, pending, out, n);
    lemma_first_fit_run(its, meta, lw, pending, out, n - 1);
    assert(!(its[n - 1].spec_kind() == ItemKind::Penalty && its[n - 1].spec_forced()));
    if glue < n - 1 {
        lemma_last_glue(its, meta, lw, pending, out, glue, n - 1);
        assert(its[n - 1].spec_kind() != ItemKind::Glue);
    }
}

// ── images ────────────────────────────────────────────────────────

/// An image reserves its lines: the first knows its record in the stream, its gap
/// and the height in units of four pixels, rounded up; the others are empty. All
/// are marked as image lines, and only the first may start a page.
pub proof fn law_images_reserve_lines(
    meta: ParagraphMeta,
    n: u8,
    reserved: u16,
    pending: bool,
    k: int,
)
    requires
        n >= 1,
        meta.image is Some,
        0 <= k < n,
        meta.block.space_above_qem <= 15,
    ensures
        ({
            let b = convert::image_block(meta, n, reserved, pending);
            &&& b.len() == n
            &&& b[k].flags / 8 % 2 == 1
            &&& (b[k].flags / 16 % 2 == 1) == (pending && k == 0)
            &&& k == 0 ==> b[0].start_byte == meta.image->0.start && b[0].end_byte
                == meta.image->0.end && b[0].align / 16 == meta.block.space_above_qem
            &&& k == 0 && reserved <= 1020 ==> reserved <= 4 * b[0].extra < reserved + 4
            &&& k > 0 ==> b[k].start_byte == 0 && b[k].end_byte == 0 && b[k].align == 0
                && b[k].extra == 0
        }),
{
}

/// The height of an image: its own where it fits the column and the cap, and never
/// more than the cap. Without a size it is what was looked up, at least a line; and
/// else its height alone, or 350 pixels.
pub proof fn law_image_heights(img: ImageRef, budget: ImageBudget, peeked: Option<u16>)
    requires
        budget.text_w > 0,
        budget.line_h > 0,
        budget.inline_cap >= budget.line_h,
    ensures
        ({
            let h = pipeline::reserved_height(Some(img), budget, peeked);
            let cap = budget.inline_cap as int;
            let sized = img.attr_w > 0 && img.attr_h > 0;
            &&& 0 <= h <= cap
            &&& sized && img.attr_w <= budget.text_w && img.attr_h <= cap ==> h == img.attr_h
            &&& sized ==> h <= img.attr_h
            &&& sized && img.attr_w <= 2 * budget.text_w && img.attr_h <= 2 * cap && (img.attr_w
                > budget.text_w || img.attr_h > cap) ==> 2 * h <= img.attr_h < 2 * h + 2
            &&& !sized && (peeked matches Some(p) && budget.line_h <= p <= cap) ==> h == peeked->0
            &&& !sized && (peeked matches Some(p) && p > cap) ==> h == cap
            &&& !sized && (peeked matches Some(p) && p < budget.line_h) ==> h == budget.line_h
            &&& !sized && peeked is None && 0 < img.attr_h <= cap ==> h == img.attr_h
            &&& !sized && peeked is None && img.attr_h > cap ==> h == cap
            &&& !sized && peeked is None && img.attr_h == 0 ==> h == (if cap < 350 {
                cap
            } else {
                350
            })
        }),
{
    let cap = budget.inline_cap as int;
    let scale = pipeline::image_scale(img, budget);
    let h = img.attr_h as int / scale;
    let sw = pipeline::ceil_div(img.attr_w as int, budget.text_w as int);
    let sh = pipeline::ceil_div(img.attr_h as int, cap);
    lemma_ceil(img.attr_w as int, budget.text_w as int);
    lemma_ceil(img.attr_h as int, cap);
    assert(0 <= h <= img.attr_h && (scale == 1 ==> h == img.attr_h) && (scale == 2 ==> 2 * h
        <= img.attr_h < 2 * h + 2)) by (nonlinear_arith)
        requires
            h == img.attr_h as int / scale,
            scale >= 1,
            img.attr_h >= 0,
    ;
    assert(h <= cap) by (nonlinear_arith)
        requires
            h == img.attr_h as int / scale,
            scale >= sh,
            scale >= 1,
            img.attr_h <= sh * cap,
            cap > 0,
            img.attr_h >= 0,
    ;
}

proof fn lemma_ceil(a: int, b: int)
    requires
        0 <= a,
        0 < b,
    ensures
        ({
            let q = pipeline::ceil_div(a, b);
            &&& (q - 1) * b < a <= q * b || a == 0 && q == 0
            &&& 0 < a <= b ==> q == 1
            &&& b < a <= 2 * b ==> q == 2
        }),
{
    let q = (a + b - 1) / b;
    assert(q * b <= a + b - 1 < (q + 1) * b && (0 < a <= b ==> q == 1) && (b < a <= 2 * b ==> q == 2)
        && (a == 0 ==> q == 0)) by (nonlinear_arith)
        requires
            q == (a + b - 1) / b,
            0 <= a,
            0 < b,
    ;
    assert(q * b <= a + b - 1 ==> (q - 1) * b < a) by (nonlinear_arith)
        requires
            0 < b,
    ;
    assert(a + b - 1 < (q + 1) * b ==> a <= q * b) by (nonlinear_arith)
        requires
            0 < b,
    ;
}

/// An image takes as many lines as its height fills, at least one and at most 255.
pub proof fn law_image_lines_hold_the_height(h: int, line_h: u16)
    requires
        0 <= h,
        line_h > 0,
    ensures
        ({
            let n = pipeline::lines_for(h, line_h);
            &&& 1 <= n <= 255
            &&& n < 255 ==> h <= n * line_h
            &&& n > 1 ==> (n - 1) * line_h < h
        }),
{
    lemma_ceil(h, line_h as int);
    let lh = line_h as int;
    let q = pipeline::ceil_div(h, lh);
    let n = pipeline::lines_for(h, line_h);
    assert(q * lh == lh * q) by (nonlinear_arith);
    if q >= 255 {
        assert(254 * lh <= (q - 1) * lh) by (nonlinear_arith)
            requires
                q >= 255,
                lh > 0,
        ;
        assert(n == 255);
    } else if q >= 1 {
        assert(n == q);
    } else {
        assert(h == 0) by (nonlinear_arith)
            requires
                h <= q * lh || h == 0 && q == 0,
                q <= 0,
                lh > 0,
                h >= 0,
        ;
        assert(n == 1);
    }
}

// ── columns and page breaks ───────────────────────────────────────

/// Every level of indent takes 24 pixels of the column.
pub proof fn law_levels_narrow_the_column(budget: ImageBudget, left: u8)
    ensures
        ({
            let w = pipeline::column_width(budget, left) as int;
            &&& 24 * left <= budget.text_w ==> w + 24 * left == budget.text_w
            &&& 24 * left > budget.text_w ==> w == 0
        }),
{
}

/// A page break goes to the first line that is set behind it, and to no other.
pub proof fn law_page_breaks_go_to_the_next_line(
    s: Sheet,
    meta: ParagraphMeta,
    its: Seq<Item>,
    next: ParagraphMeta,
    width: u16,
    choices: Seq<BreakChoice>,
)
    requires
        meta.end_kind == ParagraphEnd::PageBreakAfter,
        convert::ascending(choices, its.len() as int),
        choices.len() > 0,
    ensures
        ({
            let due = pipeline::with_end(s, meta);
            let after = pipeline::with_text(due, its, next, width, Some(choices));
            let n = s.lines.len() as int;
            &&& due.pending
            &&& due.lines == s.lines
            &&& after.lines.len() == n + choices.len()
            &&& after.lines[n].flags / 16 % 2 == 1
            &&& forall|k: int|
                n < k < after.lines.len() ==> (#[trigger] after.lines[k]).flags / 16 % 2 == 0
            &&& !after.pending
        }),
{
    reveal(convert::line_record);
}

} // verus!
