//! From break decisions to line records.
//!
//! `append_lines` packs the lines of the breaker, `append_greedy_fallback`
//! breaks a paragraph first-fit where the breaker gave up, and
//! `append_image_block` reserves the lines of an image.

use crate::layout::breaker::{Adjustment, BreakChoice, ChoiceFlags};
use crate::layout::breaker_laws;
use crate::layout::breaker_spec;
use crate::layout::items::{Item, ItemKind, ParagraphMeta};
use crate::layout::table;
use crate::layout::table::LineLayout;
use crate::markup;
use crate::markup::{Align, Style};
use vstd::prelude::*;

verus! {

// ── pieces of a line ──────────────────────────────────────────────

/// The style of the first box of `items[lo..=bp]`, which is what the line's
/// first glyph is drawn in; plain if there is none.
pub open spec fn start_style(items: Seq<Item>, lo: int, bp: int) -> Style
    decreases bp - lo + 1,
{
    if lo > bp {
        Style::spec_plain()
    } else if items[lo].spec_kind() == ItemKind::Box {
        markup::unpacked_style(items[lo].style)
    } else {
        start_style(items, lo + 1, bp)
    }
}

/// Number of glue items in `items[lo..hi]`.
pub open spec fn gap_count(items: Seq<Item>, lo: int, hi: int) -> int
    decreases hi - lo,
{
    if lo >= hi {
        0
    } else {
        gap_count(items, lo, hi - 1) + (if items[hi - 1].spec_kind() == ItemKind::Glue {
            1int
        } else {
            0
        })
    }
}

/// Total width of `items[lo..hi]`.
pub open spec fn span_width(items: Seq<Item>, lo: int, hi: int) -> int
    decreases hi - lo,
{
    if lo >= hi {
        0
    } else {
        sat_u32(span_width(items, lo, hi - 1) + breaker_spec::item_width(items[hi - 1]))
    }
}

pub open spec fn sat_u32(x: int) -> int {
    if x > 0xffff_ffff {
        0xffff_ffff
    } else {
        x
    }
}

/// Pixels per gap for a total of `spread * r / 256`; at most 127.
pub open spec fn per_gap(spread: u16, r: u16, gaps: int) -> int {
    let each = ((spread * r) / 256) / gaps;
    if each < 127 {
        each
    } else {
        127
    }
}

/// The `extra` byte of a line. A line that must not stretch may still
/// shrink.
pub open spec fn extra_of(c: BreakChoice, gaps: int, no_stretch: bool) -> int {
    if gaps == 0 {
        0
    } else {
        match c.spec_adjustment() {
            Adjustment::Overflow => 0,
            Adjustment::Perfect => 0,
            Adjustment::Stretch(r) => if no_stretch {
                0
            } else {
                per_gap(c.stretch_total, r, gaps)
            },
            Adjustment::Shrink(r) => 128 + per_gap(c.shrink_total, r, gaps),
        }
    }
}

fn first_box_style(items: &[Item], lo: usize, breakpoint: usize) -> (s: Style)
    requires
        lo <= breakpoint < items@.len(),
    ensures
        s == start_style(items@, lo as int, breakpoint as int),
{
    let len: usize = items.len();
    let mut k: usize = lo;
    while k <= breakpoint
        invariant
            lo <= k <= breakpoint + 1,
            breakpoint < len == items@.len(),
            start_style(items@, lo as int, breakpoint as int) == start_style(
                items@,
                k as int,
                breakpoint as int,
            ),
        decreases breakpoint + 1 - k,
    {
        if items[k].kind() == ItemKind::Box {
            return items[k].style();
        }
        k = k + 1;
    }
    Style::plain()
}

fn count_gaps(items: &[Item], lo: usize, breakpoint: usize) -> (n: u16)
    requires
        lo <= breakpoint <= items@.len(),
        breakpoint <= 65535,
    ensures
        n == gap_count(items@, lo as int, breakpoint as int),
{
    let mut n: u16 = 0;
    let mut k: usize = lo;
    while k < breakpoint
        invariant
            lo <= k <= breakpoint <= items@.len(),
            breakpoint <= 65535,
            n == gap_count(items@, lo as int, k as int),
            n <= k - lo,
        decreases breakpoint - k,
    {
        if items[k].kind() == ItemKind::Glue {
            n = n + 1;
        }
        k = k + 1;
    }
    n
}

fn add_u32(a: u32, b: u16) -> (c: u32)
    ensures
        c == sat_u32(a + b),
{
    a.saturating_add(b as u32)
}

fn sum_widths(items: &[Item], lo: usize, hi: usize) -> (w: u32)
    requires
        lo <= hi <= items@.len(),
    ensures
        w == span_width(items@, lo as int, hi as int),
{
    let mut w: u32 = 0;
    let mut k: usize = lo;
    while k < hi
        invariant
            lo <= k <= hi <= items@.len(),
            w == span_width(items@, lo as int, k as int),
        decreases hi - k,
    {
        if items[k].kind() != ItemKind::Penalty {
            w = add_u32(w, items[k].width);
        }
        k = k + 1;
    }
    w
}

fn spread(total: u16, r_q8: u16, gaps: u16) -> (p: u8)
    requires
        gaps > 0,
    ensures
        p == per_gap(total, r_q8, gaps as int),
        p <= 127,
{
    proof {
        assert(0 <= total * r_q8 <= 65535 * 65535) by (nonlinear_arith)
            requires
                0 <= total <= 65535,
                0 <= r_q8 <= 65535,
        ;
    }
    let all: u32 = (total as u32 * r_q8 as u32) / 256;
    let each: u32 = all / gaps as u32;
    if each < 127 {
        each as u8
    } else {
        127
    }
}

fn encode_extra(choice: &BreakChoice, gaps: u16, no_stretch: bool) -> (e: u8)
    ensures
        e == extra_of(*choice, gaps as int, no_stretch),
{
    if gaps == 0 {
        return 0;
    }
    match choice.adjustment() {
        Adjustment::Overflow => 0,
        Adjustment::Perfect => 0,
        Adjustment::Stretch(r) => if no_stretch {
            0
        } else {
            spread(choice.stretch_total, r, gaps)
        },
        Adjustment::Shrink(r) => LineLayout::EXTRA_SIGN_SHRINK + spread(
            choice.shrink_total,
            r,
            gaps,
        ),
    }
}

// ── lines of the breaker ──────────────────────────────────────────

/// The breakpoints ascend within the paragraph.
pub open spec fn ascending(choices: Seq<BreakChoice>, n: int) -> bool {
    &&& forall|k: int| 0 <= k < choices.len() ==> (#[trigger] choices[k]).item_idx < n
    &&& forall|j: int, k: int|
        0 <= j < k < choices.len() ==> (#[trigger] choices[j]).item_idx < (
        #[trigger] choices[k]).item_idx
}

/// Whether line `k` closes its paragraph.
pub open spec fn closes(choices: Seq<BreakChoice>, k: int) -> bool {
    let bits = choices[k].flags.bits;
    k + 1 == choices.len() && (bits & ChoiceFlags::LAST_LINE != 0 || bits
        & ChoiceFlags::FORCED_BREAK != 0)
}

/// A line record: its bytes, the style and flags it starts with, and the
/// block's indent, alignment and gap, the first-line parts on the first line
/// alone.
#[verifier::opaque]
pub open spec fn line_record(
    items: Seq<Item>,
    meta: ParagraphMeta,
    lo: int,
    bp: int,
    first: bool,
    break_before: bool,
    last: bool,
    extra: u8,
) -> LineLayout {
    let s = start_style(items, lo, bp);
    LineLayout {
        start_byte: items[lo].byte_offset,
        end_byte: items[bp].byte_offset,
        flags: (table::style_flag_bits(s) + (if break_before {
            16int
        } else {
            0
        }) + (if last {
            32int
        } else {
            0
        })) as u8,
        indent: table::nibbles(
            table::min15(meta.block.left),
            if first {
                table::min15(meta.block.text_indent_qem)
            } else {
                0
            },
        ),
        align: table::nibbles(
            table::align_bits(meta.block.align, s),
            if first {
                table::min15(meta.block.space_above_qem)
            } else {
                0
            },
        ),
        extra,
    }
}

/// Line `k` of a broken paragraph; `pending` says whether a page break is due
/// before the paragraph.
pub open spec fn kp_line(
    items: Seq<Item>,
    choices: Seq<BreakChoice>,
    meta: ParagraphMeta,
    pending: bool,
    k: int,
) -> LineLayout {
    let lo = breaker_laws::start_item(choices, k) + 1;
    let bp = choices[k].item_idx as int;
    let last = closes(choices, k);
    let no_stretch = last || start_style(items, lo, bp).heading != 0;
    line_record(
        items,
        meta,
        lo,
        bp,
        k == 0,
        pending && k == 0,
        last,
        extra_of(choices[k], gap_count(items, lo, bp), no_stretch) as u8,
    )
}

pub open spec fn kp_lines(
    items: Seq<Item>,
    choices: Seq<BreakChoice>,
    meta: ParagraphMeta,
    pending: bool,
) -> Seq<LineLayout> {
    Seq::new(choices.len(), |k: int| kp_line(items, choices, meta, pending, k))
}

fn make_line(
    items: &[Item],
    meta: &ParagraphMeta,
    lo: usize,
    bp: usize,
    first: bool,
    break_before: bool,
    last: bool,
    extra: u8,
) -> (l: LineLayout)
    requires
        lo <= bp < items@.len(),
    ensures
        l == line_record(
            items@,
            *meta,
            lo as int,
            bp as int,
            first,
            break_before,
            last,
            extra,
        ),
{
    proof {
        reveal(line_record);
    }
    let style: Style = first_box_style(items, lo, bp);
    let mut flags: u8 = LineLayout::style_flags(style);
    if break_before {
        flags = flags + LineLayout::FLAG_PAGE_BREAK_BEFORE;
    }
    if last {
        flags = flags + LineLayout::FLAG_PARAGRAPH_END;
    }
    LineLayout {
        start_byte: items[lo].byte_offset,
        end_byte: items[bp].byte_offset,
        flags,
        indent: LineLayout::pack_indent(
            meta.block.left,
            if first {
                meta.block.text_indent_qem
            } else {
                0
            },
        ),
        align: LineLayout::pack_align(
            meta.block.align,
            if first {
                meta.block.space_above_qem
            } else {
                0
            },
            style,
        ),
        extra,
    }
}

/// Append one record per line of a broken paragraph. A page break that is
/// pending goes to the first line and is spent.
pub fn append_lines(
    items: &[Item],
    choices: &[BreakChoice],
    meta: &ParagraphMeta,
    page_break_pending: &mut bool,
    out: &mut Vec<LineLayout>,
)
    requires
        ascending(choices@, items@.len() as int),
    ensures
        final(out)@ == old(out)@ + kp_lines(items@, choices@, *meta, *old(page_break_pending)),
        *final(page_break_pending) == (*old(page_break_pending) && choices@.len() == 0),
{
    let pending: bool = *page_break_pending;
    let ghost lines = kp_lines(items@, choices@, *meta, pending);
    let mut k: usize = 0;
    proof {
        assert(old(out)@ + lines.take(0) =~= old(out)@);
    }
    while k < choices.len()
        invariant
            k <= choices@.len(),
            ascending(choices@, items@.len() as int),
            lines == kp_lines(items@, choices@, *meta, pending),
            out@ == old(out)@ + lines.take(k as int),
            *page_break_pending == (pending && k == 0),
        decreases choices@.len() - k,
    {
        let ch: BreakChoice = choices[k];
        let bp: usize = ch.item_idx as usize;
        let lo: usize = if k == 0 {
            0
        } else {
            proof {
                assert(choices@[k - 1].item_idx < choices@[k as int].item_idx);
            }
            choices[k - 1].item_idx as usize + 1
        };
        let last: bool = k + 1 == choices.len() && (ch.flags.contains(ChoiceFlags::LAST_LINE)
            || ch.flags.contains(ChoiceFlags::FORCED_BREAK));
        let no_stretch: bool = last || first_box_style(items, lo, bp).heading != 0;
        let extra: u8 = encode_extra(&ch, count_gaps(items, lo, bp), no_stretch);
        let line: LineLayout = make_line(
            items,
            meta,
            lo,
            bp,
            k == 0,
            *page_break_pending,
            last,
            extra,
        );
        *page_break_pending = false;
        proof {
            assert(line == lines[k as int]);
            assert(lines.take(k + 1) =~= lines.take(k as int).push(line));
        }
        out.push(line);
        proof {
            assert(out@ =~= old(out)@ + lines.take(k + 1));
        }
        k = k + 1;
    }
    proof {
        assert(lines.take(k as int) =~= lines);
    }
}

// ── first-fit fallback ────────────────────────────────────────────

/// A paragraph that is being broken first-fit: where the line began, the last
/// glue on it (-1 if none), its width so far, and what has come out.
pub struct Greedy {
    pub start: int,
    pub glue: int,
    pub cursor: int,
    pub pending: bool,
    pub lines: Seq<LineLayout>,
}

/// The line from the start of `g` to `bp` is put out and the next one begins
/// behind `bp`. `before` is the number of lines that were there at first.
pub open spec fn greedy_emit(
    items: Seq<Item>,
    meta: ParagraphMeta,
    before: int,
    g: Greedy,
    bp: int,
    last: bool,
    cursor: int,
) -> Greedy {
    let first = g.lines.len() == before;
    Greedy {
        start: bp + 1,
        glue: -1,
        cursor,
        pending: g.pending && !first,
        lines: g.lines.push(
            line_record(items, meta, g.start, bp, first, first && g.pending, last, 0),
        ),
    }
}

/// What item `i` does: a box that does not fit ends the line at the last glue
/// (or at the box itself, without one), a forced break ends the paragraph.
pub open spec fn greedy_step(
    items: Seq<Item>,
    meta: ParagraphMeta,
    lw: int,
    before: int,
    g: Greedy,
    i: int,
) -> Greedy {
    let wide = sat_u32(g.cursor + items[i].width);
    match items[i].spec_kind() {
        ItemKind::Box => if wide > lw {
            let bp = if g.glue >= 0 {
                g.glue
            } else {
                i
            };
            greedy_emit(items, meta, before, g, bp, false, span_width(items, bp + 1, i + 1))
        } else {
            Greedy { cursor: wide, ..g }
        },
        ItemKind::Glue => Greedy { cursor: wide, glue: i, ..g },
        ItemKind::Penalty => if items[i].spec_forced() {
            greedy_emit(items, meta, before, g, i, true, 0)
        } else {
            g
        },
    }
}

/// The state behind the first `n` items.
pub open spec fn greedy_run(
    items: Seq<Item>,
    meta: ParagraphMeta,
    lw: int,
    pending: bool,
    out: Seq<LineLayout>,
    n: int,
) -> Greedy
    decreases n,
{
    if n <= 0 {
        Greedy { start: 0, glue: -1, cursor: 0, pending, lines: out }
    } else {
        greedy_step(
            items,
            meta,
            lw,
            out.len() as int,
            greedy_run(items, meta, lw, pending, out, n - 1),
            n - 1,
        )
    }
}

/// The state behind the paragraph: what is left over is its last line.
pub open spec fn greedy_all(
    items: Seq<Item>,
    meta: ParagraphMeta,
    lw: int,
    pending: bool,
    out: Seq<LineLayout>,
) -> Greedy {
    let n = items.len() as int;
    let g = greedy_run(items, meta, lw, pending, out, n);
    if g.start < n {
        greedy_emit(items, meta, out.len() as int, g, n - 1, true, 0)
    } else {
        g
    }
}

/// The fallback appends; what was there stays in front.
pub proof fn lemma_greedy_grows(
    items: Seq<Item>,
    meta: ParagraphMeta,
    lw: int,
    pending: bool,
    out: Seq<LineLayout>,
    n: int,
)
    ensures
        greedy_run(items, meta, lw, pending, out, n).lines.len() >= out.len(),
        greedy_all(items, meta, lw, pending, out).lines.len() >= out.len() || n
            != items.len(),
        greedy_run(items, meta, lw, pending, out, n).lines.take(out.len() as int) == out,
    decreases n,
{
    if n > 0 {
        lemma_greedy_grows(items, meta, lw, pending, out, n - 1);
        let a = greedy_run(items, meta, lw, pending, out, n - 1).lines;
        let b = greedy_run(items, meta, lw, pending, out, n).lines;
        assert(b.take(out.len() as int) =~= a.take(out.len() as int));
    } else {
        assert(out.take(out.len() as int) =~= out);
    }
}

/// Put out one line of the fallback.
fn emit_fallback_line(
    items: &[Item],
    lo: usize,
    breakpoint: usize,
    meta: &ParagraphMeta,
    page_break_pending: &mut bool,
    first: bool,
    last: bool,
    out: &mut Vec<LineLayout>,
)
    requires
        lo <= breakpoint < items@.len(),
    ensures
        final(out)@ == old(out)@.push(
            line_record(
                items@,
                *meta,
                lo as int,
                breakpoint as int,
                first,
                first && *old(page_break_pending),
                last,
                0,
            ),
        ),
        *final(page_break_pending) == (*old(page_break_pending) && !first),
{
    let break_before: bool = first && *page_break_pending;
    if break_before {
        *page_break_pending = false;
    }
    out.push(make_line(items, meta, lo, breakpoint, first, break_before, last, 0));
}

/// Break a paragraph first-fit and append its lines. Nothing is justified.
pub fn append_greedy_fallback(
    items: &[Item],
    meta: &ParagraphMeta,
    line_width: u16,
    page_break_pending: &mut bool,
    out: &mut Vec<LineLayout>,
)
    ensures
        ({
            let g = greedy_all(
                items@,
                *meta,
                line_width as int,
                *old(page_break_pending),
                old(out)@,
            );
            &&& final(out)@ == g.lines
            &&& *final(page_break_pending) == g.pending
        }),
{
    let lw: u32 = line_width as u32;
    let before: usize = out.len();
    let n: usize = items.len();
    let mut start: usize = 0;
    let mut glue: Option<usize> = None;
    let mut cursor: u32 = 0;
    let mut i: usize = 0;
    let ghost pending = *page_break_pending;
    while i < n
        invariant
            i <= n == items@.len(),
            lw == line_width,
            before == old(out)@.len(),
            pending == *old(page_break_pending),
            before <= out@.len(),
            start <= i,
            glue matches Some(x) ==> start <= x < i,
            ({
                let g = greedy_run(
                    items@,
                    *meta,
                    line_width as int,
                    pending,
                    old(out)@,
                    i as int,
                );
                &&& g.start == start
                &&& g.glue == (match glue {
                    Some(x) => x as int,
                    None => -1,
                })
                &&& g.cursor == cursor
                &&& g.pending == *page_break_pending
                &&& g.lines == out@
            }),
        decreases items@.len() - i,
    {
        let it: Item = items[i];
        match it.kind() {
            ItemKind::Box => {
                cursor = add_u32(cursor, it.width);
                if cursor > lw {
                    let bp: usize = match glue {
                        Some(x) => x,
                        None => i,
                    };
                    let first: bool = out.len() == before;
                    emit_fallback_line(
                        items,
                        start,
                        bp,
                        meta,
                        page_break_pending,
                        first,
                        false,
                        out,
                    );
                    start = bp + 1;
                    glue = None;
                    cursor = sum_widths(items, start, i + 1);
                }
            },
            ItemKind::Glue => {
                cursor = add_u32(cursor, it.width);
                glue = Some(i);
            },
            ItemKind::Penalty => {
                if it.is_forced() {
                    let first: bool = out.len() == before;
                    emit_fallback_line(
                        items,
                        start,
                        i,
                        meta,
                        page_break_pending,
                        first,
                        true,
                        out,
                    );
                    start = i + 1;
                    glue = None;
                    cursor = 0;
                }
            },
        }
        i = i + 1;
    }
    if start < n {
        let first: bool = out.len() == before;
        emit_fallback_line(
            items,
            start,
            n - 1,
            meta,
            page_break_pending,
            first,
            true,
            out,
        );
    }
}

// ── image blocks ──────────────────────────────────────────────────

/// The origin line of an image: its record in the stream, and the reserved
/// height in units of four pixels.
pub open spec fn image_origin(
    meta: ParagraphMeta,
    reserved_h: u16,
    pending: bool,
) -> LineLayout {
    let units = (reserved_h + 3) / 4;
    LineLayout {
        start_byte: meta.image->0.start,
        end_byte: meta.image->0.end,
        flags: if pending {
            56
        } else {
            40
        },
        indent: 0,
        align: table::nibbles(0, table::min15(meta.block.space_above_qem)),
        extra: (if units < 255 {
            units
        } else {
            255
        }) as u8,
    }
}

/// A line that an image reserves behind its origin.
pub open spec fn image_filler() -> LineLayout {
    LineLayout { start_byte: 0, end_byte: 0, flags: 8, indent: 0, align: 0, extra: 0 }
}

/// The lines of an image block: the origin and its fillers.
pub open spec fn image_block(
    meta: ParagraphMeta,
    image_lines: u8,
    reserved_h: u16,
    pending: bool,
) -> Seq<LineLayout> {
    Seq::new(
        (if image_lines > 1 {
            image_lines as nat
        } else {
            1
        }),
        |k: int|
            if k == 0 {
                image_origin(meta, reserved_h, pending)
            } else {
                image_filler()
            },
    )
}

/// Append the lines of the image of `meta`; nothing happens without one.
pub fn append_image_block(
    meta: &ParagraphMeta,
    image_lines: u8,
    reserved_h: u16,
    page_break_pending: &mut bool,
    out: &mut Vec<LineLayout>,
) -> (done: Option<()>)
    ensures
        done is Some == meta.image is Some,
        meta.image is None ==> final(out)@ == old(out)@ && *final(page_break_pending) == *old(page_break_pending),
        meta.image is Some ==> final(out)@ == old(out)@ + image_block(
            *meta,
            image_lines,
            reserved_h,
            *old(page_break_pending),
        ) && !*final(page_break_pending),
{
    let img = match meta.image {
        Some(i) => i,
        None => {
            return None;
        },
    };
    let mut flags: u8 = LineLayout::FLAG_IMAGE + LineLayout::FLAG_PARAGRAPH_END;
    let ghost pending = *page_break_pending;
    if *page_break_pending {
        flags = flags + LineLayout::FLAG_PAGE_BREAK_BEFORE;
        *page_break_pending = false;
    }
    let units: u32 = (reserved_h as u32 + 3) / 4;
    let ghost block = image_block(*meta, image_lines, reserved_h, pending);
    out.push(
        LineLayout {
            start_byte: img.start,
            end_byte: img.end,
            flags,
            indent: 0,
            align: LineLayout::pack_align(
                Align::Default,
                meta.block.space_above_qem,
                Style::plain(),
            ),
            extra: if units < 255 {
                units as u8
            } else {
                255
            },
        },
    );
    proof {
        assert(out@ =~= old(out)@ + block.take(1));
    }
    let mut k: u8 = 1;
    while k < image_lines
        invariant
            1 <= k,
            k <= image_lines || k == 1,
            block == image_block(*meta, image_lines, reserved_h, pending),
            out@ == old(out)@ + block.take(k as int),
        decreases image_lines - k,
    {
        out.push(
            LineLayout {
                start_byte: 0,
                end_byte: 0,
                flags: LineLayout::FLAG_IMAGE,
                indent: 0,
                align: LineLayout::ALIGN_DEFAULT,
                extra: 0,
            },
        );
        proof {
            assert(out@ =~= old(out)@ + block.take(k + 1));
        }
        k = k + 1;
    }
    proof {
        assert(block.take(k as int) =~= block);
    }
    Some(())
}

} // verus!
