//! Typesetting pipeline: events to items to breaks to line records, one
//! paragraph per step, with reused working memory.

use crate::fonts;
use crate::layout::breaker;
use crate::layout::breaker::{BreakChoice, BreakConfig, BreakError, BreakScratch};
use crate::layout::breaker_laws;
use crate::layout::breaker_spec;
use crate::layout::convert;
use crate::layout::events::{Events, EventState};
use crate::layout::items;
use crate::layout::items::{Item, ParagraphEnd, ParagraphMeta};
use crate::layout::scan;
use crate::layout::scan::ImageRef;
use crate::layout::table::{LineLayout, MAX_LINES_PER_CHAPTER};
use crate::markup::Style;
use vstd::prelude::*;

verus! {

/// Pixels per left indent level.
pub const INDENT_PX: u32 = 24;

/// Height reserved for an image of unknown size.
pub const DEFAULT_IMG_H: u16 = 350;

// ── image budget ──────────────────────────────────────────────────

/// What governs the lines that an image reserves.
#[derive(Clone, Copy, Debug, PartialEq, Eq, Structural)]
pub struct ImageBudget {
    /// column width in pixels
    pub text_w: u16,
    /// cap on the height of an inline image
    pub inline_cap: u16,
    /// line height in pixels
    pub line_h: u16,
}

/// Finds the rendered height of an image whose record carries no size.
/// `None` means that it cannot tell.
pub trait ImageHeightHint: Sized {
    /// Asked about `src`, the hint may answer `answer`, and is `after` then. A
    /// hint that does not say may answer anything.
    open spec fn answers(self, src: Seq<u8>, answer: Option<u16>, after: Self) -> bool {
        true
    }

    /// `src` is the image's path as it stands in the stream.
    fn rendered_height(&mut self, src: &[u8]) -> (h: Option<u16>)
        ensures
            old(self).answers(src@, h, *final(self)),
    ;
}

/// A hint that never knows.
pub struct NoImageHint;

impl ImageHeightHint for NoImageHint {
    open spec fn answers(self, src: Seq<u8>, answer: Option<u16>, after: NoImageHint) -> bool {
        answer is None
    }

    fn rendered_height(&mut self, src: &[u8]) -> (h: Option<u16>) {
        None
    }
}

pub open spec fn max_int(a: int, b: int) -> int {
    if a >= b {
        a
    } else {
        b
    }
}

pub open spec fn min_int(a: int, b: int) -> int {
    if a <= b {
        a
    } else {
        b
    }
}

/// `a / b`, rounded up.
pub open spec fn ceil_div(a: int, b: int) -> int {
    (a + b - 1) / b
}

/// The cap on an image's height: at least one line.
pub open spec fn height_cap(budget: ImageBudget) -> int {
    max_int(budget.inline_cap as int, max_int(budget.line_h as int, 1))
}

/// The height that an image reserves; `peeked` is what the hint says.
///
/// With both dimensions in the record the image is scaled down by the least
/// integer that makes it fit; otherwise the hint counts, then the height of
/// the record, then a default.
pub open spec fn reserved_height(
    image: Option<ImageRef>,
    budget: ImageBudget,
    peeked: Option<u16>,
) -> int {
    let cap = height_cap(budget);
    match image {
        None => min_int(DEFAULT_IMG_H as int, cap),
        Some(img) => if img.attr_w > 0 && img.attr_h > 0 {
            min_int(img.attr_h as int / image_scale(img, budget), cap)
        } else if peeked is Some {
            max_int(min_int(peeked->0 as int, cap), budget.line_h as int)
        } else if img.attr_h > 0 {
            min_int(img.attr_h as int, cap)
        } else {
            min_int(DEFAULT_IMG_H as int, cap)
        },
    }
}

/// The least integer by which both dimensions fit the column and the cap.
pub open spec fn image_scale(img: ImageRef, budget: ImageBudget) -> int {
    max_int(
        max_int(
            ceil_div(img.attr_w as int, max_int(budget.text_w as int, 1)),
            ceil_div(img.attr_h as int, height_cap(budget)),
        ),
        1,
    )
}

/// Lines that hold `reserved` pixels: at least one, at most 255.
pub open spec fn lines_for(reserved: int, line_h: u16) -> int {
    max_int(min_int(ceil_div(reserved, max_int(line_h as int, 1)), 255), 1)
}

pub fn div_up(a: u16, b: u16) -> (q: u16)
    requires
        b > 0,
    ensures
        q == ceil_div(a as int, b as int),
{
    proof {
        assert(0 <= (a + b - 1) / b as int <= 65535) by (nonlinear_arith)
            requires
                1 <= b <= 65535,
                0 <= a <= 65535,
        ;
    }
    ((a as u32 + b as u32 - 1) / b as u32) as u16
}

fn max16(a: u16, b: u16) -> (m: u16)
    ensures
        m == max_int(a as int, b as int),
{
    if a >= b {
        a
    } else {
        b
    }
}

fn min16(a: u16, b: u16) -> (m: u16)
    ensures
        m == min_int(a as int, b as int),
{
    if a <= b {
        a
    } else {
        b
    }
}

/// The height that an image reserves, given what the hint says.
pub fn reserved_height_with(
    image: Option<ImageRef>,
    budget: ImageBudget,
    peeked: Option<u16>,
) -> (h: u16)
    ensures
        h == reserved_height(image, budget, peeked),
{
    let cap: u16 = max16(budget.inline_cap, max16(budget.line_h, 1));
    match image {
        None => min16(DEFAULT_IMG_H, cap),
        Some(img) => {
            if img.attr_w > 0 && img.attr_h > 0 {
                let sw: u16 = div_up(img.attr_w, max16(budget.text_w, 1));
                let sh: u16 = div_up(img.attr_h, cap);
                let scale: u16 = max16(max16(sw, sh), 1);
                return min16(img.attr_h / scale, cap);
            }
            match peeked {
                Some(h) => max16(min16(h, cap), budget.line_h),
                None => if img.attr_h > 0 {
                    min16(img.attr_h, cap)
                } else {
                    min16(DEFAULT_IMG_H, cap)
                },
            }
        },
    }
}

/// The record is there and lacks a dimension.
pub open spec fn lacks_size(image: Option<ImageRef>) -> bool {
    image matches Some(img) && (img.attr_w == 0 || img.attr_h == 0)
}

/// What a hint that was `before` and is `after` said about an image with the
/// path `src`: it is asked, once, about an image whose record lacks a
/// dimension, and left alone otherwise.
pub open spec fn asked<H: ImageHeightHint>(
    image: Option<ImageRef>,
    before: H,
    src: Seq<u8>,
    peeked: Option<u16>,
    after: H,
) -> bool {
    if lacks_size(image) {
        before.answers(src, peeked, after)
    } else {
        peeked is None && after == before
    }
}

/// Lines to reserve for an image, and the height they were derived from.
pub fn image_lines_for<H: ImageHeightHint>(
    image: Option<ImageRef>,
    budget: ImageBudget,
    src: &[u8],
    hint: &mut H,
) -> (r: (u8, u16))
    ensures
        exists|peeked: Option<u16>|
            {
                &&& r.1 == #[trigger] reserved_height(image, budget, peeked)
                &&& r.0 == lines_for(r.1 as int, budget.line_h)
                &&& asked(image, *old(hint), src@, peeked, *final(hint))
            },
{
    let ask: bool = match image {
        Some(img) => img.attr_w == 0 || img.attr_h == 0,
        None => false,
    };
    let peeked: Option<u16> = if ask {
        hint.rendered_height(src)
    } else {
        None
    };
    let lh: u16 = max16(budget.line_h, 1);
    let reserved: u16 = reserved_height_with(image, budget, peeked);
    let lines: u16 = max16(min16(div_up(reserved, lh), 255), 1);
    proof {
        assert(reserved == reserved_height(image, budget, peeked));
        assert(asked(image, *old(hint), src@, peeked, *hint));
    }
    (lines as u8, reserved)
}

/// A reserved height never exceeds the cap, its lines hold it unless they are
/// the most there can be, and an image scaled by its record fits the column.
pub proof fn law_images_fit(img: ImageRef, budget: ImageBudget, peeked: Option<u16>)
    ensures
        ({
            let h = reserved_height(Some(img), budget, peeked);
            let n = lines_for(h, budget.line_h);
            &&& 0 <= h <= height_cap(budget)
            &&& 1 <= n <= 255
            &&& n < 255 ==> h <= n * max_int(budget.line_h as int, 1)
            &&& img.attr_w > 0 && img.attr_h > 0 ==> img.attr_w as int / image_scale(img, budget)
                <= max_int(budget.text_w as int, 1)
        }),
{
    let h = reserved_height(Some(img), budget, peeked);
    let lh = max_int(budget.line_h as int, 1);
    let scale = image_scale(img, budget);
    let tw = max_int(budget.text_w as int, 1);
    assert(0 <= img.attr_h as int / scale <= img.attr_h) by (nonlinear_arith)
        requires
            scale >= 1,
            img.attr_h >= 0,
    ;
    let q = ceil_div(h, lh);
    assert(h <= q * lh) by (nonlinear_arith)
        requires
            q == (h + lh - 1) / lh,
            lh >= 1,
    ;
    let sw = ceil_div(img.attr_w as int, tw);
    assert(img.attr_w <= sw * tw) by (nonlinear_arith)
        requires
            sw == (img.attr_w + tw - 1) / tw,
            tw >= 1,
    ;
    assert(img.attr_w as int / scale <= tw) by (nonlinear_arith)
        requires
            img.attr_w <= sw * tw,
            scale >= sw,
            scale >= 1,
            tw >= 1,
    ;
    if q < 1 {
        assert(h <= lh) by (nonlinear_arith)
            requires
                h <= q * lh,
                q < 1,
                lh >= 1,
        ;
    }
}

// ── placing a paragraph ───────────────────────────────────────────

#[derive(Clone, Copy, Debug, PartialEq, Eq, Structural)]
pub enum TypesetError {
    /// the chapter has too many lines
    LineCapExceeded,
    /// there is nothing to set
    EmptyChapter,
    /// the line buffers could not grow
    OutOfMemory,
}

#[derive(Clone, Copy, Debug, PartialEq, Eq, Structural)]
pub enum StepOutcome {
    More,
    Done,
}

/// `blocks` made as long as `n` with zeros.
pub open spec fn padded(blocks: Seq<u8>, n: int) -> Seq<u8> {
    Seq::new(
        max_int(blocks.len() as int, n) as nat,
        |k: int|
            if k < blocks.len() {
                blocks[k]
            } else {
                0u8
            },
    )
}

/// `n` zeros behind `blocks`.
pub open spec fn zeros_behind(blocks: Seq<u8>, n: int) -> Seq<u8> {
    Seq::new(
        (blocks.len() + n) as nat,
        |k: int|
            if k < blocks.len() {
                blocks[k]
            } else {
                0u8
            },
    )
}

/// What has been set so far.
pub struct Sheet {
    pub lines: Seq<LineLayout>,
    pub blocks: Seq<u8>,
    pub pending: bool,
}

/// The sheet with an image block of `n` lines: the block's length stands at
/// its origin, zeros at its fillers.
pub open spec fn with_image(s: Sheet, meta: ParagraphMeta, n: u8, reserved: u16) -> Sheet {
    let block = convert::image_block(meta, n, reserved, s.pending);
    Sheet {
        lines: s.lines + block,
        blocks: zeros_behind(
            padded(s.blocks, s.lines.len() as int).push(n),
            block.len() - 1,
        ),
        pending: false,
    }
}

/// The sheet with the lines of a paragraph: those of the breaker, or
/// first-fit lines where the breaker gave none.
pub open spec fn with_text(
    s: Sheet,
    items: Seq<Item>,
    meta: ParagraphMeta,
    line_width: u16,
    choices: Option<Seq<BreakChoice>>,
) -> Sheet {
    match choices {
        Some(c) => Sheet {
            lines: s.lines + convert::kp_lines(items, c, meta, s.pending),
            blocks: zeros_behind(padded(s.blocks, s.lines.len() as int), c.len() as int),
            pending: s.pending && c.len() == 0,
        },
        None => {
            let g = convert::greedy_all(items, meta, line_width as int, s.pending, s.lines);
            Sheet {
                lines: g.lines,
                blocks: zeros_behind(
                    padded(s.blocks, s.lines.len() as int),
                    g.lines.len() - s.lines.len(),
                ),
                pending: g.pending,
            }
        },
    }
}

/// The sheet behind a paragraph that a page break ends.
pub open spec fn with_end(s: Sheet, meta: ParagraphMeta) -> Sheet {
    Sheet { pending: s.pending || meta.end_kind == ParagraphEnd::PageBreakAfter, ..s }
}

/// Fill the block table with zeros up to `target`.
fn ensure_parallel(blocks: &mut Vec<u8>, target: usize)
    ensures
        final(blocks)@ == padded(old(blocks)@, target as int),
{
    proof {
        assert(blocks@ =~= padded(blocks@, blocks@.len() as int));
    }
    let ghost at = blocks@.len() as int;
    while blocks.len() < target
        invariant
            old(blocks)@.len() <= blocks@.len(),
            blocks@ == padded(old(blocks)@, blocks@.len() as int),
            blocks@.len() <= target || blocks@.len() == old(blocks)@.len(),
        decreases target - blocks@.len(),
    {
        blocks.push(0);
        proof {
            assert(blocks@ =~= padded(old(blocks)@, blocks@.len() as int));
        }
    }
    proof {
        assert(blocks@ =~= padded(old(blocks)@, target as int));
    }
}

/// Append `n` zeros.
fn push_zeros(blocks: &mut Vec<u8>, n: usize)
    ensures
        final(blocks)@ == zeros_behind(old(blocks)@, n as int),
{
    let mut k: usize = 0;
    proof {
        assert(blocks@ =~= zeros_behind(blocks@, 0));
    }
    while k < n
        invariant
            k <= n,
            blocks@ == zeros_behind(old(blocks)@, k as int),
        decreases n - k,
    {
        blocks.push(0);
        proof {
            assert(blocks@ =~= zeros_behind(old(blocks)@, k + 1));
        }
        k = k + 1;
    }
}

/// Place an image block of `n` lines.
pub fn place_image(
    meta: &ParagraphMeta,
    n: u8,
    reserved: u16,
    pending: &mut bool,
    out_lines: &mut Vec<LineLayout>,
    out_blocks: &mut Vec<u8>,
)
    requires
        meta.image is Some,
        n >= 1,
    ensures
        (Sheet {
            lines: final(out_lines)@,
            blocks: final(out_blocks)@,
            pending: *final(pending),
        }) == with_image(
            (Sheet {
                lines: old(out_lines)@,
                blocks: old(out_blocks)@,
                pending: *old(pending),
            }),
            *meta,
            n,
            reserved,
        ),
{
    let before: usize = out_lines.len();
    convert::append_image_block(meta, n, reserved, pending, out_lines);
    ensure_parallel(out_blocks, before);
    out_blocks.push(n);
    push_zeros(out_blocks, n as usize - 1);
}

/// Place the lines of a paragraph: those of the breaker in `choices` if it
/// succeeded (`broken`), first-fit lines otherwise.
pub fn place_text(
    items: &[Item],
    meta: &ParagraphMeta,
    line_width: u16,
    broken: bool,
    choices: &[BreakChoice],
    pending: &mut bool,
    out_lines: &mut Vec<LineLayout>,
    out_blocks: &mut Vec<u8>,
)
    requires
        broken ==> convert::ascending(choices@, items@.len() as int),
    ensures
        (Sheet {
            lines: final(out_lines)@,
            blocks: final(out_blocks)@,
            pending: *final(pending),
        }) == with_text(
            (Sheet {
                lines: old(out_lines)@,
                blocks: old(out_blocks)@,
                pending: *old(pending),
            }),
            items@,
            *meta,
            line_width,
            if broken {
                Some(choices@)
            } else {
                None
            },
        ),
{
    let before: usize = out_lines.len();
    if broken {
        convert::append_lines(items, choices, meta, pending, out_lines);
    } else {
        convert::append_greedy_fallback(items, meta, line_width, pending, out_lines);
        proof {
            convert::lemma_greedy_grows(
                items@,
                *meta,
                line_width as int,
                *old(pending),
                old(out_lines)@,
                items@.len() as int,
            );
        }
    }
    ensure_parallel(out_blocks, before);
    push_zeros(out_blocks, out_lines.len() - before);
}

fn check_cap(out_lines: &Vec<LineLayout>) -> (r: Result<(), TypesetError>)
    ensures
        r == if out_lines@.len() > MAX_LINES_PER_CHAPTER {
            Err(TypesetError::LineCapExceeded)
        } else {
            Ok(())
        },
{
    if out_lines.len() > MAX_LINES_PER_CHAPTER {
        Err(TypesetError::LineCapExceeded)
    } else {
        Ok(())
    }
}

/// Ask for room for more lines in both tables, which stay as they are.
fn try_reserve_out(
    out_lines: &mut Vec<LineLayout>,
    out_blocks: &mut Vec<u8>,
    additional: usize,
) -> (r: Result<(), TypesetError>)
    ensures
        final(out_lines)@ == old(out_lines)@,
        final(out_blocks)@ == old(out_blocks)@,
        r is Ok || r == Err::<(), TypesetError>(TypesetError::OutOfMemory),
{
    if out_lines.try_reserve(additional).is_err() || out_blocks.try_reserve(additional).is_err() {
        return Err(TypesetError::OutOfMemory);
    }
    Ok(())
}

// ── pipeline ──────────────────────────────────────────────────────

/// Pen movement for a character after another one in a face.
pub type FaceAdvance = spec_fn(Option<char>, char, fonts::Style) -> i16;

/// `f` always moves the pen as `adv` says.
pub open spec fn face_measures<F: Fn(Option<char>, char, fonts::Style) -> i16>(
    f: F,
    adv: FaceAdvance,
) -> bool {
    forall|p: Option<char>, c: char, s: fonts::Style, r: i16| #[trigger]
        f.ensures((p, c, s), r) ==> r == adv(p, c, s)
}

/// `f` may be called on anything.
pub open spec fn face_callable<F: Fn(Option<char>, char, fonts::Style) -> i16>(f: F) -> bool {
    forall|p: Option<char>, c: char, s: fonts::Style| #[trigger] f.requires((p, c, s))
}

/// Measuring by inline style: the face of the style measures.
pub open spec fn by_face(adv: FaceAdvance) -> items::Advance {
    |p: Option<char>, c: char, s: Style| adv(p, c, fonts::markup_face(s))
}

/// The line width that the block's indent leaves.
pub open spec fn column_width(budget: ImageBudget, left: u8) -> u16 {
    if budget.text_w > INDENT_PX * left {
        (budget.text_w - INDENT_PX * left) as u16
    } else {
        0
    }
}

/// The breaker's configuration for a paragraph.
pub open spec fn config_for(budget: ImageBudget, meta: ParagraphMeta) -> BreakConfig {
    BreakConfig {
        line_width: column_width(budget, meta.block.left),
        ..BreakConfig::spec_default()
    }
}

/// `choices` is what the two-pass breaker can give for the paragraph,
/// `None` standing for a failure.
pub open spec fn can_break_as(
    items: Seq<Item>,
    cfg: BreakConfig,
    choices: Option<Seq<BreakChoice>>,
) -> bool {
    exists|room1: bool, room2: bool, r: Result<(), BreakError>, after: Seq<BreakChoice>|
        #[trigger] breaker::delivers_two_pass(
            items,
            cfg,
            room1,
            room2,
            Seq::<BreakChoice>::empty(),
            r,
            after,
        ) && choices == (if r is Ok {
            Some(after)
        } else {
            None
        })
}

/// What a step is told from outside: what the image hint said, what the
/// breaker gave, and whether memory for the lines was granted.
pub struct Told {
    pub peeked: Option<u16>,
    pub choices: Option<Seq<BreakChoice>>,
    pub granted: bool,
}

/// What the typesetter counts.
pub struct Counts {
    pub fallbacks: u32,
    pub paragraphs: u32,
    pub images: u32,
}

/// The paragraph has text to set.
pub open spec fn has_text(items: Seq<Item>, meta: ParagraphMeta) -> bool {
    meta.end_kind != ParagraphEnd::ImageBlock && items.len() > 0
}

/// The sheet with the paragraph on it.
pub open spec fn placed(
    items: Seq<Item>,
    meta: ParagraphMeta,
    budget: ImageBudget,
    t: Told,
    s0: Sheet,
) -> Sheet {
    let reserved = reserved_height(meta.image, budget, t.peeked);
    if meta.end_kind == ParagraphEnd::ImageBlock {
        with_image(s0, meta, lines_for(reserved, budget.line_h) as u8, reserved as u16)
    } else {
        with_text(s0, items, meta, config_for(budget, meta).line_width, t.choices)
    }
}

/// The sheet `s0` once `full` is to be what is on it: nothing is set without
/// memory, and a chapter with too many lines is an error.
pub open spec fn settled(s0: Sheet, full: Sheet, meta: ParagraphMeta, granted: bool) -> (
    Sheet,
    Result<StepOutcome, TypesetError>,
) {
    if !granted {
        (s0, Err(TypesetError::OutOfMemory))
    } else if full.lines.len() > MAX_LINES_PER_CHAPTER {
        (full, Err(TypesetError::LineCapExceeded))
    } else {
        (with_end(full, meta), Ok(StepOutcome::More))
    }
}

/// The sheet behind a paragraph, and how its step ends.
pub open spec fn stepped(
    items: Seq<Item>,
    meta: ParagraphMeta,
    budget: ImageBudget,
    t: Told,
    s0: Sheet,
) -> (Sheet, Result<StepOutcome, TypesetError>) {
    if has_text(items, meta) || meta.end_kind == ParagraphEnd::ImageBlock {
        settled(s0, placed(items, meta, budget, t, s0), meta, t.granted)
    } else {
        (with_end(s0, meta), Ok(StepOutcome::More))
    }
}

/// The counts behind a paragraph: one more paragraph, one more that was broken
/// first-fit, and one more image.
pub open spec fn counted(items: Seq<Item>, meta: ParagraphMeta, t: Told, c: Counts) -> Counts {
    Counts {
        fallbacks: if has_text(items, meta) && t.choices is None {
            count_up(c.fallbacks)
        } else {
            c.fallbacks
        },
        paragraphs: count_up(c.paragraphs),
        images: if meta.end_kind == ParagraphEnd::ImageBlock && t.granted {
            count_up(c.images)
        } else {
            c.images
        },
    }
}

/// How a step that consumed the paragraph `meta` with `items` ends: `s0` and
/// `s1` are the sheet before and after it, `t` is what it was told.
pub open spec fn step_post(
    items: Seq<Item>,
    meta: ParagraphMeta,
    budget: ImageBudget,
    t: Told,
    s0: Sheet,
    s1: Sheet,
    r: Result<StepOutcome, TypesetError>,
) -> bool {
    &&& has_text(items, meta) ==> can_break_as(items, config_for(budget, meta), t.choices)
    &&& (s1, r) == stepped(items, meta, budget, t, s0)
}

/// The path of an image in the stream.
pub open spec fn image_src(bytes: Seq<u8>, image: Option<ImageRef>) -> Seq<u8> {
    match image {
        None => Seq::empty(),
        Some(img) => {
            let len = bytes.len() as int;
            let from = scan::clip(len, img.path_start as int);
            let n = scan::copy_len(len, img.path_start as int, img.path_len as int);
            bytes.subrange(from, from + n)
        },
    }
}

/// What the hint said in a step: an image that ends the paragraph is asked
/// about by its path, any other paragraph leaves the hint alone.
pub open spec fn heard<H: ImageHeightHint>(
    bytes: Seq<u8>,
    meta: ParagraphMeta,
    before: H,
    peeked: Option<u16>,
    after: H,
) -> bool {
    if meta.end_kind == ParagraphEnd::ImageBlock {
        asked(meta.image, before, image_src(bytes, meta.image), peeked, after)
    } else {
        peeked is None && after == before
    }
}

/// `items`, `meta` and `after` are the paragraph at `st`, its description and
/// the state behind it, whenever `f` measures the same way every time.
pub open spec fn built<F: Fn(Option<char>, char, fonts::Style) -> i16>(
    f: F,
    em_px: u16,
    bytes: Seq<u8>,
    st: EventState,
    items: Seq<Item>,
    meta: ParagraphMeta,
    after: EventState,
) -> bool {
    forall|adv: FaceAdvance| #[trigger]
        face_measures(f, adv) ==> (items, meta, after) == items::paragraph(
            by_face(adv),
            bytes,
            em_px,
            st,
            items::builder_at(st),
            Seq::<Item>::empty(),
        )
}

/// Working memory of the typesetter, and what it has counted.
pub struct LayoutPipeline {
    pub items: Vec<Item>,
    pub choices: Vec<BreakChoice>,
    pub scratch: BreakScratch,
    /// paragraphs that were broken first-fit
    pub fallback_count: u32,
    pub paragraphs: u32,
    pub images: u32,
    /// a page break is due before the next line
    pub page_break_pending: bool,
}

impl Default for LayoutPipeline {
    fn default() -> (p: LayoutPipeline)
        ensures
            p.is_fresh(),
    {
        LayoutPipeline::new()
    }
}

/// `x` counted up, as far as 32 bits go.
pub open spec fn count_up(x: u32) -> u32 {
    if x < u32::MAX {
        (x + 1) as u32
    } else {
        x
    }
}

impl LayoutPipeline {
    pub open spec fn is_fresh(self) -> bool {
        &&& self.items@.len() == 0
        &&& self.choices@.len() == 0
        &&& self.scratch.is_clear()
        &&& self.fallback_count == 0
        &&& self.paragraphs == 0
        &&& self.images == 0
        &&& !self.page_break_pending
    }

    pub fn new() -> (p: LayoutPipeline)
        ensures
            p.is_fresh(),
    {
        LayoutPipeline {
            items: Vec::new(),
            choices: Vec::new(),
            scratch: BreakScratch::new(),
            fallback_count: 0,
            paragraphs: 0,
            images: 0,
            page_break_pending: false,
        }
    }

    /// Let go of the working memory at the end of a chapter.
    pub fn release(&mut self)
        ensures
            final(self).items@.len() == 0,
            final(self).choices@.len() == 0,
            final(self).scratch.is_clear(),
            final(self).fallback_count == old(self).fallback_count,
            final(self).paragraphs == old(self).paragraphs,
            final(self).images == old(self).images,
            final(self).page_break_pending == old(self).page_break_pending,
    {
        self.items = Vec::new();
        self.choices = Vec::new();
        self.scratch.release();
    }

    fn post_step(&mut self, meta: &ParagraphMeta) -> (r: Result<StepOutcome, TypesetError>)
        ensures
            r == Ok::<StepOutcome, TypesetError>(StepOutcome::More),
            *final(self) == (LayoutPipeline {
                page_break_pending: old(self).page_break_pending || meta.end_kind
                    == ParagraphEnd::PageBreakAfter,
                ..*old(self)
            }),
    {
        if meta.end_kind == ParagraphEnd::PageBreakAfter {
            self.page_break_pending = true;
        }
        Ok(StepOutcome::More)
    }

    /// Break the paragraph in `items`; whether the breaker succeeded.
    fn break_items(&mut self, cfg: &BreakConfig) -> (ok: bool)
        requires
            breaker_spec::shrinks_within_width(old(self).items@),
            cfg.max_items == 2048,
            old(self).choices@.len() == 0,
        ensures
            final(self).items@ == old(self).items@,
            final(self).fallback_count == old(self).fallback_count,
            final(self).paragraphs == old(self).paragraphs,
            final(self).images == old(self).images,
            final(self).page_break_pending == old(self).page_break_pending,
            can_break_as(
                old(self).items@,
                *cfg,
                if ok {
                    Some(final(self).choices@)
                } else {
                    None
                },
            ),
            ok ==> convert::ascending(final(self).choices@, old(self).items@.len() as int),
    {
        let r = breaker::break_paragraph_with_fallback(
            self.items.as_slice(),
            cfg,
            &mut self.scratch,
            &mut self.choices,
        );
        proof {
            let none = Seq::<BreakChoice>::empty();
            assert(old(self).choices@ =~= none);
            let (room1, room2) = choose|room1: bool, room2: bool|
                #[trigger] breaker::delivers_two_pass(
                    self.items@,
                    *cfg,
                    room1,
                    room2,
                    none,
                    r,
                    self.choices@,
                );
            assert(breaker::delivers_two_pass(
                self.items@,
                *cfg,
                room1,
                room2,
                none,
                r,
                self.choices@,
            ));
            if r is Ok {
                let (first, out) = breaker::delivered(
                    breaker::outcome(self.items@, *cfg, true, room1),
                    none,
                );
                if breaker::needs_retry(first, out, cfg.line_width) {
                    breaker_laws::law_lines_follow_one_another(
                        self.items@,
                        cfg.spec_fallback(),
                        true,
                    );
                    assert(self.choices@ =~= breaker_spec::paragraph_lines(
                        self.items@,
                        cfg.spec_fallback(),
                        true,
                    )->0);
                } else {
                    breaker_laws::law_lines_follow_one_another(self.items@, *cfg, true);
                    assert(self.choices@ =~= breaker_spec::paragraph_lines(
                        self.items@,
                        *cfg,
                        true,
                    )->0);
                }
            }
        }
        r.is_ok()
    }
}

/// Copy the path of an image from the stream into `dst`.
fn read_image_src(events: &Events<'_>, image: Option<ImageRef>, dst: &mut Vec<u8>)
    requires
        events.wf(),
    ensures
        final(dst)@ == image_src(events.bytes(), image),
{
    match image {
        None => {
            dst.clear();
            proof {
                assert(dst@ =~= Seq::<u8>::empty());
            }
        },
        Some(img) => {
            events.scanner.read_into(img.path_start, dst, img.path_len as usize);
        },
    }
}

/// What is to be placed: an image of so many lines, or the paragraph's text by
/// the lines of the breaker or first-fit.
#[derive(Clone, Copy, Debug, PartialEq, Eq, Structural)]
pub enum Placing {
    Image { lines: u8, reserved: u16 },
    Lines { line_width: u16 },
    FirstFit { line_width: u16 },
}

impl LayoutPipeline {
    /// The sheet with the paragraph in `items` placed.
    pub open spec fn with_placing(self, s: Sheet, meta: ParagraphMeta, p: Placing) -> Sheet {
        match p {
            Placing::Image { lines, reserved } => with_image(s, meta, lines, reserved),
            Placing::Lines { line_width } => with_text(
                s,
                self.items@,
                meta,
                line_width,
                Some(self.choices@),
            ),
            Placing::FirstFit { line_width } => with_text(s, self.items@, meta, line_width, None),
        }
    }

    /// Place the paragraph in `items` if memory for it was granted.
    pub fn settle(
        &mut self,
        meta: &ParagraphMeta,
        p: Placing,
        granted: bool,
        out_lines: &mut Vec<LineLayout>,
        out_blocks: &mut Vec<u8>,
    ) -> (r: Result<StepOutcome, TypesetError>)
        requires
            p matches Placing::Image { lines, .. } ==> meta.image is Some && lines >= 1,
            p is Lines ==> convert::ascending(old(self).choices@, old(self).items@.len() as int),
        ensures
            (final(self).sheet(final(out_lines)@, final(out_blocks)@), r) == settled(
                old(self).sheet(old(out_lines)@, old(out_blocks)@),
                old(self).with_placing(
                    old(self).sheet(old(out_lines)@, old(out_blocks)@),
                    *meta,
                    p,
                ),
                *meta,
                granted,
            ),
            *final(self) == (LayoutPipeline {
                page_break_pending: final(self).page_break_pending,
                images: if p is Image && granted {
                    count_up(old(self).images)
                } else {
                    old(self).images
                },
                ..*old(self)
            }),
    {
        if !granted {
            return Err(TypesetError::OutOfMemory);
        }
        match p {
            Placing::Image { lines, reserved } => {
                place_image(
                    meta,
                    lines,
                    reserved,
                    &mut self.page_break_pending,
                    out_lines,
                    out_blocks,
                );
                self.images = self.images.saturating_add(1);
            },
            Placing::Lines { line_width } => {
                place_text(
                    self.items.as_slice(),
                    meta,
                    line_width,
                    true,
                    self.choices.as_slice(),
                    &mut self.page_break_pending,
                    out_lines,
                    out_blocks,
                );
            },
            Placing::FirstFit { line_width } => {
                place_text(
                    self.items.as_slice(),
                    meta,
                    line_width,
                    false,
                    self.choices.as_slice(),
                    &mut self.page_break_pending,
                    out_lines,
                    out_blocks,
                );
            },
        }
        if let Err(e) = check_cap(out_lines) {
            return Err(e);
        }
        self.post_step(meta)
    }

    /// Set the image that ends a paragraph.
    fn set_image<H: ImageHeightHint>(
        &mut self,
        meta: &ParagraphMeta,
        src: &[u8],
        budget: ImageBudget,
        hint: &mut H,
        out_lines: &mut Vec<LineLayout>,
        out_blocks: &mut Vec<u8>,
    ) -> (r: Result<StepOutcome, TypesetError>)
        requires
            meta.image is Some,
            meta.end_kind == ParagraphEnd::ImageBlock,
        ensures
            final(self).items@ == old(self).items@,
            exists|t: Told|
                {
                    &&& #[trigger] step_post(
                        old(self).items@,
                        *meta,
                        budget,
                        t,
                        old(self).sheet(old(out_lines)@, old(out_blocks)@),
                        final(self).sheet(final(out_lines)@, final(out_blocks)@),
                        r,
                    )
                    &&& asked(meta.image, *old(hint), src@, t.peeked, *final(hint))
                    &&& final(self).counts() == (Counts {
                        images: if t.granted {
                            count_up(old(self).images)
                        } else {
                            old(self).images
                        },
                        ..old(self).counts()
                    })
                },
    {
        let (n, reserved): (u8, u16) = image_lines_for(meta.image, budget, src, hint);
        let ghost peeked = choose|peeked: Option<u16>|
            {
                &&& reserved == #[trigger] reserved_height(meta.image, budget, peeked)
                &&& n == lines_for(reserved as int, budget.line_h)
                &&& asked(meta.image, *old(hint), src@, peeked, *hint)
            };
        let granted: bool = try_reserve_out(out_lines, out_blocks, n as usize + 1).is_ok();
        let r = self.settle(
            meta,
            Placing::Image { lines: n, reserved },
            granted,
            out_lines,
            out_blocks,
        );
        proof {
            let t = Told { peeked, choices: None, granted };
            assert(step_post(
                old(self).items@,
                *meta,
                budget,
                t,
                old(self).sheet(old(out_lines)@, old(out_blocks)@),
                self.sheet(out_lines@, out_blocks@),
                r,
            ));
        }
        r
    }

    /// Set the text of a paragraph.
    fn set_text(
        &mut self,
        meta: &ParagraphMeta,
        budget: ImageBudget,
        out_lines: &mut Vec<LineLayout>,
        out_blocks: &mut Vec<u8>,
    ) -> (r: Result<StepOutcome, TypesetError>)
        requires
            meta.end_kind != ParagraphEnd::ImageBlock,
            breaker_spec::shrinks_within_width(old(self).items@),
            old(self).choices@.len() == 0,
        ensures
            final(self).items@ == old(self).items@,
            exists|t: Told|
                {
                    &&& #[trigger] step_post(
                        old(self).items@,
                        *meta,
                        budget,
                        t,
                        old(self).sheet(old(out_lines)@, old(out_blocks)@),
                        final(self).sheet(final(out_lines)@, final(out_blocks)@),
                        r,
                    )
                    &&& t.peeked is None
                    &&& final(self).counts() == (Counts {
                        fallbacks: if has_text(old(self).items@, *meta) && t.choices is None {
                            count_up(old(self).fallback_count)
                        } else {
                            old(self).fallback_count
                        },
                        ..old(self).counts()
                    })
                },
    {
        let ghost s0 = self.sheet(out_lines@, out_blocks@);
        if self.items.len() == 0 {
            let r = self.post_step(meta);
            proof {
                let t = Told { peeked: None, choices: None, granted: true };
                let s1 = self.sheet(out_lines@, out_blocks@);
                assert(step_post(self.items@, *meta, budget, t, s0, s1, r));
            }
            return r;
        }
        let indent: u32 = INDENT_PX * meta.block.left as u32;
        let line_width: u16 = budget.text_w.saturating_sub(indent as u16);
        let cfg: BreakConfig = BreakConfig::default().with_line_width(line_width);
        proof {
            assert(cfg == config_for(budget, *meta));
        }
        let broken: bool = self.break_items(&cfg);
        let ghost choices: Option<Seq<BreakChoice>> = if broken {
            Some(self.choices@)
        } else {
            None
        };
        let room: usize = if broken {
            self.choices.len()
        } else {
            self.fallback_count = self.fallback_count.saturating_add(1);
            // at most a line for every item, and the one behind them
            self.items.len().saturating_add(1)
        };
        let granted: bool = try_reserve_out(out_lines, out_blocks, room).is_ok();
        let p = if broken {
            Placing::Lines { line_width }
        } else {
            Placing::FirstFit { line_width }
        };
        let r = self.settle(meta, p, granted, out_lines, out_blocks);
        proof {
            let t = Told { peeked: None, choices, granted };
            let s1 = self.sheet(out_lines@, out_blocks@);
            assert(step_post(self.items@, *meta, budget, t, s0, s1, r));
        }
        r
    }
}

impl LayoutPipeline {
    pub open spec fn sheet(self, lines: Seq<LineLayout>, blocks: Seq<u8>) -> Sheet {
        Sheet { lines, blocks, pending: self.page_break_pending }
    }

    pub open spec fn counts(self) -> Counts {
        Counts {
            fallbacks: self.fallback_count,
            paragraphs: self.paragraphs,
            images: self.images,
        }
    }

    /// Set one paragraph: append its line records to `out_lines` and, parallel
    /// to them, the length of every image block at its origin and zeros
    /// elsewhere to `out_image_blocks`.
    ///
    /// The paragraph is the one that the stream holds at its position. What
    /// becomes of it depends on the image hint and on the memory that is
    /// granted; `image_lines_for` and `settle` say what each answer gives.
    pub fn step<F: Fn(Option<char>, char, fonts::Style) -> i16, H: ImageHeightHint>(
        &mut self,
        events: &mut Events<'_>,
        advance: &F,
        em_px: u16,
        budget: ImageBudget,
        hint: &mut H,
        out_lines: &mut Vec<LineLayout>,
        out_image_blocks: &mut Vec<u8>,
    ) -> (r: Result<StepOutcome, TypesetError>)
        requires
            old(events).wf(),
            face_callable(*advance),
        ensures
            final(events).wf(),
            final(events).bytes() == old(events).bytes(),
            old(events).state().pos == old(events).bytes().len() ==> {
                &&& r == Ok::<StepOutcome, TypesetError>(StepOutcome::Done)
                &&& final(events).state() == old(events).state()
                &&& final(out_lines)@ == old(out_lines)@
                &&& final(out_image_blocks)@ == old(out_image_blocks)@
                &&& *final(self) == *old(self)
                &&& *final(hint) == *old(hint)
            },
            old(events).state().pos < old(events).bytes().len() ==> {
                &&& final(events).state().pos > old(events).state().pos
                &&& exists|meta: ParagraphMeta, t: Told|
                    {
                        &&& #[trigger] step_post(
                            final(self).items@,
                            meta,
                            budget,
                            t,
                            old(self).sheet(old(out_lines)@, old(out_image_blocks)@),
                            final(self).sheet(final(out_lines)@, final(out_image_blocks)@),
                            r,
                        )
                        &&& heard(old(events).bytes(), meta, *old(hint), t.peeked, *final(hint))
                        &&& final(self).counts() == counted(
                            final(self).items@,
                            meta,
                            t,
                            old(self).counts(),
                        )
                        &&& built(
                            *advance,
                            em_px,
                            old(events).bytes(),
                            old(events).state(),
                            final(self).items@,
                            meta,
                            final(events).state(),
                        )
                    }
            },
    {
        if events.is_eof() {
            return Ok(StepOutcome::Done);
        }
        self.items.clear();
        self.choices.clear();

        let by_style = |p: Option<char>, c: char, s: Style| -> (a: i16)
            requires
                advance.requires((p, c, fonts::markup_face(s))),
            ensures
                advance.ensures((p, c, fonts::markup_face(s)), a),
            { advance(p, c, fonts::Style::from_markup(s)) };
        proof {
            assert(items::callable(by_style));
        }
        let meta: ParagraphMeta = items::build_paragraph(
            events,
            &by_style,
            em_px,
            &mut self.items,
        );
        proof {
            assert(built(
                *advance,
                em_px,
                old(events).bytes(),
                old(events).state(),
                self.items@,
                meta,
                events.state(),
            )) by {
                assert forall|adv: FaceAdvance| #[trigger]
                    face_measures(*advance, adv) implies (
                    self.items@,
                    meta,
                    events.state(),
                ) == items::paragraph(
                    by_face(adv),
                    old(events).bytes(),
                    em_px,
                    old(events).state(),
                    items::builder_at(old(events).state()),
                    Seq::<Item>::empty(),
                ) by {
                    assert(items::measures(by_style, by_face(adv)));
                }
            }
        }
        self.paragraphs = self.paragraphs.saturating_add(1);
        let ghost para = self.items@;
        let ghost s0 = old(self).sheet(old(out_lines)@, old(out_image_blocks)@);
        let ghost c0 = self.counts();
        proof {
            assert(s0 == self.sheet(out_lines@, out_image_blocks@));
        }
        if meta.end_kind == ParagraphEnd::ImageBlock {
            let mut src: Vec<u8> = Vec::new();
            read_image_src(events, meta.image, &mut src);
            let r = self.set_image(
                &meta,
                src.as_slice(),
                budget,
                hint,
                out_lines,
                out_image_blocks,
            );
            proof {
                let s1 = self.sheet(out_lines@, out_image_blocks@);
                let t = choose|t: Told|
                    {
                        &&& #[trigger] step_post(para, meta, budget, t, s0, s1, r)
                        &&& asked(meta.image, *old(hint), src@, t.peeked, *hint)
                        &&& self.counts() == (Counts {
                            images: if t.granted {
                                count_up(c0.images)
                            } else {
                                c0.images
                            },
                            ..c0
                        })
                    };
                assert(step_post(self.items@, meta, budget, t, s0, s1, r));
            }
            r
        } else {
            let r = self.set_text(&meta, budget, out_lines, out_image_blocks);
            proof {
                let s1 = self.sheet(out_lines@, out_image_blocks@);
                let t = choose|t: Told|
                    {
                        &&& #[trigger] step_post(para, meta, budget, t, s0, s1, r)
                        &&& t.peeked is None
                        &&& self.counts() == (Counts {
                            fallbacks: if has_text(para, meta) && t.choices is None {
                                count_up(c0.fallbacks)
                            } else {
                                c0.fallbacks
                            },
                            ..c0
                        })
                    };
                assert(step_post(self.items@, meta, budget, t, s0, s1, r));
            }
            r
        }
    }
}

} // verus!
