//! Typesetting of a whole chapter: every paragraph in turn, then the pages.

use crate::fonts;
use crate::layout::breaker::BreakChoice;
use crate::layout::convert;
use crate::layout::events;
use crate::layout::events::{Events, EventState};
use crate::layout::items;
use crate::layout::items::{Item, ParagraphEnd, ParagraphMeta};
use crate::layout::paginate;
use crate::layout::paginate::PageSpacing;
use crate::layout::paginate_laws;
use crate::layout::pipeline;
use crate::layout::pipeline::{Counts, FaceAdvance, ImageBudget, ImageHeightHint, LayoutPipeline, Sheet, StepOutcome, Told, TypesetError};
use crate::layout::scan::TextStyle;
use crate::layout::table::{LineLayout, PageLayout, MAX_LINES_PER_CHAPTER};
use vstd::prelude::*;

verus! {

// ── the block table stays sound ───────────────────────────────────

/// The block table is as long as the line table and describes its image
/// blocks.
pub open spec fn sheet_sound(s: Sheet) -> bool {
    s.blocks.len() == s.lines.len() && paginate_laws::block_table(s.lines, s.blocks)
}

proof fn lemma_text_line(
    items: Seq<Item>,
    meta: ParagraphMeta,
    lo: int,
    bp: int,
    first: bool,
    break_before: bool,
    last: bool,
    extra: u8,
)
    ensures
        !convert::line_record(items, meta, lo, bp, first, break_before, last, extra).image(),
{
    reveal(convert::line_record);
}

proof fn lemma_emit_text(
    items: Seq<Item>,
    meta: ParagraphMeta,
    before: int,
    g: convert::Greedy,
    bp: int,
    last: bool,
    cursor: int,
)
    ensures
        ({
            let e = convert::greedy_emit(items, meta, before, g, bp, last, cursor);
            e.lines.len() == g.lines.len() + 1 && e.lines.drop_last() == g.lines
                && !e.lines.last().image()
        }),
{
    let first = g.lines.len() == before;
    lemma_text_line(items, meta, g.start, bp, first, first && g.pending, last, 0);
    let e = convert::greedy_emit(items, meta, before, g, bp, last, cursor);
    assert(e.lines.drop_last() =~= g.lines);
}

proof fn lemma_greedy_text(
    items: Seq<Item>,
    meta: ParagraphMeta,
    lw: int,
    pending: bool,
    out: Seq<LineLayout>,
    n: int,
)
    ensures
        ({
            let g = convert::greedy_run(items, meta, lw, pending, out, n);
            &&& g.lines.len() >= out.len()
            &&& g.lines.take(out.len() as int) == out
            &&& forall|k: int| out.len() <= k < g.lines.len() ==> !(#[trigger] g.lines[k]).image()
        }),
    decreases n,
{
    convert::lemma_greedy_grows(items, meta, lw, pending, out, n);
    if n > 0 {
        lemma_greedy_text(items, meta, lw, pending, out, n - 1);
        let before = out.len() as int;
        let g0 = convert::greedy_run(items, meta, lw, pending, out, n - 1);
        let g = convert::greedy_run(items, meta, lw, pending, out, n);
        let i = n - 1;
        let bp = if g0.glue >= 0 {
            g0.glue
        } else {
            i
        };
        let cursor = convert::span_width(items, bp + 1, i + 1);
        lemma_emit_text(items, meta, before, g0, bp, false, cursor);
        lemma_emit_text(items, meta, before, g0, i, true, 0);
        assert forall|k: int| out.len() <= k < g.lines.len() implies !(
        #[trigger] g.lines[k]).image() by {
            if k < g0.lines.len() {
                assert(g.lines.take(g0.lines.len() as int) =~= g0.lines);
                assert(g.lines[k] == g0.lines[k]);
            }
        }
    }
}

/// First-fit gives at most a line for every item.
proof fn lemma_greedy_few(
    items: Seq<Item>,
    meta: ParagraphMeta,
    lw: int,
    pending: bool,
    out: Seq<LineLayout>,
    n: int,
)
    requires
        n >= 0,
    ensures
        convert::greedy_run(items, meta, lw, pending, out, n).lines.len() <= out.len() + n,
    decreases n,
{
    if n > 0 {
        lemma_greedy_few(items, meta, lw, pending, out, n - 1);
    }
}

/// More text lines, with zeros in the block table, keep it sound.
proof fn lemma_append_text(s: Sheet, more: Seq<LineLayout>)
    requires
        sheet_sound(s),
        forall|k: int| 0 <= k < more.len() ==> !(#[trigger] more[k]).image(),
    ensures
        sheet_sound(
            (Sheet {
                lines: s.lines + more,
                blocks: pipeline::zeros_behind(s.blocks, more.len() as int),
                pending: s.pending,
            }),
        ),
{
    let lines = s.lines + more;
    let blocks = pipeline::zeros_behind(s.blocks, more.len() as int);
    assert forall|i: int|
        0 <= i < lines.len() && (#[trigger] blocks[i]) > 0 implies lines[i].image() && i
        + blocks[i] <= lines.len() by {
        assert(s.blocks[i] == blocks[i]);
        assert(lines[i] == s.lines[i]);
    }
    assert forall|i: int, k: int|
        #![trigger blocks[i], lines[k]]
        0 <= i < k < i + blocks[i] && i < lines.len() implies lines[k].image() && lines[k].gap()
        == 0 && !lines[k].page_break_before() && blocks[k] == 0 by {
        assert(s.blocks[i] == blocks[i]);
        assert(lines[k] == s.lines[k]);
        assert(s.blocks[k] == blocks[k]);
    }
}

proof fn lemma_append_image(s: Sheet, meta: ParagraphMeta, n: u8, reserved: u16)
    requires
        sheet_sound(s),
        n >= 1,
    ensures
        sheet_sound(pipeline::with_image(s, meta, n, reserved)),
{
    let after = pipeline::with_image(s, meta, n, reserved);
    let lines = after.lines;
    let blocks = after.blocks;
    let at = s.lines.len() as int;
    let block = convert::image_block(meta, n, reserved, s.pending);
    assert(pipeline::padded(s.blocks, at) =~= s.blocks);
    assert(blocks[at] == n);
    assert(lines[at] == convert::image_origin(meta, reserved, s.pending));
    assert forall|i: int|
        0 <= i < lines.len() && (#[trigger] blocks[i]) > 0 implies lines[i].image() && i
        + blocks[i] <= lines.len() by {
        if i < at {
            assert(s.blocks[i] == blocks[i]);
            assert(lines[i] == s.lines[i]);
        }
    }
    assert forall|i: int, k: int|
        #![trigger blocks[i], lines[k]]
        0 <= i < k < i + blocks[i] && i < lines.len() implies lines[k].image() && lines[k].gap()
        == 0 && !lines[k].page_break_before() && blocks[k] == 0 by {
        if i < at {
            assert(s.blocks[i] == blocks[i]);
            assert(lines[k] == s.lines[k]);
            assert(s.blocks[k] == blocks[k]);
        } else {
            assert(lines[k] == block[k - at]);
        }
    }
}

/// A paragraph of text appends lines that are not images, and as many zeros to
/// the block table.
pub proof fn lemma_text_appended(
    items: Seq<Item>,
    meta: ParagraphMeta,
    line_width: u16,
    choices: Option<Seq<BreakChoice>>,
    s: Sheet,
) -> (more: Seq<LineLayout>)
    requires
        s.blocks.len() == s.lines.len(),
        items.len() > 0,
    ensures
        forall|k: int| 0 <= k < more.len() ==> !(#[trigger] more[k]).image(),
        pipeline::with_text(s, items, meta, line_width, choices).lines == s.lines + more,
        pipeline::with_text(s, items, meta, line_width, choices).blocks == pipeline::zeros_behind(
            s.blocks,
            more.len() as int,
        ),
        more.len() <= (match choices {
            Some(c) => c.len(),
            None => items.len() + 1,
        }),
{
    let at = s.lines.len() as int;
    assert(pipeline::padded(s.blocks, at) =~= s.blocks);
    match choices {
        Some(c) => {
            let more = convert::kp_lines(items, c, meta, s.pending);
            assert forall|k: int| 0 <= k < more.len() implies !(#[trigger] more[k]).image() by {
                reveal(convert::line_record);
            }
            more
        },
        None => {
            let n = items.len() as int;
            let run = convert::greedy_run(
                items,
                meta,
                line_width as int,
                s.pending,
                s.lines,
                n,
            );
            lemma_emit_text(items, meta, at, run, n - 1, true, 0);
            lemma_greedy_text(items, meta, line_width as int, s.pending, s.lines, n);
            lemma_greedy_few(items, meta, line_width as int, s.pending, s.lines, n);
            let g = convert::greedy_all(items, meta, line_width as int, s.pending, s.lines);
            let more = g.lines.skip(at);
            assert(g.lines =~= s.lines + more) by {
                assert forall|k: int| 0 <= k < at implies g.lines[k] == s.lines[k] by {
                    assert(run.lines.take(at)[k] == s.lines[k]);
                    assert(g.lines.take(run.lines.len() as int) =~= run.lines);
                }
            }
            assert forall|k: int| 0 <= k < more.len() implies !(#[trigger] more[k]).image() by {
                assert(more[k] == g.lines[at + k]);
                if at + k < run.lines.len() {
                    assert(g.lines.take(run.lines.len() as int) =~= run.lines);
                    assert(g.lines[at + k] == run.lines[at + k]);
                }
            }
            more
        },
    }
}

/// Whatever a paragraph gives, the block table stays sound.
pub proof fn lemma_step_sound(
    items: Seq<Item>,
    meta: ParagraphMeta,
    budget: ImageBudget,
    t: Told,
    s0: Sheet,
    s1: Sheet,
    r: Result<StepOutcome, TypesetError>,
)
    requires
        sheet_sound(s0),
        pipeline::step_post(items, meta, budget, t, s0, s1, r),
    ensures
        sheet_sound(s1),
{
    if meta.end_kind == ParagraphEnd::ImageBlock {
        let reserved = pipeline::reserved_height(meta.image, budget, t.peeked);
        lemma_append_image(
            s0,
            meta,
            pipeline::lines_for(reserved, budget.line_h) as u8,
            reserved as u16,
        );
    } else if items.len() > 0 {
        let lw = pipeline::config_for(budget, meta).line_width;
        let more = lemma_text_appended(items, meta, lw, t.choices, s0);
        lemma_append_text(s0, more);
    }
}

/// The lines that room is asked for before a paragraph is placed.
pub open spec fn room_asked(
    items: Seq<Item>,
    meta: ParagraphMeta,
    budget: ImageBudget,
    t: Told,
) -> int {
    if meta.end_kind == ParagraphEnd::ImageBlock {
        pipeline::lines_for(
            pipeline::reserved_height(meta.image, budget, t.peeked),
            budget.line_h,
        ) + 1
    } else if items.len() == 0 {
        0
    } else {
        match t.choices {
            Some(c) => c.len() as int,
            None => items.len() as int + 1,
        }
    }
}

/// A step only appends: what was on the sheet stays in front, the two tables
/// stay equally long, and the room that was asked for is enough. An image adds
/// its number of lines to the block table and zeros behind it, and text adds
/// zeros. A step that succeeds keeps the chapter within its lines.
pub proof fn law_step_appends(
    items: Seq<Item>,
    meta: ParagraphMeta,
    budget: ImageBudget,
    t: Told,
    s0: Sheet,
    s1: Sheet,
    r: Result<StepOutcome, TypesetError>,
)
    requires
        s0.blocks.len() == s0.lines.len(),
        pipeline::step_post(items, meta, budget, t, s0, s1, r),
    ensures
        s1.blocks.len() == s1.lines.len(),
        s0.lines.is_prefix_of(s1.lines),
        s0.blocks.is_prefix_of(s1.blocks),
        s1.lines.len() <= s0.lines.len() + room_asked(items, meta, budget, t),
        forall|k: int|
            s0.lines.len() <= k < s1.lines.len() ==> #[trigger] s1.blocks[k] == (if k
                == s0.lines.len() && meta.end_kind == ParagraphEnd::ImageBlock {
                s1.lines.len() - s0.lines.len()
            } else {
                0
            }),
        r is Ok && s0.lines.len() <= MAX_LINES_PER_CHAPTER ==> s1.lines.len()
            <= MAX_LINES_PER_CHAPTER,
{
    assert(pipeline::padded(s0.blocks, s0.lines.len() as int) =~= s0.blocks);
    if meta.end_kind == ParagraphEnd::ImageBlock {
        let reserved = pipeline::reserved_height(meta.image, budget, t.peeked);
        let n = pipeline::lines_for(reserved, budget.line_h) as u8;
        assert(convert::image_block(meta, n, reserved as u16, s0.pending).len() == n);
    } else if items.len() > 0 {
        let lw = pipeline::config_for(budget, meta).line_width;
        let more = lemma_text_appended(items, meta, lw, t.choices, s0);
    }
}

// ── the whole chapter ─────────────────────────────────────────────

/// What a chapter is set from: the advances of the faces, its bytes, the font
/// size and the room for images.
pub struct Setting {
    pub adv: FaceAdvance,
    pub bytes: Seq<u8>,
    pub em_px: u16,
    pub budget: ImageBudget,
}

/// Where a typesetting run stands between two paragraphs: in the stream, on
/// the sheet, in its counts, and with the image hint.
pub struct Stop<H> {
    pub st: EventState,
    pub sheet: Sheet,
    pub counts: Counts,
    pub hint: H,
}

/// The paragraph at `a` is set as `t` tells: the run is at `z` then, and the
/// step ends with `r`.
pub open spec fn sets<H: ImageHeightHint>(
    k: Setting,
    a: Stop<H>,
    t: Told,
    z: Stop<H>,
    r: Result<StepOutcome, TypesetError>,
) -> bool {
    let (para, meta, behind) = items::paragraph(
        pipeline::by_face(k.adv),
        k.bytes,
        k.em_px,
        a.st,
        items::builder_at(a.st),
        Seq::<Item>::empty(),
    );
    &&& a.st.pos < k.bytes.len()
    &&& z.st == behind
    &&& pipeline::step_post(para, meta, k.budget, t, a.sheet, z.sheet, r)
    &&& z.counts == pipeline::counted(para, meta, t, a.counts)
    &&& pipeline::heard(k.bytes, meta, a.hint, t.peeked, z.hint)
}

/// One step leads from `a` to `z` and ends with `r`.
pub open spec fn steps_to<H: ImageHeightHint>(
    k: Setting,
    a: Stop<H>,
    z: Stop<H>,
    r: Result<StepOutcome, TypesetError>,
) -> bool {
    exists|t: Told| #[trigger] sets(k, a, t, z, r)
}

/// Step `i` of the run is the setting of one paragraph.
pub open spec fn step_of_run<H: ImageHeightHint>(k: Setting, run: Seq<Stop<H>>, i: int) -> bool {
    steps_to(k, run[i], run[i + 1], Ok::<StepOutcome, TypesetError>(StepOutcome::More))
}

/// A run at the beginning of a chapter, with an empty sheet.
pub open spec fn start<H: ImageHeightHint>(pending: bool, counts: Counts, hint: H) -> Stop<H> {
    Stop {
        st: events::state_at(0, TextStyle::spec_plain()),
        sheet: Sheet { lines: Seq::empty(), blocks: Seq::empty(), pending },
        counts,
        hint,
    }
}

/// `run` starts at `a` and goes paragraph by paragraph.
pub open spec fn is_run<H: ImageHeightHint>(k: Setting, a: Stop<H>, run: Seq<Stop<H>>) -> bool {
    &&& run.len() > 0
    &&& run[0] == a
    &&& forall|i: int| 0 <= i < run.len() - 1 ==> #[trigger] step_of_run(k, run, i)
}

proof fn lemma_run_on<H: ImageHeightHint>(
    k: Setting,
    a: Stop<H>,
    run: Seq<Stop<H>>,
    t: Told,
    next: Stop<H>,
)
    requires
        is_run(k, a, run),
        sets(k, run.last(), t, next, Ok::<StepOutcome, TypesetError>(StepOutcome::More)),
    ensures
        is_run(k, a, run.push(next)),
{
    assert(steps_to(k, run.last(), next, Ok::<StepOutcome, TypesetError>(StepOutcome::More)));
    let longer = run.push(next);
    assert forall|i: int| 0 <= i < longer.len() - 1 implies #[trigger] step_of_run(
        k,
        longer,
        i,
    ) by {
        if i < run.len() - 1 {
            assert(step_of_run(k, run, i));
        }
    }
}

/// A step is decided by what it is told: told the same, the same paragraph gives
/// the same lines, counts and end.
pub proof fn law_steps_are_determined<H: ImageHeightHint>(
    k: Setting,
    a: Stop<H>,
    t: Told,
    z1: Stop<H>,
    r1: Result<StepOutcome, TypesetError>,
    z2: Stop<H>,
    r2: Result<StepOutcome, TypesetError>,
)
    requires
        sets(k, a, t, z1, r1),
        sets(k, a, t, z2, r2),
    ensures
        r1 == r2,
        z1.st == z2.st,
        z1.sheet == z2.sheet,
        z1.counts == z2.counts,
{
}

/// `z` is where setting every paragraph of the chapter in turn ends.
pub open spec fn ends_at<H: ImageHeightHint>(
    k: Setting,
    a: Stop<H>,
    run: Seq<Stop<H>>,
    z: Stop<H>,
) -> bool {
    is_run(k, a, run) && run.last() == z && z.st.pos == k.bytes.len()
}

/// Setting every paragraph of the chapter in turn, from `a`, gives the sheet
/// and the counts, and leaves the hint as it is.
pub open spec fn set_in_turn<H: ImageHeightHint>(
    k: Setting,
    a: Stop<H>,
    sheet: Sheet,
    counts: Counts,
    hint: H,
) -> bool {
    exists|run: Seq<Stop<H>>, st: EventState| #[trigger]
        ends_at(k, a, run, Stop { st, sheet, counts, hint })
}

/// `run` goes on to a paragraph that cannot be set: it fails with `e` and
/// leaves everything at `z`.
pub open spec fn stopped<H: ImageHeightHint>(
    k: Setting,
    a: Stop<H>,
    run: Seq<Stop<H>>,
    z: Stop<H>,
    e: TypesetError,
) -> bool {
    is_run(k, a, run) && steps_to(k, run.last(), z, Err::<StepOutcome, TypesetError>(e))
}

/// Some paragraph of the chapter cannot be set, and fails with `e`; the counts,
/// the page break that is due and the hint are then as given.
pub open spec fn stops_with<H: ImageHeightHint>(
    k: Setting,
    a: Stop<H>,
    e: TypesetError,
    pending: bool,
    counts: Counts,
    hint: H,
) -> bool {
    exists|run: Seq<Stop<H>>, z: Stop<H>| #[trigger]
        stopped(k, a, run, z, e) && z.sheet.pending == pending && z.counts == counts && z.hint
            == hint
}

/// The chapter can be set, but its lines cannot be paginated: the page has no
/// lines, there are too many pages, or no memory for them.
pub open spec fn set_but_unpaged<H: ImageHeightHint>(
    k: Setting,
    a: Stop<H>,
    max_lines: u8,
    pending: bool,
    counts: Counts,
    hint: H,
) -> bool {
    exists|lines: Seq<LineLayout>, blocks: Seq<u8>, room: bool|
        #![trigger unpaged(lines, max_lines, blocks, PageSpacing { em_px: k.em_px, line_h: k.budget.line_h }, room)]
        {
            &&& set_in_turn(k, a, Sheet { lines, blocks, pending }, counts, hint)
            &&& lines.len() > 0
            &&& unpaged(
                lines,
                max_lines,
                blocks,
                PageSpacing { em_px: k.em_px, line_h: k.budget.line_h },
                room,
            )
        }
}

pub open spec fn unpaged(
    lines: Seq<LineLayout>,
    max_lines: u8,
    blocks: Seq<u8>,
    spacing: PageSpacing,
    room: bool,
) -> bool {
    paginate::paginate_error(0, lines, max_lines, blocks, spacing, room) is Some
}

/// A typeset chapter: its lines, the lengths of its image blocks, its pages.
pub struct Chapter {
    pub lines: Vec<LineLayout>,
    pub blocks: Vec<u8>,
    pub pages: Vec<PageLayout>,
}

impl Chapter {
    /// The pages are those of the lines; a chapter without lines has one empty
    /// page.
    pub open spec fn paged(self, max_lines: u8, spacing: PageSpacing) -> bool {
        if self.lines@.len() == 0 {
            self.pages@ == seq![PageLayout::spec_empty()]
        } else {
            self.pages@ == paginate::chapter_pages(self.lines@, max_lines, self.blocks@, spacing)
        }
    }
}

/// What setting the chapter from `a` gives: `p` and `hint` are the typesetter
/// and the hint behind it.
pub open spec fn typeset<H: ImageHeightHint>(
    k: Setting,
    a: Stop<H>,
    max_lines: u8,
    r: Result<Chapter, TypesetError>,
    p: LayoutPipeline,
    hint: H,
) -> bool {
    let pending = p.page_break_pending;
    match r {
        Ok(c) => set_in_turn(
            k,
            a,
            Sheet { lines: c.lines@, blocks: c.blocks@, pending },
            p.counts(),
            hint,
        ),
        Err(e) => if e == TypesetError::EmptyChapter {
            set_but_unpaged(k, a, max_lines, pending, p.counts(), hint)
        } else {
            stops_with(k, a, e, pending, p.counts(), hint)
        },
    }
}

fn typeset_paragraphs<F: Fn(Option<char>, char, fonts::Style) -> i16, H: ImageHeightHint>(
    bytes: &[u8],
    advance: &F,
    em_px: u16,
    budget: ImageBudget,
    hint: &mut H,
    max_lines: u8,
    pipeline: &mut LayoutPipeline,
) -> (r: Result<Chapter, TypesetError>)
    requires
        0 < bytes@.len() <= u32::MAX,
        pipeline::face_callable(*advance),
    ensures
        forall|adv: FaceAdvance| #[trigger]
            pipeline::face_measures(*advance, adv) ==> typeset(
                Setting { adv, bytes: bytes@, em_px, budget },
                start(old(pipeline).page_break_pending, old(pipeline).counts(), *old(hint)),
                max_lines,
                r,
                *final(pipeline),
                *final(hint),
            ),
        r matches Ok(c) ==> {
            &&& c.lines@.len() <= MAX_LINES_PER_CHAPTER
            &&& c.blocks@.len() == c.lines@.len()
            &&& paginate_laws::block_table(c.lines@, c.blocks@)
            &&& c.paged(max_lines, PageSpacing { em_px, line_h: budget.line_h })
        },
{
    let mut events = Events::new(bytes);
    let mut lines: Vec<LineLayout> = Vec::new();
    let mut blocks: Vec<u8> = Vec::new();
    let ghost a = start(pipeline.page_break_pending, pipeline.counts(), *hint);
    let ghost mut run: Seq<Stop<H>> = seq![a];
    proof {
        assert(lines@ =~= Seq::<LineLayout>::empty());
        assert(blocks@ =~= Seq::<u8>::empty());
    }
    while !events.is_eof()
        invariant
            events.wf(),
            events.bytes() == bytes@,
            pipeline::face_callable(*advance),
            sheet_sound(pipeline.sheet(lines@, blocks@)),
            lines@.len() <= MAX_LINES_PER_CHAPTER,
            a == start(old(pipeline).page_break_pending, old(pipeline).counts(), *old(hint)),
            run.len() > 0,
            run.last() == (Stop {
                st: events.state(),
                sheet: pipeline.sheet(lines@, blocks@),
                counts: pipeline.counts(),
                hint: *hint,
            }),
            forall|adv: FaceAdvance| #[trigger]
                pipeline::face_measures(*advance, adv) ==> is_run(
                    Setting { adv, bytes: bytes@, em_px, budget },
                    a,
                    run,
                ),
        decreases bytes@.len() - events.state().pos,
    {
        let ghost at = run.last();
        let r = pipeline.step(
            &mut events,
            advance,
            em_px,
            budget,
            hint,
            &mut lines,
            &mut blocks,
        );
        proof {
            let s0 = at.sheet;
            let s1 = pipeline.sheet(lines@, blocks@);
            let (meta, t) = choose|meta: ParagraphMeta, t: Told|
                {
                    &&& #[trigger] pipeline::step_post(
                        pipeline.items@,
                        meta,
                        budget,
                        t,
                        s0,
                        s1,
                        r,
                    )
                    &&& pipeline::heard(bytes@, meta, at.hint, t.peeked, *hint)
                    &&& pipeline.counts() == pipeline::counted(
                        pipeline.items@,
                        meta,
                        t,
                        at.counts,
                    )
                    &&& pipeline::built(
                        *advance,
                        em_px,
                        bytes@,
                        at.st,
                        pipeline.items@,
                        meta,
                        events.state(),
                    )
                };
            lemma_step_sound(pipeline.items@, meta, budget, t, s0, s1, r);
            let z = Stop {
                st: events.state(),
                sheet: s1,
                counts: pipeline.counts(),
                hint: *hint,
            };
            assert forall|adv: FaceAdvance| #[trigger]
                pipeline::face_measures(*advance, adv) implies sets(
                Setting { adv, bytes: bytes@, em_px, budget },
                at,
                t,
                z,
                r,
            ) by {}
            if r is Ok {
                assert(r == Ok::<StepOutcome, TypesetError>(StepOutcome::More));
                assert forall|adv: FaceAdvance| #[trigger]
                    pipeline::face_measures(*advance, adv) implies is_run(
                    Setting { adv, bytes: bytes@, em_px, budget },
                    a,
                    run.push(z),
                ) by {
                    let k = Setting { adv, bytes: bytes@, em_px, budget };
                    assert(is_run(k, a, run));
                    assert(sets(k, at, t, z, r));
                    lemma_run_on(k, a, run, t, z);
                }
                run = run.push(z);
            } else {
                let e = r->Err_0;
                assert forall|adv: FaceAdvance| #[trigger]
                    pipeline::face_measures(*advance, adv) implies stops_with(
                    Setting { adv, bytes: bytes@, em_px, budget },
                    a,
                    e,
                    pipeline.page_break_pending,
                    pipeline.counts(),
                    *hint,
                ) by {
                    let k = Setting { adv, bytes: bytes@, em_px, budget };
                    assert(is_run(k, a, run));
                    assert(sets(k, at, t, z, r));
                    assert(stopped(k, a, run, z, e));
                }
            }
        }
        if let Err(e) = r {
            return Err(e);
        }
    }
    proof {
        assert forall|adv: FaceAdvance| #[trigger]
            pipeline::face_measures(*advance, adv) implies set_in_turn(
            Setting { adv, bytes: bytes@, em_px, budget },
            a,
            pipeline.sheet(lines@, blocks@),
            pipeline.counts(),
            *hint,
        ) by {
            let k = Setting { adv, bytes: bytes@, em_px, budget };
            assert(is_run(k, a, run));
            assert(ends_at(
                k,
                a,
                run,
                Stop {
                    st: events.state(),
                    sheet: pipeline.sheet(lines@, blocks@),
                    counts: pipeline.counts(),
                    hint: *hint,
                },
            ));
        }
    }
    let mut pages: Vec<PageLayout> = Vec::new();
    if lines.len() == 0 {
        pages.push(PageLayout::empty());
        proof {
            assert(pages@ =~= seq![PageLayout::spec_empty()]);
        }
        return Ok(Chapter { lines, blocks, pages });
    }
    let spacing = PageSpacing { em_px, line_h: budget.line_h };
    proof {
        assert(pages@ =~= Seq::empty());
        paginate::law_first_pages(lines@, max_lines, blocks@, spacing);
    }
    let paged = paginate::paginate(
        lines.as_slice(),
        max_lines,
        blocks.as_slice(),
        spacing,
        &mut pages,
    );
    match paged {
        Ok(_) => Ok(Chapter { lines, blocks, pages }),
        Err(_) => {
            proof {
                let room = choose|room: bool| #[trigger]
                    paginate::paginates(
                        Seq::empty(),
                        lines@,
                        max_lines,
                        blocks@,
                        spacing,
                        room,
                        paged,
                        pages@,
                    );
                assert forall|adv: FaceAdvance| #[trigger]
                    pipeline::face_measures(*advance, adv) implies set_but_unpaged(
                    Setting { adv, bytes: bytes@, em_px, budget },
                    a,
                    max_lines,
                    pipeline.page_break_pending,
                    pipeline.counts(),
                    *hint,
                ) by {
                    let k = Setting { adv, bytes: bytes@, em_px, budget };
                    let pending = pipeline.page_break_pending;
                    let l = lines@;
                    let b = blocks@;
                    let sheet = Sheet { lines: l, blocks: b, pending };
                    assert(set_in_turn(k, a, sheet, pipeline.counts(), *hint));
                    let sp = PageSpacing { em_px: k.em_px, line_h: k.budget.line_h };
                    assert(unpaged(l, max_lines, b, sp, room));
                    assert(l.len() > 0);
                }
            }
            Err(TypesetError::EmptyChapter)
        },
    }
}

/// Typeset a chapter and build its pages. The working memory is let go of
/// behind it.
///
/// An empty chapter, and one whose lines cannot be paginated, is
/// `EmptyChapter`; a chapter with too many lines is `LineCapExceeded`; memory
/// that is refused for lines is `OutOfMemory`.
pub fn typeset_chapter<F: Fn(Option<char>, char, fonts::Style) -> i16, H: ImageHeightHint>(
    bytes: &[u8],
    advance: &F,
    em_px: u16,
    budget: ImageBudget,
    hint: &mut H,
    max_lines: u8,
    pipeline: &mut LayoutPipeline,
) -> (r: Result<Chapter, TypesetError>)
    requires
        bytes@.len() <= u32::MAX,
        pipeline::face_callable(*advance),
    ensures
        bytes@.len() == 0 ==> {
            &&& r == Err::<Chapter, TypesetError>(TypesetError::EmptyChapter)
            &&& final(pipeline).counts() == old(pipeline).counts()
            &&& final(pipeline).page_break_pending == old(pipeline).page_break_pending
            &&& *final(hint) == *old(hint)
        },
        bytes@.len() > 0 ==> forall|adv: FaceAdvance| #[trigger]
            pipeline::face_measures(*advance, adv) ==> typeset(
                Setting { adv, bytes: bytes@, em_px, budget },
                start(old(pipeline).page_break_pending, old(pipeline).counts(), *old(hint)),
                max_lines,
                r,
                *final(pipeline),
                *final(hint),
            ),
        r matches Ok(c) ==> {
            &&& c.lines@.len() <= MAX_LINES_PER_CHAPTER
            &&& c.blocks@.len() == c.lines@.len()
            &&& paginate_laws::block_table(c.lines@, c.blocks@)
            &&& c.paged(max_lines, PageSpacing { em_px, line_h: budget.line_h })
        },
        final(pipeline).items@.len() == 0,
        final(pipeline).choices@.len() == 0,
        final(pipeline).scratch.is_clear(),
{
    let r = if bytes.len() == 0 {
        Err(TypesetError::EmptyChapter)
    } else {
        typeset_paragraphs(bytes, advance, em_px, budget, hint, max_lines, pipeline)
    };
    pipeline.release();
    r
}

} // verus!
