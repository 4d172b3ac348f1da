//! The breaker's window is an optimisation and nothing else.

use crate::layout::breaker as b;
use crate::layout::breaker::{BreakConfig, Node};
use crate::layout::breaker_spec as spec;
use crate::layout::breaker_spec::Scope;
use crate::layout::events;
use crate::layout::events::{Event, EventState};
use crate::layout::items;
use crate::layout::items::{Item, ItemKind, ParagraphBuilder};
use crate::layout::table;
use crate::markup::Style;
use vstd::prelude::*;

verus! {

/// No break is encouraged: a penalty costs something, or forces a break.
pub open spec fn none_encouraged(items: Seq<Item>) -> bool {
    forall|k: int|
        0 <= k < items.len() && (#[trigger] items[k]).spec_kind() == ItemKind::Penalty
            ==> items[k].spec_penalty() >= 0 || items[k].spec_penalty() == Item::PENALTY_FORCE
}

/// A line that cannot be shrunk to the line width misses it by more than the
/// rounding of its ratio.
pub open spec fn misses(items: Seq<Item>, cfg: BreakConfig, a: int, i: int) -> bool {
    !spec::can_fit(items, cfg, a, i) ==> 256 * (spec::line_w(items, a, i) - cfg.line_width) >= 257
        * spec::line_z(items, a, i)
}

/// No line misses the line width by less than the rounding of its ratio.
pub open spec fn none_nearly_fits(items: Seq<Item>, cfg: BreakConfig) -> bool {
    forall|a: int, i: int| -1 <= a < i < items.len() ==> #[trigger] misses(items, cfg, a, i)
}

/// What the window asks of a paragraph.
pub open spec fn is_steady(items: Seq<Item>, cfg: BreakConfig) -> bool {
    &&& items.len() <= 65535
    &&& spec::shrinks_within_width(items)
    &&& none_encouraged(items)
    &&& none_nearly_fits(items, cfg)
}

/// A line that is too wide even when it is shrunk is set as overfull, if it is
/// set at all.
proof fn lemma_too_wide(items: Seq<Item>, cfg: BreakConfig, a: int, i: int)
    requires
        is_steady(items, cfg),
        -1 <= a < i < items.len(),
        spec::feasible(items, i),
        !spec::can_fit(items, cfg, a, i),
    ensures
        spec::line_ratio(items, cfg, a, i) matches Some(r) ==> spec::line_badness(
            items,
            cfg,
            a,
            i,
            r,
        ) == 10000 && (r == spec::overflow_ratio() || spec::is_forced_break(items[i])),
        spec::line_ratio(items, cfg, a, i) is Some <==> spec::is_forced_break(items[i])
            || spec::line_z(items, a, i) > 0,
{
    assert(misses(items, cfg, a, i));
    let z = spec::line_z(items, a, i);
    lemma_shrink_grows(items, a + 1, i);
    let over = spec::line_w(items, a, i) - cfg.line_width;
    if z > 0 {
        let q = (over * 256) / z;
        assert(q >= 257) by (nonlinear_arith)
            requires
                q == (over * 256) / z,
                256 * over >= 257 * z,
                z > 0,
        ;
        assert(spec::shrink_ratio(items, cfg, a, i) < -256);
    }
}

proof fn lemma_shrink_grows(items: Seq<Item>, lo: int, hi: int)
    requires
        0 <= lo <= hi <= items.len(),
    ensures
        spec::sum_shrink(items, lo) <= spec::sum_shrink(items, hi),
    decreases hi - lo,
{
    if lo < hi {
        lemma_shrink_grows(items, lo, hi - 1);
    }
}

proof fn lemma_joint_at_least(
    items: Seq<Item>,
    cfg: BreakConfig,
    a: int,
    i: int,
    r: int,
    prev: Node,
)
    requires
        is_steady(items, cfg),
        -1 <= a < i < items.len(),
        spec::line_badness(items, cfg, a, i, r) >= 0,
    ensures
        ({
            let x = cfg.line_penalty + spec::line_badness(items, cfg, a, i, r);
            spec::joint_demerits(items, cfg, a, i, r, prev) >= spec::sat(x * x) >= 0
        }),
{
    let x = cfg.line_penalty + spec::line_badness(items, cfg, a, i, r);
    let p = items[i].spec_penalty() as int;
    assert(x * x >= 0) by (nonlinear_arith);
    assert(p * p >= 0) by (nonlinear_arith);
}

proof fn lemma_badness_positive(r: int)
    ensures
        spec::badness_of(r) >= 0,
{
    let m = spec::min_int(spec::abs_int(r), 2048);
    let sq = m * m / 256;
    let cu = sq * m / 256;
    assert(m * m >= 0) by (nonlinear_arith);
    assert(sq * m >= 0) by (nonlinear_arith)
        requires
            sq >= 0,
            m >= 0,
    ;
}

/// Demerits are never negative where no break is encouraged.
proof fn lemma_candidate_positive(
    items: Seq<Item>,
    cfg: BreakConfig,
    best: Seq<Node>,
    a: int,
    i: int,
)
    requires
        is_steady(items, cfg),
        -1 <= a < i < items.len(),
        a >= 0 ==> best[a].demerits >= 0,
    ensures
        spec::candidate(items, cfg, best, a, i) matches Some(n) ==> n.demerits >= 0,
{
    if let Some(r) = spec::line_ratio(items, cfg, a, i) {
        lemma_badness_positive(r);
        lemma_joint_at_least(items, cfg, a, i, r, best[a]);
    }
}

proof fn lemma_table_positive(items: Seq<Item>, cfg: BreakConfig, n: int, i: int)
    requires
        is_steady(items, cfg),
        0 <= i < n <= items.len(),
    ensures
        spec::table(items, cfg, false, n)[i].demerits >= 0,
    decreases i,
{
    let best = spec::table(items, cfg, false, n);
    if spec::reachable(best[i]) {
        let a = b::lemma_table_node(items, cfg, false, n, i);
        if a >= 0 {
            lemma_table_positive(items, cfg, n, a);
        }
        lemma_candidate_positive(items, cfg, best, a, i);
    }
}

/// From outside the window a line is no better than the one from the start of
/// the paragraph, which is weighed in any case.
proof fn lemma_outside_is_no_better(items: Seq<Item>, cfg: BreakConfig, a: int, i: int)
    requires
        is_steady(items, cfg),
        0 <= a < i < items.len(),
        spec::feasible(items, i),
        !spec::can_fit(items, cfg, a, i),
    ensures
        ({
            let best = spec::table(items, cfg, false, i);
            spec::candidate(items, cfg, best, a, i) matches Some(n) ==> (spec::candidate(
                items,
                cfg,
                best,
                -1,
                i,
            ) matches Some(s) && s.demerits <= n.demerits)
        }),
{
    let best = spec::table(items, cfg, false, i);
    b::lemma_can_fit_monotone(items, cfg, -1, a, i, i);
    lemma_too_wide(items, cfg, a, i);
    lemma_too_wide(items, cfg, -1, i);
    lemma_table_positive(items, cfg, i, a);
    lemma_shrink_grows(items, 0, a + 1);
    if let Some(r) = spec::line_ratio(items, cfg, a, i) {
        lemma_joint_at_least(items, cfg, a, i, r, best[a]);
        let r0 = spec::line_ratio(items, cfg, -1, i)->0;
        lemma_joint_at_least(items, cfg, -1, i, r0, best[-1]);
        assert(spec::own_demerits(items, cfg, a, i, r) == spec::own_demerits(
            items,
            cfg,
            -1,
            i,
            r0,
        ));
    }
}

/// What is kept so far is no worse than the line from the start.
proof fn lemma_scan_from_start(
    items: Seq<Item>,
    cfg: BreakConfig,
    best: Seq<Node>,
    scope: Scope,
    i: int,
    hi: int,
    start: Option<Node>,
)
    ensures
        start matches Some(s) ==> (spec::scan(items, cfg, best, scope, i, hi, start) matches Some(
            n,
        ) && n.demerits <= s.demerits),
    decreases hi,
{
    if hi > 0 {
        lemma_scan_from_start(items, cfg, best, scope, i, hi - 1, start);
    }
}

/// The full scan finds what the scan of the window finds.
proof fn lemma_scans_agree(items: Seq<Item>, cfg: BreakConfig, i: int, hi: int)
    requires
        is_steady(items, cfg),
        0 <= hi <= i < items.len(),
        spec::feasible(items, i),
    ensures
        ({
            let best = spec::table(items, cfg, false, i);
            let start = spec::candidate(items, cfg, best, -1, i);
            &&& spec::scan(items, cfg, best, Scope::All, i, hi, start) == spec::scan(
                items,
                cfg,
                best,
                Scope::Fitting,
                i,
                hi,
                start,
            )
            &&& start is None ==> spec::scan(
                items,
                cfg,
                best,
                Scope::TooWide,
                i,
                hi,
                None,
            ) is None
        }),
    decreases hi,
{
    if hi > 0 {
        lemma_scans_agree(items, cfg, i, hi - 1);
        let best = spec::table(items, cfg, false, i);
        let start = spec::candidate(items, cfg, best, -1, i);
        lemma_scan_from_start(items, cfg, best, Scope::All, i, hi - 1, start);
        if !spec::can_fit(items, cfg, hi - 1, i) {
            lemma_outside_is_no_better(items, cfg, hi - 1, i);
        }
    }
}

proof fn lemma_same_tables(items: Seq<Item>, cfg: BreakConfig, k: int)
    requires
        is_steady(items, cfg),
        k <= items.len(),
    ensures
        spec::table(items, cfg, true, k) == spec::table(items, cfg, false, k),
    decreases k,
{
    if k > 0 {
        lemma_same_tables(items, cfg, k - 1);
        let i = k - 1;
        if spec::feasible(items, i) {
            lemma_scans_agree(items, cfg, i, i);
            let best = spec::table(items, cfg, false, i);
            let start = spec::candidate(items, cfg, best, -1, i);
            lemma_scan_from_start(items, cfg, best, Scope::Fitting, i, i, start);
        }
    }
}

/// The window is an optimisation and nothing else: the windowed search and the
/// full search give the same lines. A line that is too wide never beats the one
/// from the start of the paragraph, which both of them weigh.
///
/// That takes a paragraph in which no break is encouraged, and in which no line
/// misses the line width by less than the rounding of its ratio.
pub proof fn law_window_changes_nothing(items: Seq<Item>, cfg: BreakConfig)
    requires
        is_steady(items, cfg),
    ensures
        spec::paragraph_lines(items, cfg, true) == spec::paragraph_lines(items, cfg, false),
{
    lemma_same_tables(items, cfg, items.len() as int);
}

// ── ordinary text ─────────────────────────────────────────────────

/// An item of ordinary text: a space gives way by at most a third of its
/// width, and a break is not encouraged.
pub open spec fn plain_item(it: Item) -> bool {
    &&& 3 * spec::item_shrink(it) <= spec::item_width(it)
    &&& it.spec_kind() == ItemKind::Penalty ==> it.spec_penalty() >= 0 || it.spec_penalty()
        == Item::PENALTY_FORCE
}

pub open spec fn is_prose(items: Seq<Item>) -> bool {
    forall|k: int| 0 <= k < items.len() ==> plain_item(#[trigger] items[k])
}

proof fn lemma_thirds(items: Seq<Item>, lo: int, hi: int)
    requires
        is_prose(items),
        0 <= lo <= hi <= items.len(),
    ensures
        3 * (spec::sum_shrink(items, hi) - spec::sum_shrink(items, lo)) <= spec::sum_width(
            items,
            hi,
        ) - spec::sum_width(items, lo),
    decreases hi - lo,
{
    if lo < hi {
        lemma_thirds(items, lo, hi - 1);
        assert(plain_item(items[hi - 1]));
    }
}

/// In ordinary text the windowed search gives what the full search gives, in
/// every column that is no wider than 512 pixels.
pub proof fn law_window_changes_nothing_in_prose(items: Seq<Item>, cfg: BreakConfig)
    requires
        is_prose(items),
        items.len() <= 65535,
        cfg.line_width <= 512,
    ensures
        spec::paragraph_lines(items, cfg, true) == spec::paragraph_lines(items, cfg, false),
{
    assert forall|a: int, i: int| -1 <= a < i < items.len() implies #[trigger] misses(
        items,
        cfg,
        a,
        i,
    ) by {
        lemma_thirds(items, a + 1, i);
    }
    law_window_changes_nothing(items, cfg);
}

proof fn lemma_boxed_prose(its: Seq<Item>, width: u16, at: u32, style: Style)
    requires
        is_prose(its),
    ensures
        is_prose(its.push(Item::spec_boxed(width, at).spec_with_style(style))),
{
    items::lemma_kinds(width, 0, 0, at, style);
}

proof fn lemma_closed_prose(its: Seq<Item>, at: u32)
    requires
        is_prose(its),
    ensures
        is_prose(its + items::forced_triple(at)),
{
    items::lemma_penalty_kind(Item::PENALTY_FORBIDDEN, false, false, at);
    items::lemma_kinds(0, 65535, 0, at, Style::spec_plain());
    items::lemma_penalty_kind(Item::PENALTY_FORCE, false, true, at);
    let t = items::forced_triple(at);
    assert(plain_item(t[0]) && plain_item(t[1]) && plain_item(t[2]));
}

proof fn lemma_led_in_prose(
    b: ParagraphBuilder,
    its: Seq<Item>,
    em_px: u16,
    at: u32,
    style: Style,
)
    requires
        is_prose(its),
    ensures
        is_prose(items::led_in(b, its, em_px, at, style)),
{
    lemma_boxed_prose(its, table::spec_indent_px(b.block.text_indent_qem, em_px), at, style);
}

proof fn lemma_fed_prose(
    adv: items::Advance,
    em_px: u16,
    ev: Event,
    word: Seq<u8>,
    b: ParagraphBuilder,
    its: Seq<Item>,
)
    requires
        is_prose(its),
    ensures
        is_prose(items::fed(adv, em_px, ev, word, b, its).0),
{
    match ev {
        Event::Word { start, end, style } => {
            let w = items::word_width(adv, items::measured_part(word), style);
            lemma_led_in_prose(b, its, em_px, start, style);
            lemma_boxed_prose(items::led_in(b, its, em_px, start, style), w, start, style);
        },
        Event::Space { start, end, style } => {
            let w = items::space_width(adv, style);
            let shrink = (if w / 3 < 255 {
                w / 3
            } else {
                255
            }) as u8;
            lemma_led_in_prose(b, its, em_px, start, style);
            items::lemma_kinds(w as u16, (w / 2) as u16, shrink, start, style);
        },
        Event::Nbsp { start, end, style } => {
            let w = items::space_width(adv, style) as u16;
            lemma_led_in_prose(b, its, em_px, start, style);
            lemma_boxed_prose(items::led_in(b, its, em_px, start, style), w, start, style);
        },
        Event::SoftHyphen { start, .. } => {
            items::lemma_penalty_kind(items::HYPHEN_PENALTY, true, false, start);
        },
        Event::HardBreak { start, .. } => lemma_closed_prose(its, start),
        Event::ParagraphBreak { start, .. } => lemma_closed_prose(its, start),
        Event::PageBreak { start, .. } => lemma_closed_prose(its, start),
        Event::ThematicBreak { start, .. } => lemma_closed_prose(its, start),
        Event::Image(img) => lemma_closed_prose(its, img.start),
        Event::Block { at, .. } => lemma_closed_prose(its, at),
        Event::Unknown { .. } => {},
    }
}

/// The items of every paragraph of a chapter are ordinary text.
pub proof fn law_paragraphs_are_prose(
    adv: items::Advance,
    buf: Seq<u8>,
    em_px: u16,
    s: EventState,
    b: ParagraphBuilder,
    its: Seq<Item>,
)
    requires
        0 <= s.pos <= buf.len() <= u32::MAX,
        is_prose(its),
    ensures
        is_prose(items::paragraph(adv, buf, em_px, s, b, its).0),
    decreases buf.len() - s.pos,
{
    events::law_events_advance(buf, s);
    let (ev, after) = events::next_event(buf, s);
    match ev {
        Some(e) => {
            lemma_fed_prose(adv, em_px, e, items::word_of(buf, e), b, its);
            let (more, b2, m) = items::fed(adv, em_px, e, items::word_of(buf, e), b, its);
            if m is None {
                law_paragraphs_are_prose(adv, buf, em_px, after, b2, more);
            }
        },
        None => {},
    }
}

} // verus!
