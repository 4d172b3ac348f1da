//! What the paragraph breaker computes, as mathematics.
//!
//! A paragraph is a sequence of items. A line runs from the item after the
//! previous breakpoint up to, and without, the item it breaks at: glue at a
//! breakpoint collapses and a penalty has no width. `a == -1` stands for the
//! start of the paragraph.

use crate::layout::breaker::{BreakChoice, BreakConfig, ChoiceFlags, FitnessClass, Node};
use crate::layout::items::{Item, ItemKind};
use vstd::prelude::*;

verus! {

// ── line metrics ──────────────────────────────────────────────────

pub open spec fn item_width(it: Item) -> int {
    if it.spec_kind() == ItemKind::Penalty {
        0
    } else {
        it.width as int
    }
}

pub open spec fn item_stretch(it: Item) -> int {
    if it.spec_kind() == ItemKind::Glue {
        it.stretch as int
    } else {
        0
    }
}

pub open spec fn item_shrink(it: Item) -> int {
    if it.spec_kind() == ItemKind::Glue {
        it.shrink as int
    } else {
        0
    }
}

/// Total width of the first `k` items.
pub open spec fn sum_width(items: Seq<Item>, k: int) -> int
    decreases k,
{
    if k <= 0 {
        0
    } else {
        sum_width(items, k - 1) + item_width(items[k - 1])
    }
}

/// Total stretch of the first `k` items.
pub open spec fn sum_stretch(items: Seq<Item>, k: int) -> int
    decreases k,
{
    if k <= 0 {
        0
    } else {
        sum_stretch(items, k - 1) + item_stretch(items[k - 1])
    }
}

/// Total shrink of the first `k` items.
pub open spec fn sum_shrink(items: Seq<Item>, k: int) -> int
    decreases k,
{
    if k <= 0 {
        0
    } else {
        sum_shrink(items, k - 1) + item_shrink(items[k - 1])
    }
}

/// Natural width of the line `(a, i]`.
pub open spec fn line_w(items: Seq<Item>, a: int, i: int) -> int {
    sum_width(items, i) - sum_width(items, a + 1)
}

pub open spec fn line_y(items: Seq<Item>, a: int, i: int) -> int {
    sum_stretch(items, i) - sum_stretch(items, a + 1)
}

pub open spec fn line_z(items: Seq<Item>, a: int, i: int) -> int {
    sum_shrink(items, i) - sum_shrink(items, a + 1)
}

/// Whether the line `(a, i]` can be shrunk to the line width.
pub open spec fn can_fit(items: Seq<Item>, cfg: BreakConfig, a: int, i: int) -> bool {
    line_w(items, a, i) - line_z(items, a, i) <= cfg.line_width
}

// ── breakpoints ───────────────────────────────────────────────────

pub open spec fn is_forced_break(it: Item) -> bool {
    it.spec_kind() == ItemKind::Penalty && it.spec_forced()
}

/// A line may end at glue that follows a box, and at any penalty that is
/// not forbidden.
pub open spec fn feasible(items: Seq<Item>, i: int) -> bool {
    match items[i].spec_kind() {
        ItemKind::Glue => i > 0 && items[i - 1].spec_kind() == ItemKind::Box,
        ItemKind::Penalty => items[i].spec_penalty() < Item::PENALTY_FORBIDDEN,
        ItemKind::Box => false,
    }
}

/// Whether `items[lo..=i]` is one box behind nothing but glue.
pub open spec fn lone_box(items: Seq<Item>, lo: int, i: int) -> bool {
    items[i].spec_kind() == ItemKind::Box && forall|k: int|
        lo <= k < i ==> (#[trigger] items[k]).spec_kind() == ItemKind::Glue
}

// ── adjustment ratio, badness, fitness ────────────────────────────

/// The ratio that stands for a line left too wide.
pub open spec fn overflow_ratio() -> int {
    -32768
}

/// The (negative) ratio that would bring an overlong line to the line
/// width, rounded toward zero.
pub open spec fn shrink_ratio(items: Seq<Item>, cfg: BreakConfig, a: int, i: int) -> int {
    -(((line_w(items, a, i) - cfg.line_width) * 256) / line_z(items, a, i))
}

/// The line `(a, i]` is forced and needs more shrink than it has.
pub open spec fn over_shrunk(items: Seq<Item>, cfg: BreakConfig, a: int, i: int) -> bool {
    &&& is_forced_break(items[i])
    &&& line_w(items, a, i) > cfg.line_width
    &&& line_z(items, a, i) > 0
    &&& shrink_ratio(items, cfg, a, i) < -256
}

/// The adjustment ratio (256 is 1.0) of the line `(a, i]`; `None` for a line
/// that cannot be set at all.
pub open spec fn line_ratio(items: Seq<Item>, cfg: BreakConfig, a: int, i: int) -> Option<int> {
    let slack = cfg.line_width - line_w(items, a, i);
    let forced = is_forced_break(items[i]);
    let z = line_z(items, a, i);
    if slack == 0 {
        Some(0)
    } else if slack > 0 {
        let budget = line_y(items, a, i) + cfg.emergency_stretch;
        if budget != 0 {
            Some(slack * 256 / budget)
        } else if forced {
            Some(0)
        } else {
            None
        }
    } else if z == 0 {
        if forced || lone_box(items, a + 1, i) {
            Some(overflow_ratio())
        } else {
            None
        }
    } else if shrink_ratio(items, cfg, a, i) >= -256 {
        Some(shrink_ratio(items, cfg, a, i))
    } else if forced {
        Some(-256)
    } else {
        Some(overflow_ratio())
    }
}

pub open spec fn min_int(a: int, b: int) -> int {
    if a <= b {
        a
    } else {
        b
    }
}

pub open spec fn abs_int(a: int) -> int {
    if a < 0 {
        -a
    } else {
        a
    }
}

/// Knuth's badness, 100 times the cube of the ratio in fixed point, at most
/// 10000.
pub open spec fn badness_of(r: int) -> int {
    if r == overflow_ratio() {
        10000
    } else {
        let m = min_int(abs_int(r), 2048);
        let sq = m * m / 256;
        let cu = sq * m / 256;
        min_int(100 * cu / 256, 10000)
    }
}

pub open spec fn fitness_of(r: int) -> FitnessClass {
    if r == overflow_ratio() || r < -128 {
        FitnessClass::Tight
    } else if r < 128 {
        FitnessClass::Normal
    } else if r < 256 {
        FitnessClass::Loose
    } else {
        FitnessClass::VeryLoose
    }
}

pub open spec fn fitness_rank(f: FitnessClass) -> int {
    match f {
        FitnessClass::Tight => 0,
        FitnessClass::Normal => 1,
        FitnessClass::Loose => 2,
        FitnessClass::VeryLoose => 3,
    }
}

// ── demerits ──────────────────────────────────────────────────────

/// `x` kept within the range of `i32`.
pub open spec fn sat(x: int) -> int {
    if x > 0x7fff_ffff {
        0x7fff_ffff
    } else if x < -0x8000_0000 {
        -0x8000_0000
    } else {
        x
    }
}

pub open spec fn demerits_cap() -> int {
    0x1fff_ffff
}

/// The badness that counts for the line `(a, i]` set at ratio `r`.
pub open spec fn line_badness(items: Seq<Item>, cfg: BreakConfig, a: int, i: int, r: int) -> int {
    if over_shrunk(items, cfg, a, i) {
        10000
    } else {
        badness_of(r)
    }
}

/// Demerits of the line by itself: badness, line penalty and the cost of
/// the penalty it breaks at.
pub open spec fn own_demerits(
    items: Seq<Item>,
    cfg: BreakConfig,
    a: int,
    i: int,
    r: int,
) -> int {
    let x = cfg.line_penalty + line_badness(items, cfg, a, i, r);
    let base = sat(x * x);
    let p = items[i].spec_penalty() as int;
    if items[i].spec_kind() != ItemKind::Penalty {
        base
    } else if p > 0 && !items[i].spec_forced() {
        sat(base + p * p)
    } else if p < 0 && p != Item::PENALTY_FORCE {
        sat(base - p * p)
    } else {
        base
    }
}

/// Demerits of the line after the one that ended at `prev`, with the
/// adjacency and double-hyphen demerits.
pub open spec fn joint_demerits(
    items: Seq<Item>,
    cfg: BreakConfig,
    a: int,
    i: int,
    r: int,
    prev: Node,
) -> int {
    let own = own_demerits(items, cfg, a, i, r);
    if a < 0 {
        own
    } else {
        let apart = fitness_rank(fitness_of(r)) - fitness_rank(prev.fitness);
        let d1 = if apart > 1 || apart < -1 {
            sat(own + cfg.adjacent_loose_demerit)
        } else {
            own
        };
        if items[i].spec_flagged() && items[a].spec_kind() == ItemKind::Penalty
            && items[a].spec_flagged() {
            sat(d1 + cfg.double_hyphen_demerit)
        } else {
            d1
        }
    }
}

/// The node for the line `(a, i]` reached from `best[a]`, if the line can be
/// set within the tolerance.
pub open spec fn candidate(
    items: Seq<Item>,
    cfg: BreakConfig,
    best: Seq<Node>,
    a: int,
    i: int,
) -> Option<Node> {
    match line_ratio(items, cfg, a, i) {
        None => None,
        Some(r) => if r != overflow_ratio() && !is_forced_break(items[i]) && badness_of(r)
            > cfg.tolerance {
            None
        } else {
            let before = if a < 0 {
                0
            } else {
                best[a].demerits as int
            };
            let total = sat(before + joint_demerits(items, cfg, a, i, r, best[a]));
            Some(
                Node {
                    demerits: min_int(total, demerits_cap()) as i32,
                    width_used: min_int(line_w(items, a, i), 65535) as u16,
                    stretch_total: min_int(line_y(items, a, i), 65535) as u16,
                    shrink_total: min_int(line_z(items, a, i), 65535) as u16,
                    adjustment_q8: min_int(r, 32767) as i16,
                    prev: if a < 0 {
                        Node::NO_PREV
                    } else {
                        a as u16
                    },
                    fitness: fitness_of(r),
                },
            )
        },
    }
}

// ── the table of best nodes ───────────────────────────────────────

/// The earlier of two candidates, unless the later has fewer demerits.
pub open spec fn better(chosen: Option<Node>, cand: Option<Node>) -> Option<Node> {
    match (chosen, cand) {
        (_, None) => chosen,
        (None, _) => cand,
        (Some(c), Some(n)) => if c.demerits <= n.demerits {
            chosen
        } else {
            cand
        },
    }
}

/// Which predecessors a scan looks at.
#[derive(Clone, Copy, Debug, PartialEq, Eq, Structural)]
pub enum Scope {
    All,
    Fitting,
    TooWide,
}

pub open spec fn in_scope(
    scope: Scope,
    items: Seq<Item>,
    cfg: BreakConfig,
    a: int,
    i: int,
) -> bool {
    match scope {
        Scope::All => true,
        Scope::Fitting => can_fit(items, cfg, a, i),
        Scope::TooWide => !can_fit(items, cfg, a, i),
    }
}

pub open spec fn reachable(n: Node) -> bool {
    n.demerits != Node::UNREACHABLE
}

/// The best of `init` and the candidates from the reachable predecessors
/// `0..hi` in scope; of equals the first.
pub open spec fn scan(
    items: Seq<Item>,
    cfg: BreakConfig,
    best: Seq<Node>,
    scope: Scope,
    i: int,
    hi: int,
    init: Option<Node>,
) -> Option<Node>
    decreases hi,
{
    if hi <= 0 {
        init
    } else {
        let sofar = scan(items, cfg, best, scope, i, hi - 1, init);
        if reachable(best[hi - 1]) && in_scope(scope, items, cfg, hi - 1, i) {
            better(sofar, candidate(items, cfg, best, hi - 1, i))
        } else {
            sofar
        }
    }
}

/// The best way to end a line at `i`, given the nodes before it.
///
/// The windowed search looks at the predecessors that can be shrunk to the
/// line width, and at the others only when that gives nothing.
pub open spec fn chosen_at(
    items: Seq<Item>,
    cfg: BreakConfig,
    best: Seq<Node>,
    i: int,
    windowed: bool,
) -> Option<Node> {
    let start = candidate(items, cfg, best, -1, i);
    if !windowed {
        scan(items, cfg, best, Scope::All, i, i, start)
    } else {
        let near = scan(items, cfg, best, Scope::Fitting, i, i, start);
        if near is Some {
            near
        } else {
            scan(items, cfg, best, Scope::TooWide, i, i, None)
        }
    }
}

pub open spec fn node_at(
    items: Seq<Item>,
    cfg: BreakConfig,
    best: Seq<Node>,
    i: int,
    windowed: bool,
) -> Node {
    if !feasible(items, i) {
        Node::spec_unreachable()
    } else {
        match chosen_at(items, cfg, best, i, windowed) {
            Some(n) => n,
            None => Node::spec_unreachable(),
        }
    }
}

/// Nodes of the first `k` items.
pub open spec fn table(items: Seq<Item>, cfg: BreakConfig, windowed: bool, k: int) -> Seq<Node>
    decreases k,
{
    if k <= 0 {
        Seq::empty()
    } else {
        let before = table(items, cfg, windowed, k - 1);
        before.push(node_at(items, cfg, before, k - 1, windowed))
    }
}

// ── the chosen path ───────────────────────────────────────────────

/// Last reachable index below `k`; -1 if there is none. With `forced`, only
/// forced breaks count.
pub open spec fn last_reachable(items: Seq<Item>, best: Seq<Node>, forced: bool, k: int) -> int
    decreases k,
{
    if k <= 0 {
        -1
    } else if reachable(best[k - 1]) && (forced ==> is_forced_break(items[k - 1])) {
        k - 1
    } else {
        last_reachable(items, best, forced, k - 1)
    }
}

/// The breakpoint that ends the paragraph: the last reachable forced break,
/// else the last reachable breakpoint; -1 if there is none.
pub open spec fn terminal(items: Seq<Item>, best: Seq<Node>) -> int {
    let f = last_reachable(items, best, true, items.len() as int);
    if f >= 0 {
        f
    } else {
        last_reachable(items, best, false, items.len() as int)
    }
}

/// The breakpoints on the way to `cur`, first to last.
pub open spec fn path_to(best: Seq<Node>, cur: int) -> Seq<int>
    decreases cur,
{
    if cur < 0 || best[cur].prev == Node::NO_PREV || best[cur].prev >= cur {
        seq![cur]
    } else {
        path_to(best, best[cur].prev as int).push(cur)
    }
}

pub open spec fn flag_bits(it: Item, last: bool) -> u8 {
    let l: int = if last {
        4
    } else {
        0
    };
    let f: int = if is_forced_break(it) {
        1
    } else {
        0
    };
    let h: int = if it.spec_kind() == ItemKind::Penalty && it.spec_flagged() {
        2
    } else {
        0
    };
    (l + f + h) as u8
}

/// The line that ends at `i`.
pub open spec fn choice_at(items: Seq<Item>, best: Seq<Node>, i: int, last: bool) -> BreakChoice {
    BreakChoice {
        item_idx: i as u16,
        line_width_used: best[i].width_used,
        stretch_total: best[i].stretch_total,
        shrink_total: best[i].shrink_total,
        adjustment_ratio_q8: best[i].adjustment_q8,
        fitness: best[i].fitness,
        flags: ChoiceFlags { bits: flag_bits(items[i], last) },
    }
}

pub open spec fn choices_of(items: Seq<Item>, best: Seq<Node>, path: Seq<int>) -> Seq<BreakChoice> {
    Seq::new(path.len(), |k: int| choice_at(items, best, path[k], k + 1 == path.len()))
}

/// The lines of the paragraph; `None` if no breakpoint can be reached.
pub open spec fn paragraph_lines(items: Seq<Item>, cfg: BreakConfig, windowed: bool) -> Option<
    Seq<BreakChoice>,
> {
    let best = table(items, cfg, windowed, items.len() as int);
    let t = terminal(items, best);
    if t < 0 {
        None
    } else {
        Some(choices_of(items, best, path_to(best, t)))
    }
}

// ── what the arithmetic asks of a paragraph ───────────────────────

/// No glue shrinks by more than its width.
pub open spec fn shrinks_within_width(items: Seq<Item>) -> bool {
    forall|k: int|
        0 <= k < items.len() ==> item_shrink(#[trigger] items[k]) <= item_width(items[k])
}

} // verus!
