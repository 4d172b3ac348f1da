//! Which of several ways to break a paragraph is taken, and when none is.

use crate::layout::breaker as b;
use crate::layout::breaker::{BreakChoice, BreakConfig, BreakError, Node};
use crate::layout::breaker_laws as laws;
use crate::layout::breaker_spec as spec;
use crate::layout::items::{Item, ItemKind};
use crate::layout::line_laws::{self, may_end, natural_shrink, natural_width};
use vstd::prelude::*;

verus! {

/// A line that fills the column as it is can always be set, however little is
/// tolerated.
pub proof fn law_exact_lines_are_always_set(
    items: Seq<Item>,
    cfg: BreakConfig,
    windowed: bool,
    a: int,
    i: int,
)
    requires
        -1 <= a < i < items.len() <= 65535,
        may_end(items, i),
        natural_width(items, a + 1, i) == cfg.line_width,
        a >= 0 ==> spec::table(items, cfg, windowed, items.len() as int)[a].demerits
            != Node::UNREACHABLE,
    ensures
        spec::table(items, cfg, windowed, items.len() as int)[i].demerits != Node::UNREACHABLE,
{
    let n = items.len() as int;
    let best = spec::table(items, cfg, windowed, i);
    let whole = spec::table(items, cfg, windowed, n);
    b::lemma_table_prefix(items, cfg, windowed, i + 1, n);
    b::lemma_table_prefix(items, cfg, windowed, i, n);
    b::lemma_table_prefix(items, cfg, windowed, i, i + 1);
    assert(whole[i] == whole.take(i + 1)[i]);
    if a >= 0 {
        assert(whole[a] == whole.take(i)[a]);
        assert(best[a] == whole[a]);
    }
    line_laws::lemma_naturals(items, a, i);
    line_laws::law_badness_is_a_cube(0);
    assert(spec::candidate(items, cfg, best, a, i) is Some);
    assert(spec::can_fit(items, cfg, a, i));
    let start = spec::candidate(items, cfg, best, -1, i);
    if a < 0 {
        laws::lemma_scan_keeps_some(items, cfg, best, spec::Scope::All, i, i, start);
        laws::lemma_scan_keeps_some(items, cfg, best, spec::Scope::Fitting, i, i, start);
    } else {
        laws::lemma_scan_minimal(items, cfg, best, spec::Scope::All, i, i, start, a);
        laws::lemma_scan_minimal(items, cfg, best, spec::Scope::Fitting, i, i, start, a);
    }
    laws::lemma_chosen_capped(items, cfg, best, i, windowed);
}

/// The item that the line behind a node starts after, -1 for the first line.
pub open spec fn from(n: Node) -> int {
    if n.prev == 65535 {
        -1
    } else {
        n.prev as int
    }
}

/// Of several ways to a break that cost the same, the one whose last line
/// starts first is taken.
pub proof fn law_ties_go_to_the_earlier_start(items: Seq<Item>, cfg: BreakConfig, a: int, i: int)
    requires
        -1 <= a < i < items.len() < 65535,
        may_end(items, i),
        a >= 0 ==> spec::table(items, cfg, false, items.len() as int)[a].demerits
            != Node::UNREACHABLE,
    ensures
        ({
            let best = spec::table(items, cfg, false, items.len() as int);
            spec::candidate(items, cfg, best, a, i) matches Some(c) ==> c.demerits
                == best[i].demerits ==> from(best[i]) <= a
        }),
{
    let n = items.len() as int;
    let best = spec::table(items, cfg, false, n);
    let before = spec::table(items, cfg, false, i);
    b::lemma_table_prefix(items, cfg, false, i + 1, n);
    b::lemma_table_prefix(items, cfg, false, i, n);
    b::lemma_table_prefix(items, cfg, false, i, i + 1);
    assert(best[i] == best.take(i + 1)[i]);
    if a >= 0 {
        assert(best[a] == best.take(i)[a]);
    }
    let start = spec::candidate(items, cfg, before, -1, i);
    lemma_tie(items, cfg, before, i, i, a);
    laws::lemma_scan_minimal(items, cfg, before, spec::Scope::All, i, i, start, a);
}

proof fn lemma_tie(items: Seq<Item>, cfg: BreakConfig, best: Seq<Node>, i: int, hi: int, a: int)
    requires
        0 <= hi <= i < items.len() < 65535,
        -1 <= a,
        a >= 0 ==> spec::reachable(best[a]),
    ensures
        ({
            let start = spec::candidate(items, cfg, best, -1, i);
            spec::scan(items, cfg, best, spec::Scope::All, i, hi, start) matches Some(n) ==> {
                &&& from(n) < hi
                &&& a < hi ==> (spec::candidate(items, cfg, best, a, i) matches Some(c)
                    ==> c.demerits <= n.demerits ==> from(n) <= a)
            }
        }),
    decreases hi,
{
    let start = spec::candidate(items, cfg, best, -1, i);
    if hi > 0 {
        lemma_tie(items, cfg, best, i, hi - 1, a);
        if a < hi - 1 {
            laws::lemma_scan_minimal(items, cfg, best, spec::Scope::All, i, hi - 1, start, a);
        }
    }
}

/// A forced line costs the square of its badness and the line penalty. One that
/// would have to shrink by more than it can counts as the worst there is.
pub proof fn law_forced_lines_cost_their_badness(
    items: Seq<Item>,
    cfg: BreakConfig,
    best: Seq<Node>,
    i: int,
)
    requires
        0 <= i < items.len(),
        spec::candidate(items, cfg, best, -1, i) is Some,
        items[i].spec_kind() == ItemKind::Penalty,
        items[i].spec_forced(),
        items[i].spec_penalty() == -32768,
        cfg.line_penalty <= 1000,
    ensures
        ({
            let n = spec::candidate(items, cfg, best, -1, i)->0;
            let w = natural_width(items, 0, i);
            let z = natural_shrink(items, 0, i);
            let x = cfg.line_penalty + spec::badness_of(n.adjustment_q8 as int);
            let worst = cfg.line_penalty + 10000;
            &&& w <= cfg.line_width ==> n.demerits == x * x
            &&& w - z <= cfg.line_width < w ==> n.demerits == x * x
            &&& 256 * (w - cfg.line_width) >= 257 * z && w > cfg.line_width ==> n.demerits == worst
                * worst
            &&& n.prev == 65535
        }),
{
    line_laws::lemma_naturals(items, -1, i);
    let r = spec::line_ratio(items, cfg, -1, i)->0;
    line_laws::law_badness_is_a_cube(r);
    line_laws::lemma_ratio_narrows(r);
    line_laws::lemma_ratio_range(items, cfg, -1, i);
    line_laws::law_badness_is_a_cube(-32768);
    let w = natural_width(items, 0, i);
    let z = natural_shrink(items, 0, i);
    let over = w - cfg.line_width;
    if over > 0 && z > 0 && 256 * over >= 257 * z {
        let q = over * 256 / z;
        assert(q >= 257) by (nonlinear_arith)
            requires
                q == over * 256 / z,
                z > 0,
                256 * over >= 257 * z,
        ;
        assert(spec::over_shrunk(items, cfg, -1, i));
    }
    if 0 < over <= z {
        let q = over * 256 / z;
        assert(0 <= q <= 256) by (nonlinear_arith)
            requires
                q == over * 256 / z,
                0 < over <= z,
        ;
        assert(!spec::over_shrunk(items, cfg, -1, i));
    }
    let x = cfg.line_penalty + spec::line_badness(items, cfg, -1, i, r);
    assert(0 <= x * x <= 121000000) by (nonlinear_arith)
        requires
            0 <= x <= 11000,
    ;
    let n = spec::candidate(items, cfg, best, -1, i)->0;
    assert(spec::badness_of(n.adjustment_q8 as int) == spec::badness_of(r));
}

/// A break that is encouraged costs less, by the square of its penalty.
pub proof fn law_encouraged_breaks_cost_less(
    items: Seq<Item>,
    cfg: BreakConfig,
    best: Seq<Node>,
    i: int,
)
    requires
        0 <= i < items.len(),
        spec::candidate(items, cfg, best, -1, i) is Some,
        items[i].spec_kind() == ItemKind::Penalty,
        !items[i].spec_forced(),
        -10000 <= items[i].spec_penalty() < 0,
        cfg.line_penalty <= 1000,
    ensures
        ({
            let n = spec::candidate(items, cfg, best, -1, i)->0;
            let x = cfg.line_penalty + spec::badness_of(n.adjustment_q8 as int);
            let p = items[i].spec_penalty() as int;
            n.demerits == x * x - p * p
        }),
{
    let r = spec::line_ratio(items, cfg, -1, i)->0;
    line_laws::law_badness_is_a_cube(r);
    line_laws::lemma_ratio_narrows(r);
    line_laws::lemma_ratio_range(items, cfg, -1, i);
    let x = cfg.line_penalty + spec::badness_of(r);
    let p = items[i].spec_penalty() as int;
    assert(0 <= x * x <= 121000000) by (nonlinear_arith)
        requires
            0 <= x <= 11000,
    ;
    assert(0 <= p * p <= 100000000) by (nonlinear_arith)
        requires
            -10000 <= p <= 0,
    ;
    let n = spec::candidate(items, cfg, best, -1, i)->0;
    assert(spec::badness_of(n.adjustment_q8 as int) == spec::badness_of(r));
}

/// A paragraph of no items has no lines, one of too many is refused, and so is
/// one without memory; of the others only one that cannot be broken is.
pub proof fn law_paragraphs_are_refused(items: Seq<Item>, cfg: BreakConfig, windowed: bool, room: bool)
    ensures
        items.len() == 0 ==> b::outcome(items, cfg, windowed, room) == Err::<
            Seq<BreakChoice>,
            BreakError,
        >(BreakError::EmptyParagraph),
        items.len() > cfg.max_items ==> b::outcome(items, cfg, windowed, room) == Err::<
            Seq<BreakChoice>,
            BreakError,
        >(BreakError::ItemBudgetExceeded),
        items.len() > 0 ==> b::outcome(items, cfg, windowed, false) == Err::<
            Seq<BreakChoice>,
            BreakError,
        >(BreakError::ItemBudgetExceeded),
        0 < items.len() <= cfg.max_items ==> (b::outcome(items, cfg, windowed, true) is Err <==>
            spec::paragraph_lines(items, cfg, windowed) is None),
        b::outcome(items, cfg, windowed, room) matches Ok(lines) ==> spec::paragraph_lines(
            items,
            cfg,
            windowed,
        ) == Some(lines),
{
}

/// A second pass is due where no way was found, and where all the text came out
/// as one line wider than the column; not for other errors, nor for more lines.
pub proof fn law_when_a_second_pass_is_due(lines: Seq<BreakChoice>, width: u16)
    ensures
        b::needs_retry(Err(BreakError::NoFeasibleBreaks), lines, width),
        !b::needs_retry(Err(BreakError::EmptyParagraph), lines, width),
        !b::needs_retry(Err(BreakError::ItemBudgetExceeded), lines, width),
        lines.len() == 1 ==> (b::needs_retry(Ok(()), lines, width) <==> lines[0].line_width_used
            > width),
        lines.len() != 1 ==> !b::needs_retry(Ok(()), lines, width),
{
}

/// Lines are appended to those that there were, and an error leaves them as
/// they are.
pub proof fn law_lines_are_appended(
    items: Seq<Item>,
    cfg: BreakConfig,
    windowed: bool,
    before: Seq<BreakChoice>,
    r: Result<(), BreakError>,
    after: Seq<BreakChoice>,
)
    requires
        b::breaks_to(items, cfg, windowed, before, r, after),
    ensures
        r is Ok ==> after.len() > before.len() || spec::paragraph_lines(
            items,
            cfg,
            windowed,
        )->0.len() == 0,
        after.len() >= before.len() && after.take(before.len() as int) == before,
        r is Err ==> after == before,
{
    assert(after.take(before.len() as int) =~= before);
}

} // verus!
