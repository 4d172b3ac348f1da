//! What holds of every paragraph that the breaker takes.

use crate::layout::breaker as b;
use crate::layout::breaker::{BreakChoice, BreakConfig, BreakError, ChoiceFlags, Node};
use crate::layout::breaker_spec as spec;
use crate::layout::items::Item;
use vstd::prelude::*;

verus! {

/// What the bits of a line's flags say.
pub proof fn lemma_flag_values()
    by (bit_vector)
    ensures
        0u8 & 4 == 0,
        1u8 & 4 == 0,
        2u8 & 4 == 0,
        3u8 & 4 == 0,
        4u8 & 4 != 0,
        5u8 & 4 != 0,
        6u8 & 4 != 0,
        7u8 & 4 != 0,
        0u8 & 1 == 0,
        1u8 & 1 != 0,
        2u8 & 1 == 0,
        3u8 & 1 != 0,
        4u8 & 1 == 0,
        5u8 & 1 != 0,
        6u8 & 1 == 0,
        7u8 & 1 != 0,
        0u8 & 2 == 0,
        1u8 & 2 == 0,
        2u8 & 2 != 0,
        3u8 & 2 != 0,
        4u8 & 2 == 0,
        5u8 & 2 == 0,
        6u8 & 2 != 0,
        7u8 & 2 != 0,
{
}

/// The breakpoints on a path ascend, and each line is the one its node was
/// made for.
pub proof fn lemma_path_lines(
    items: Seq<Item>,
    cfg: BreakConfig,
    windowed: bool,
    cur: int,
)
    requires
        items.len() <= 65535,
        0 <= cur < items.len(),
        spec::reachable(spec::table(items, cfg, windowed, items.len() as int)[cur]),
    ensures
        ({
            let best = spec::table(items, cfg, windowed, items.len() as int);
            let path = spec::path_to(best, cur);
            &&& path.len() >= 1
            &&& path.last() == cur
            &&& forall|k: int|
                0 <= k < path.len() ==> 0 <= #[trigger] path[k] < items.len() && spec::feasible(
                    items,
                    path[k],
                )
            &&& forall|j: int, k: int| 0 <= j < k < path.len() ==> path[j] < path[k]
            &&& forall|k: int|
                0 <= k < path.len() ==> spec::candidate(
                    items,
                    cfg,
                    best,
                    line_start(path, k),
                    #[trigger] path[k],
                ) == Some(best[path[k]])
        }),
    decreases cur,
{
    let n = items.len() as int;
    let best = spec::table(items, cfg, windowed, n);
    let a = b::lemma_table_node(items, cfg, windowed, n, cur);
    let path = spec::path_to(best, cur);
    if a >= 0 {
        lemma_path_lines(items, cfg, windowed, a);
        let before = spec::path_to(best, a);
        assert(path == before.push(cur));
        assert forall|k: int| 0 <= k < path.len() implies spec::candidate(
            items,
            cfg,
            best,
            line_start(path, k),
            #[trigger] path[k],
        ) == Some(best[path[k]]) by {
            if k < before.len() {
                assert(path[k] == before[k]);
                assert(line_start(path, k) == line_start(before, k));
            }
        }
    } else {
        assert(path =~= seq![cur]);
    }
}

/// Where line `k` of a path starts: after the breakpoint before it, -1 for
/// the start of the paragraph.
pub open spec fn line_start(path: Seq<int>, k: int) -> int {
    if k == 0 {
        -1
    } else {
        path[k - 1]
    }
}

/// Item index after which line `k` starts, -1 for the first line.
pub open spec fn start_item(lines: Seq<BreakChoice>, k: int) -> int {
    if k == 0 {
        -1
    } else {
        lines[k - 1].item_idx as int
    }
}

/// The lines of a paragraph follow one another: there is at least one, each
/// ends at a feasible breakpoint behind the one before, and the last line
/// alone carries `LAST_LINE`.
pub proof fn law_lines_follow_one_another(items: Seq<Item>, cfg: BreakConfig, windowed: bool)
    requires
        items.len() <= 65535,
        spec::paragraph_lines(items, cfg, windowed) is Some,
    ensures
        ({
            let lines = spec::paragraph_lines(items, cfg, windowed)->0;
            &&& lines.len() >= 1
            &&& forall|k: int|
                0 <= k < lines.len() ==> (#[trigger] lines[k]).item_idx < items.len()
                    && spec::feasible(items, lines[k].item_idx as int)
            &&& forall|j: int, k: int|
                0 <= j < k < lines.len() ==> (#[trigger] lines[j]).item_idx < (
                #[trigger] lines[k]).item_idx
            &&& forall|k: int|
                0 <= k < lines.len() ==> ((#[trigger] lines[k]).flags.bits & ChoiceFlags::LAST_LINE
                    != 0 <==> k + 1 == lines.len())
        }),
{
    let best = spec::table(items, cfg, windowed, items.len() as int);
    let t = spec::terminal(items, best);
    b::lemma_terminal_in_range(items, best);
    lemma_path_lines(items, cfg, windowed, t);
    lemma_flag_values();
    let path = spec::path_to(best, t);
    let lines = spec::choices_of(items, best, path);
    assert forall|k: int| 0 <= k < lines.len() implies (#[trigger] lines[k]).item_idx < items.len()
        && spec::feasible(items, lines[k].item_idx as int) by {
        assert(0 <= path[k] < items.len());
    }
    assert forall|j: int, k: int| 0 <= j < k < lines.len() implies (#[trigger] lines[j]).item_idx
        < (#[trigger] lines[k]).item_idx by {
        assert(0 <= path[j] < items.len());
        assert(0 <= path[k] < items.len());
    }
}

/// Every line reports what lies between its breakpoints: its natural width,
/// stretch and shrink (capped at 65535) and the ratio that sets it.
pub proof fn law_lines_report_their_metrics(
    items: Seq<Item>,
    cfg: BreakConfig,
    windowed: bool,
    k: int,
)
    requires
        items.len() <= 65535,
        spec::paragraph_lines(items, cfg, windowed) is Some,
        0 <= k < spec::paragraph_lines(items, cfg, windowed)->0.len(),
    ensures
        ({
            let lines = spec::paragraph_lines(items, cfg, windowed)->0;
            let a = start_item(lines, k);
            let i = lines[k].item_idx as int;
            &&& lines[k].line_width_used == spec::min_int(spec::line_w(items, a, i), 65535) as u16
            &&& lines[k].stretch_total == spec::min_int(spec::line_y(items, a, i), 65535) as u16
            &&& lines[k].shrink_total == spec::min_int(spec::line_z(items, a, i), 65535) as u16
            &&& spec::line_ratio(items, cfg, a, i) matches Some(r)
            &&& lines[k].adjustment_ratio_q8 == spec::min_int(r, 32767) as i16
            &&& lines[k].fitness == spec::fitness_of(r)
        }),
{
    let best = spec::table(items, cfg, windowed, items.len() as int);
    let t = spec::terminal(items, best);
    b::lemma_terminal_in_range(items, best);
    lemma_path_lines(items, cfg, windowed, t);
    let path = spec::path_to(best, t);
    let lines = spec::choices_of(items, best, path);
    assert(0 <= path[k] < items.len());
    assert(lines[k].item_idx == path[k]);
    if k > 0 {
        assert(0 <= path[k - 1] < items.len());
        assert(lines[k - 1].item_idx == path[k - 1]);
    }
    assert(start_item(lines, k) == line_start(path, k));
    assert(spec::candidate(items, cfg, best, line_start(path, k), path[k]) == Some(best[path[k]]));
}

pub proof fn lemma_scan_keeps_some(
    items: Seq<Item>,
    cfg: BreakConfig,
    best: Seq<Node>,
    scope: spec::Scope,
    i: int,
    hi: int,
    init: Option<Node>,
)
    requires
        init is Some,
    ensures
        spec::scan(items, cfg, best, scope, i, hi, init) is Some,
    decreases hi,
{
    if hi > 0 {
        lemma_scan_keeps_some(items, cfg, best, scope, i, hi - 1, init);
    }
}

/// A forced break can always be reached: straight from the start, if need be.
proof fn lemma_forced_reachable(items: Seq<Item>, cfg: BreakConfig, windowed: bool, n: int, i: int)
    requires
        0 <= i < n <= 65535,
        spec::is_forced_break(items[i]),
        spec::feasible(items, i),
    ensures
        spec::reachable(spec::table(items, cfg, windowed, n)[i]),
{
    let whole = spec::table(items, cfg, windowed, n);
    let before = spec::table(items, cfg, windowed, i);
    b::lemma_table_prefix(items, cfg, windowed, i + 1, n);
    b::lemma_table_prefix(items, cfg, windowed, i, i);
    assert(whole[i] == whole.take(i + 1)[i]);
    let start = spec::candidate(items, cfg, before, -1, i);
    assert(start is Some);
    if windowed {
        lemma_scan_keeps_some(items, cfg, before, spec::Scope::Fitting, i, i, start);
    } else {
        lemma_scan_keeps_some(items, cfg, before, spec::Scope::All, i, i, start);
    }
    let chosen = spec::chosen_at(items, cfg, before, i, windowed);
    assert(chosen is Some);
    lemma_chosen_capped(items, cfg, before, i, windowed);
}

proof fn lemma_scan_capped(
    items: Seq<Item>,
    cfg: BreakConfig,
    best: Seq<Node>,
    scope: spec::Scope,
    i: int,
    hi: int,
    init: Option<Node>,
)
    requires
        init matches Some(n) ==> n.demerits <= spec::demerits_cap(),
    ensures
        spec::scan(items, cfg, best, scope, i, hi, init) matches Some(n) ==> n.demerits
            <= spec::demerits_cap(),
    decreases hi,
{
    if hi > 0 {
        lemma_scan_capped(items, cfg, best, scope, i, hi - 1, init);
    }
}

pub proof fn lemma_chosen_capped(
    items: Seq<Item>,
    cfg: BreakConfig,
    best: Seq<Node>,
    i: int,
    windowed: bool,
)
    ensures
        spec::chosen_at(items, cfg, best, i, windowed) matches Some(n) ==> n.demerits
            <= spec::demerits_cap(),
{
    let start = spec::candidate(items, cfg, best, -1, i);
    lemma_scan_capped(items, cfg, best, spec::Scope::All, i, i, start);
    lemma_scan_capped(items, cfg, best, spec::Scope::Fitting, i, i, start);
    lemma_scan_capped(items, cfg, best, spec::Scope::TooWide, i, i, None);
}

/// A paragraph with a forced break (that is not forbidden as well) always
/// has lines, and the last line ends at the last such break.
pub proof fn law_forced_break_ends_paragraph(
    items: Seq<Item>,
    cfg: BreakConfig,
    windowed: bool,
    f: int,
)
    requires
        0 <= f < items.len() <= 65535,
        spec::is_forced_break(items[f]),
        spec::feasible(items, f),
        forall|k: int|
            f < k < items.len() ==> !(spec::is_forced_break(#[trigger] items[k])
                && spec::feasible(items, k)),
    ensures
        spec::paragraph_lines(items, cfg, windowed) is Some,
        spec::paragraph_lines(items, cfg, windowed)->0.last().item_idx == f,
        spec::paragraph_lines(items, cfg, windowed)->0.last().flags.bits & ChoiceFlags::FORCED_BREAK
            != 0,
        spec::paragraph_lines(items, cfg, windowed)->0.last().flags.bits & ChoiceFlags::LAST_LINE
            != 0,
{
    let n = items.len() as int;
    let best = spec::table(items, cfg, windowed, n);
    lemma_forced_reachable(items, cfg, windowed, n, f);
    assert forall|k: int| f < k < n && spec::is_forced_break(items[k]) implies !spec::reachable(
        #[trigger] best[k],
    ) by {
        if spec::reachable(best[k]) {
            let a = b::lemma_table_node(items, cfg, windowed, n, k);
        }
    }
    lemma_last_is(items, best, true, n, f);
    let path = spec::path_to(best, f);
    b::lemma_table_prefix(items, cfg, windowed, n, n);
    b::lemma_path_in_range(best, f);
    lemma_flag_values();
}

proof fn lemma_last_is(items: Seq<Item>, best: Seq<Node>, forced: bool, k: int, f: int)
    requires
        0 <= f < k,
        spec::reachable(best[f]) && (forced ==> spec::is_forced_break(items[f])),
        forall|j: int|
            f < j < k && (forced ==> spec::is_forced_break(items[j])) ==> !spec::reachable(
                #[trigger] best[j],
            ),
    ensures
        spec::last_reachable(items, best, forced, k) == f,
    decreases k,
{
    if k - 1 > f {
        lemma_last_is(items, best, forced, k - 1, f);
    }
}

/// No other reachable predecessor gives fewer demerits than the one the full
/// scan records: the table holds the cheapest way to every breakpoint.
pub proof fn law_full_scan_is_cheapest(items: Seq<Item>, cfg: BreakConfig, i: int, a: int)
    requires
        -1 <= a < i < items.len() <= 65535,
        spec::feasible(items, i),
        a >= 0 ==> spec::reachable(spec::table(items, cfg, false, items.len() as int)[a]),
    ensures
        ({
            let best = spec::table(items, cfg, false, items.len() as int);
            spec::candidate(items, cfg, best, a, i) matches Some(c) ==> spec::reachable(best[i])
                && best[i].demerits <= c.demerits
        }),
{
    let n = items.len() as int;
    let best = spec::table(items, cfg, false, n);
    let before = spec::table(items, cfg, false, i);
    b::lemma_table_prefix(items, cfg, false, i + 1, n);
    b::lemma_table_prefix(items, cfg, false, i, n);
    assert(best[i] == best.take(i + 1)[i]);
    if a >= 0 {
        assert(best[a] == best.take(i)[a]);
    }
    let start = spec::candidate(items, cfg, before, -1, i);
    lemma_scan_minimal(items, cfg, before, spec::Scope::All, i, i, start, a);
    lemma_chosen_capped(items, cfg, before, i, false);
}

pub proof fn lemma_scan_minimal(
    items: Seq<Item>,
    cfg: BreakConfig,
    best: Seq<Node>,
    scope: spec::Scope,
    i: int,
    hi: int,
    init: Option<Node>,
    a: int,
)
    requires
        -1 <= a < hi || a == -1,
        a == -1 ==> init == spec::candidate(items, cfg, best, -1, i),
        a >= 0 ==> spec::reachable(best[a]) && spec::in_scope(scope, items, cfg, a, i),
    ensures
        spec::candidate(items, cfg, best, a, i) matches Some(c) ==> (spec::scan(
            items,
            cfg,
            best,
            scope,
            i,
            hi,
            init,
        ) matches Some(n) && n.demerits <= c.demerits),
    decreases hi,
{
    if hi > 0 && a != hi - 1 {
        lemma_scan_minimal(items, cfg, best, scope, i, hi - 1, init, a);
    }
}

// ── one paragraph, several calls ──────────────────────────────────

/// What the scratch held before does not show: two calls on one paragraph,
/// with whatever scratch, give the same result and the same lines, unless one
/// of them was over budget. A scratch that was used, or let go of, serves as
/// a fresh one does.
pub proof fn law_scratch_does_not_show(
    items: Seq<Item>,
    cfg: BreakConfig,
    windowed: bool,
    before: Seq<BreakChoice>,
    r1: Result<(), BreakError>,
    after1: Seq<BreakChoice>,
    r2: Result<(), BreakError>,
    after2: Seq<BreakChoice>,
)
    requires
        b::breaks_to(items, cfg, windowed, before, r1, after1),
        b::breaks_to(items, cfg, windowed, before, r2, after2),
        r1 != Err::<(), BreakError>(BreakError::ItemBudgetExceeded),
        r2 != Err::<(), BreakError>(BreakError::ItemBudgetExceeded),
    ensures
        r1 == r2,
        after1 == after2,
{
    let room1 = choose|room: bool|
        b::delivers(#[trigger] b::outcome(items, cfg, windowed, room), before, r1, after1);
    let room2 = choose|room: bool|
        b::delivers(#[trigger] b::outcome(items, cfg, windowed, room), before, r2, after2);
    assert(b::outcome(items, cfg, windowed, room1) == b::outcome(items, cfg, windowed, room2));
}

/// A call that is over budget leaves the lines as they were.
pub proof fn law_over_budget_adds_nothing(
    items: Seq<Item>,
    cfg: BreakConfig,
    windowed: bool,
    before: Seq<BreakChoice>,
    r: Result<(), BreakError>,
    after: Seq<BreakChoice>,
)
    requires
        b::breaks_to(items, cfg, windowed, before, r, after),
        r is Err,
    ensures
        after == before,
{
}

/// The two passes give what the first pass gives, unless that has no feasible
/// breaks or is a single line wider than the column: then they give what the
/// second pass gives by itself.
pub proof fn law_second_pass_only_when_needed(
    items: Seq<Item>,
    cfg: BreakConfig,
    before: Seq<BreakChoice>,
    r: Result<(), BreakError>,
    after: Seq<BreakChoice>,
    r1: Result<(), BreakError>,
    after1: Seq<BreakChoice>,
    r2: Result<(), BreakError>,
    after2: Seq<BreakChoice>,
)
    requires
        b::breaks_in_two(items, cfg, before, r, after),
        b::breaks_to(items, cfg, true, before, r1, after1),
        b::breaks_to(items, cfg.spec_fallback(), true, Seq::empty(), r2, after2),
        r != Err::<(), BreakError>(BreakError::ItemBudgetExceeded),
        r1 != Err::<(), BreakError>(BreakError::ItemBudgetExceeded),
        r2 != Err::<(), BreakError>(BreakError::ItemBudgetExceeded),
    ensures
        if b::needs_retry(r1, after1, cfg.line_width) {
            r == r2 && after == after2
        } else {
            r == r1 && after == after1
        },
{
    let (room1, room2) = choose|room1: bool, room2: bool| #[trigger]
        b::delivers_two_pass(items, cfg, room1, room2, before, r, after);
    let first = choose|room: bool|
        b::delivers(#[trigger] b::outcome(items, cfg, true, room), before, r1, after1);
    let second = choose|room: bool|
        b::delivers(
            #[trigger] b::outcome(items, cfg.spec_fallback(), true, room),
            Seq::empty(),
            r2,
            after2,
        );
    assert(b::outcome(items, cfg, true, room1) == b::outcome(items, cfg, true, first));
    if b::needs_retry(r1, after1, cfg.line_width) {
        assert(b::outcome(items, cfg.spec_fallback(), true, room2) == b::outcome(
            items,
            cfg.spec_fallback(),
            true,
            second,
        ));
    }
}

} // verus!
