//! What the lines of a paragraph are for: where they may end, what they hold, how
//! they are set, and what they cost.

use crate::layout::breaker as b;
use crate::layout::breaker::{BreakConfig, FitnessClass, Node};
use crate::layout::breaker_laws as laws;
use crate::layout::breaker_spec as spec;
use crate::layout::items::{Item, ItemKind};
use vstd::prelude::*;

verus! {

// ── what lies between two breaks ──────────────────────────────────

/// The widths of `items[lo..hi]`, added up; a penalty has none.
pub open spec fn natural_width(items: Seq<Item>, lo: int, hi: int) -> int
    decreases hi - lo,
{
    if lo >= hi {
        0
    } else {
        natural_width(items, lo, hi - 1) + (if items[hi - 1].spec_kind() == ItemKind::Penalty {
            0
        } else {
            items[hi - 1].width as int
        })
    }
}

/// By how much the glue of `items[lo..hi]` may stretch.
pub open spec fn natural_stretch(items: Seq<Item>, lo: int, hi: int) -> int
    decreases hi - lo,
{
    if lo >= hi {
        0
    } else {
        natural_stretch(items, lo, hi - 1) + (if items[hi - 1].spec_kind() == ItemKind::Glue {
            items[hi - 1].stretch as int
        } else {
            0
        })
    }
}

/// By how much the glue of `items[lo..hi]` may shrink.
pub open spec fn natural_shrink(items: Seq<Item>, lo: int, hi: int) -> int
    decreases hi - lo,
{
    if lo >= hi {
        0
    } else {
        natural_shrink(items, lo, hi - 1) + (if items[hi - 1].spec_kind() == ItemKind::Glue {
            items[hi - 1].shrink as int
        } else {
            0
        })
    }
}

pub proof fn lemma_naturals(items: Seq<Item>, a: int, i: int)
    requires
        -1 <= a < i,
    ensures
        spec::line_w(items, a, i) == natural_width(items, a + 1, i),
        spec::line_y(items, a, i) == natural_stretch(items, a + 1, i),
        spec::line_z(items, a, i) == natural_shrink(items, a + 1, i),
        0 <= natural_width(items, a + 1, i),
        0 <= natural_stretch(items, a + 1, i),
        0 <= natural_shrink(items, a + 1, i),
    decreases i - a,
{
    if a + 1 < i {
        lemma_naturals(items, a, i - 1);
    }
}

// ── where lines end ───────────────────────────────────────────────

/// A line may end at glue behind a box, and at a penalty of any cost but the
/// one that forbids it.
pub open spec fn may_end(items: Seq<Item>, i: int) -> bool {
    ||| items[i].spec_kind() == ItemKind::Glue && i > 0 && items[i - 1].spec_kind()
        == ItemKind::Box
    ||| items[i].spec_kind() == ItemKind::Penalty && items[i].spec_penalty() < 32767
}

/// Every line ends where a line may end, at an item behind the end of the line
/// before it, and never at a box or at a break that is forbidden.
pub proof fn law_lines_end_where_they_may(
    items: Seq<Item>,
    cfg: BreakConfig,
    windowed: bool,
    k: int,
)
    requires
        items.len() <= 65535,
        spec::paragraph_lines(items, cfg, windowed) is Some,
        0 <= k < spec::paragraph_lines(items, cfg, windowed)->0.len(),
    ensures
        ({
            let lines = spec::paragraph_lines(items, cfg, windowed)->0;
            let i = lines[k].item_idx as int;
            &&& 0 <= i < items.len()
            &&& may_end(items, i)
            &&& items[i].spec_kind() != ItemKind::Box
            &&& k > 0 ==> lines[k - 1].item_idx < i
        }),
{
    laws::law_lines_follow_one_another(items, cfg, windowed);
    let lines = spec::paragraph_lines(items, cfg, windowed)->0;
    assert(spec::feasible(items, lines[k].item_idx as int));
    if k > 0 {
        assert(lines[k - 1].item_idx < lines[k].item_idx);
    }
}

proof fn lemma_modest_ratio(r: int)
    requires
        -256 <= r <= 256,
    ensures
        spec::badness_of(r) <= 100,
{
    let m = spec::min_int(spec::abs_int(r), 2048);
    let sq = m * m / 256;
    let cu = sq * m / 256;
    assert(0 <= m * m <= 65536) by (nonlinear_arith)
        requires
            0 <= m <= 256,
    ;
    assert(0 <= sq * m <= 65536) by (nonlinear_arith)
        requires
            0 <= m <= 256,
            0 <= sq <= 256,
    ;
}

/// The line `(a, i]` can be set without more than all its stretch or shrink.
pub open spec fn fits_comfortably(items: Seq<Item>, cfg: BreakConfig, a: int, i: int) -> bool {
    let w = natural_width(items, a + 1, i);
    let stretch = natural_stretch(items, a + 1, i) + cfg.emergency_stretch;
    let shrink = natural_shrink(items, a + 1, i);
    ||| w == cfg.line_width
    ||| w < cfg.line_width <= w + stretch
    ||| w - shrink <= cfg.line_width < w
}

/// Every break that a comfortable line leads to is reached: glue behind a box, a
/// soft hyphen or any other penalty that is not forbidden, from the start of the
/// paragraph or from a break that is reached itself.
#[verifier::rlimit(60)]
pub proof fn law_comfortable_breaks_are_reached(
    items: Seq<Item>,
    cfg: BreakConfig,
    windowed: bool,
    a: int,
    i: int,
)
    requires
        -1 <= a < i < items.len() <= 65535,
        cfg.tolerance >= 100,
        may_end(items, i),
        fits_comfortably(items, cfg, a, i),
        a >= 0 ==> spec::table(items, cfg, windowed, items.len() as int)[a].demerits
            != Node::UNREACHABLE,
    ensures
        spec::table(items, cfg, windowed, items.len() as int)[i].demerits != Node::UNREACHABLE,
{
    let n = items.len() as int;
    let best = spec::table(items, cfg, windowed, i);
    let whole = spec::table(items, cfg, windowed, n);
    b::lemma_table_prefix(items, cfg, windowed, i + 1, n);
    b::lemma_table_prefix(items, cfg, windowed, i, n);
    b::lemma_table_prefix(items, cfg, windowed, i, i + 1);
    assert(whole[i] == whole.take(i + 1)[i]);
    if a >= 0 {
        assert(whole[a] == whole.take(i)[a]);
        assert(best[a] == whole[a]);
    }
    lemma_naturals(items, a, i);
    let w = natural_width(items, a + 1, i);
    let slack = cfg.line_width - w;
    let y = natural_stretch(items, a + 1, i) + cfg.emergency_stretch;
    let z = natural_shrink(items, a + 1, i);
    if slack > 0 {
        let q = slack * 256 / y;
        assert(0 <= q <= 256) by (nonlinear_arith)
            requires
                q == slack * 256 / y,
                0 < slack <= y,
        ;
        lemma_modest_ratio(q);
    } else if slack < 0 {
        let over = -slack;
        let q = over * 256 / z;
        assert(0 <= q <= 256) by (nonlinear_arith)
            requires
                q == over * 256 / z,
                0 < over <= z,
        ;
        lemma_modest_ratio(-q);
    } else {
        lemma_modest_ratio(0);
    }
    assert(spec::candidate(items, cfg, best, a, i) is Some);
    assert(spec::can_fit(items, cfg, a, i));
    let start = spec::candidate(items, cfg, best, -1, i);
    if a < 0 {
        laws::lemma_scan_keeps_some(items, cfg, best, spec::Scope::All, i, i, start);
        laws::lemma_scan_keeps_some(items, cfg, best, spec::Scope::Fitting, i, i, start);
    } else {
        laws::lemma_scan_minimal(items, cfg, best, spec::Scope::All, i, i, start, a);
        laws::lemma_scan_minimal(items, cfg, best, spec::Scope::Fitting, i, i, start, a);
    }
    laws::lemma_chosen_capped(items, cfg, best, i, windowed);
    assert(spec::chosen_at(items, cfg, best, i, windowed) is Some);
}

/// A paragraph without a forced break ends at the last break that is reached; so
/// one that a comfortable line leads to is not left behind.
pub proof fn law_unforced_paragraphs_go_on(
    items: Seq<Item>,
    cfg: BreakConfig,
    windowed: bool,
    a: int,
    i: int,
)
    requires
        -1 <= a < i < items.len() <= 65535,
        cfg.tolerance >= 100,
        may_end(items, i),
        fits_comfortably(items, cfg, a, i),
        a >= 0 ==> spec::table(items, cfg, windowed, items.len() as int)[a].demerits
            != Node::UNREACHABLE,
        forall|k: int|
            0 <= k < items.len() ==> !((#[trigger] items[k]).spec_kind() == ItemKind::Penalty
                && items[k].spec_forced()),
    ensures
        spec::paragraph_lines(items, cfg, windowed) matches Some(lines) && lines.last().item_idx
            >= i,
{
    law_comfortable_breaks_are_reached(items, cfg, windowed, a, i);
    let n = items.len() as int;
    let best = spec::table(items, cfg, windowed, n);
    lemma_none_forced(items, best, n);
    lemma_last_beyond(items, best, n, i);
    let t = spec::terminal(items, best);
    b::lemma_terminal_in_range(items, best);
    laws::lemma_path_lines(items, cfg, windowed, t);
}

proof fn lemma_none_forced(items: Seq<Item>, best: Seq<Node>, k: int)
    requires
        0 <= k <= items.len(),
        forall|j: int|
            0 <= j < items.len() ==> !((#[trigger] items[j]).spec_kind() == ItemKind::Penalty
                && items[j].spec_forced()),
    ensures
        spec::last_reachable(items, best, true, k) == -1,
    decreases k,
{
    if k > 0 {
        lemma_none_forced(items, best, k - 1);
        assert(!(items[k - 1].spec_kind() == ItemKind::Penalty && items[k - 1].spec_forced()));
    }
}

proof fn lemma_last_beyond(items: Seq<Item>, best: Seq<Node>, k: int, i: int)
    requires
        0 <= i < k,
        best[i].demerits != Node::UNREACHABLE,
    ensures
        i <= spec::last_reachable(items, best, false, k) < k,
        spec::reachable(best[spec::last_reachable(items, best, false, k)]),
    decreases k,
{
    if !(spec::reachable(best[k - 1])) {
        lemma_last_beyond(items, best, k - 1, i);
    }
}

/// A paragraph with a forced break has lines, whatever is in it, and the last of
/// them ends at the last forced break.
pub proof fn law_forced_breaks_end_paragraphs(
    items: Seq<Item>,
    cfg: BreakConfig,
    windowed: bool,
    f: int,
)
    requires
        0 <= f < items.len() <= 65535,
        items[f].spec_kind() == ItemKind::Penalty,
        items[f].spec_forced(),
        items[f].spec_penalty() < 32767,
        forall|k: int|
            f < k < items.len() ==> !((#[trigger] items[k]).spec_kind() == ItemKind::Penalty
                && items[k].spec_forced()),
    ensures
        spec::paragraph_lines(items, cfg, windowed) matches Some(lines) && lines.len() > 0
            && lines.last().item_idx == f,
{
    assert forall|k: int| f < k < items.len() implies !(spec::is_forced_break(#[trigger] items[k])
        && spec::feasible(items, k)) by {
        assert(!(items[k].spec_kind() == ItemKind::Penalty && items[k].spec_forced()));
    }
    laws::law_forced_break_ends_paragraph(items, cfg, windowed, f);
}

// ── what lines hold and how they are set ──────────────────────────

/// A line holds the items behind the line before it up to its break: it tells
/// their width, stretch and shrink, and the ratio that sets it in the column. A
/// ratio of 256 takes all the stretch there is, and one of -256 all the shrink.
pub proof fn law_lines_are_set_in_the_column(
    items: Seq<Item>,
    cfg: BreakConfig,
    windowed: bool,
    k: int,
)
    requires
        items.len() <= 65535,
        spec::paragraph_lines(items, cfg, windowed) is Some,
        0 <= k < spec::paragraph_lines(items, cfg, windowed)->0.len(),
    ensures
        ({
            let lines = spec::paragraph_lines(items, cfg, windowed)->0;
            let lo: int = if k == 0 {
                0
            } else {
                lines[k - 1].item_idx + 1
            };
            let i = lines[k].item_idx as int;
            let w = natural_width(items, lo, i);
            let y = natural_stretch(items, lo, i) + cfg.emergency_stretch;
            let z = natural_shrink(items, lo, i);
            let r = lines[k].adjustment_ratio_q8 as int;
            let forced = items[i].spec_kind() == ItemKind::Penalty && items[i].spec_forced();
            &&& w <= 65535 ==> lines[k].line_width_used == w
            &&& natural_stretch(items, lo, i) <= 65535 ==> lines[k].stretch_total
                == natural_stretch(items, lo, i)
            &&& z <= 65535 ==> lines[k].shrink_total == z
            &&& w == cfg.line_width ==> r == 0
            &&& w < cfg.line_width && 0 <= r < 32767 && y > 0 ==> r * y <= (cfg.line_width - w)
                * 256 < (r + 1) * y
            &&& w < cfg.line_width ==> r >= 0 && (y > 0 || forced && r == 0)
            &&& w - z <= cfg.line_width < w ==> -256 <= r <= 0 && -r * z <= (w - cfg.line_width)
                * 256 < (-r + 1) * z
            &&& 256 * (w - cfg.line_width) >= 257 * z && w > cfg.line_width ==> r == (if z > 0
                && forced {
                -256int
            } else {
                -32768int
            })
        }),
{
    laws::law_lines_report_their_metrics(items, cfg, windowed, k);
    laws::law_lines_follow_one_another(items, cfg, windowed);
    let lines = spec::paragraph_lines(items, cfg, windowed)->0;
    let a = laws::start_item(lines, k);
    let i = lines[k].item_idx as int;
    assert(spec::feasible(items, i));
    if k > 0 {
        assert(lines[k - 1].item_idx < lines[k].item_idx);
    }
    lemma_naturals(items, a, i);
    let w = natural_width(items, a + 1, i);
    let y = natural_stretch(items, a + 1, i) + cfg.emergency_stretch;
    let z = natural_shrink(items, a + 1, i);
    let slack = cfg.line_width - w;
    if slack > 0 && y > 0 {
        let q = slack * 256 / y;
        assert(q * y <= slack * 256 < (q + 1) * y && q >= 0) by (nonlinear_arith)
            requires
                q == slack * 256 / y,
                0 < slack,
                0 < y,
        ;
    }
    if slack < 0 && z > 0 {
        let over = -slack;
        let q = over * 256 / z;
        assert(q * z <= over * 256 < (q + 1) * z && q >= 0 && (over <= z ==> q <= 256) && (256 * over
            >= 257 * z ==> q >= 257)) by (nonlinear_arith)
            requires
                q == over * 256 / z,
                0 < over,
                0 < z,
        ;
    }
}

/// The flags of a line say whether its break is forced, whether it is a hyphen,
/// and whether it is the last line.
pub proof fn law_flags_tell_the_break(
    items: Seq<Item>,
    cfg: BreakConfig,
    windowed: bool,
    k: int,
)
    requires
        items.len() <= 65535,
        spec::paragraph_lines(items, cfg, windowed) is Some,
        0 <= k < spec::paragraph_lines(items, cfg, windowed)->0.len(),
    ensures
        ({
            let lines = spec::paragraph_lines(items, cfg, windowed)->0;
            let it = items[lines[k].item_idx as int];
            let bits = lines[k].flags.bits;
            let penalty = it.spec_kind() == ItemKind::Penalty;
            &&& (bits & 1 != 0) == (penalty && it.spec_forced())
            &&& (bits & 2 != 0) == (penalty && it.spec_flagged())
            &&& (bits & 4 != 0) == (k + 1 == lines.len())
        }),
{
    laws::lemma_flag_values();
    laws::law_lines_follow_one_another(items, cfg, windowed);
    let best = spec::table(items, cfg, windowed, items.len() as int);
    let t = spec::terminal(items, best);
    b::lemma_terminal_in_range(items, best);
    laws::lemma_path_lines(items, cfg, windowed, t);
    let path = spec::path_to(best, t);
    assert(0 <= path[k] < items.len());
}

// ── badness and demerits ──────────────────────────────────────────

/// Badness is a hundred times the cube of the ratio, rounded down a little, and
/// never more than 10000; a line that is left too wide has all of that.
pub proof fn law_badness_is_a_cube(r: int)
    ensures
        ({
            let m = if r < 0 {
                -r
            } else {
                r
            };
            let q = spec::badness_of(r);
            &&& 0 <= q <= 10000
            &&& q == spec::badness_of(-r) || r == -32768 || r == 32768
            &&& r == 0 ==> q == 0
            &&& r == 256 || r == -256 ==> q == 100
            &&& r == -32768 ==> q == 10000
            &&& m <= 1187 ==> q * 16777216 <= 100 * (m * m * m) < (q + 5) * 16777216
            &&& 1190 <= m < 32768 ==> q == 10000
        }),
{
    let m = spec::min_int(spec::abs_int(r), 2048);
    lemma_cube(m);
    lemma_cube(256);
    lemma_cube(0);
}

/// The rounded cube of a ratio `m`.
proof fn lemma_cube(m: int)
    requires
        0 <= m <= 2048,
    ensures
        ({
            let sq = m * m / 256;
            let cu = sq * m / 256;
            let q = 100 * cu / 256;
            &&& q >= 0
            &&& q * 16777216 <= 100 * (m * m * m)
            &&& m <= 1187 ==> 100 * (m * m * m) < (q + 5) * 16777216
            &&& m <= 1187 ==> q < 10000
            &&& m >= 1190 ==> q >= 10000
            &&& m == 256 ==> q == 100
            &&& m == 0 ==> q == 0
        }),
{
    let sq = m * m / 256;
    let c = m * m * m;
    let d = sq * m;
    let cu = d / 256;
    let q = 100 * cu / 256;
    assert(m * m >= 0) by (nonlinear_arith);
    assert(256 * sq <= m * m < 256 * sq + 256);
    assert(d >= 0 && 256 * d <= c <= 256 * d + 256 * m) by (nonlinear_arith)
        requires
            256 * sq <= m * m < 256 * sq + 256,
            sq >= 0,
            m >= 0,
            d == sq * m,
            c == m * m * m,
    ;
    assert(256 * cu <= d < 256 * cu + 256);
    assert(256 * q <= 100 * cu < 256 * q + 256);
    if m <= 1187 {
        assert(c <= 1672446203) by (nonlinear_arith)
            requires
                0 <= m <= 1187,
                c == m * m * m,
        ;
    }
    if m >= 1190 {
        assert(c >= 1685159000) by (nonlinear_arith)
            requires
                m >= 1190,
                c == m * m * m,
        ;
    }
    if m == 256 {
        assert(c == 16777216 && sq == 256 && d == 65536);
    }
}

/// The class of a line goes by its ratio: below minus a half it is tight, up to a
/// half normal, up to one loose, and very loose from there.
pub proof fn law_fitness_goes_by_the_ratio(r: int)
    ensures
        r < -128 ==> spec::fitness_of(r) == FitnessClass::Tight,
        -128 <= r < 128 ==> spec::fitness_of(r) == FitnessClass::Normal,
        128 <= r < 256 ==> spec::fitness_of(r) == FitnessClass::Loose,
        256 <= r ==> spec::fitness_of(r) == FitnessClass::VeryLoose,
{
}

/// A ratio is at least the one that stands for a line left too wide, and else at
/// least -256.
pub proof fn lemma_ratio_range(items: Seq<Item>, cfg: BreakConfig, a: int, i: int)
    requires
        -1 <= a < i,
    ensures
        spec::line_ratio(items, cfg, a, i) matches Some(r) ==> r == -32768 || r >= -256,
{
    lemma_naturals(items, a, i);
    let slack = cfg.line_width - spec::line_w(items, a, i);
    let y = spec::line_y(items, a, i) + cfg.emergency_stretch;
    if slack > 0 && y > 0 {
        assert(slack * 256 / y >= 0) by (nonlinear_arith)
            requires
                slack > 0,
                y > 0,
        ;
    }
}

proof fn lemma_line_accepted(items: Seq<Item>, cfg: BreakConfig, windowed: bool, k: int)
    requires
        items.len() <= 65535,
        spec::paragraph_lines(items, cfg, windowed) is Some,
        0 <= k < spec::paragraph_lines(items, cfg, windowed)->0.len(),
    ensures
        ({
            let line = spec::paragraph_lines(items, cfg, windowed)->0[k];
            let r = line.adjustment_ratio_q8 as int;
            !spec::is_forced_break(items[line.item_idx as int]) && r != -32768 && r < 32767
                ==> spec::badness_of(r) <= cfg.tolerance
        }),
{
    let best = spec::table(items, cfg, windowed, items.len() as int);
    let t = spec::terminal(items, best);
    b::lemma_terminal_in_range(items, best);
    laws::lemma_path_lines(items, cfg, windowed, t);
    let path = spec::path_to(best, t);
    assert(0 <= path[k] < items.len());
    let a = laws::line_start(path, k);
    if k > 0 {
        assert(path[k - 1] < path[k]);
    }
    assert(spec::candidate(items, cfg, best, a, path[k]) == Some(best[path[k]]));
    lemma_ratio_range(items, cfg, a, path[k]);
}

/// A line that does not end in a forced break, and is not left too wide, is set
/// within the tolerance.
#[verifier::rlimit(60)]
pub proof fn law_lines_are_within_the_tolerance(
    items: Seq<Item>,
    cfg: BreakConfig,
    windowed: bool,
    k: int,
)
    requires
        items.len() <= 65535,
        spec::paragraph_lines(items, cfg, windowed) is Some,
        0 <= k < spec::paragraph_lines(items, cfg, windowed)->0.len(),
    ensures
        ({
            let line = spec::paragraph_lines(items, cfg, windowed)->0[k];
            let it = items[line.item_idx as int];
            let r = line.adjustment_ratio_q8 as int;
            !(it.spec_kind() == ItemKind::Penalty && it.spec_forced()) && r != -32768 && -1187 <= r
                <= 1187 ==> 100 * (r * r * (if r < 0 {
                -r
            } else {
                r
            })) < (cfg.tolerance + 5) * 16777216
        }),
{
    lemma_line_accepted(items, cfg, windowed, k);
    let line = spec::paragraph_lines(items, cfg, windowed)->0[k];
    let r = line.adjustment_ratio_q8 as int;
    if !spec::is_forced_break(items[line.item_idx as int]) && -1187 <= r <= 1187 {
        lemma_tolerated(r, cfg.tolerance as int);
    }
}

proof fn lemma_tolerated(r: int, tolerance: int)
    requires
        spec::badness_of(r) <= tolerance,
        -1187 <= r <= 1187,
    ensures
        100 * (r * r * (if r < 0 {
            -r
        } else {
            r
        })) < (tolerance + 5) * 16777216,
{
    law_badness_is_a_cube(r);
    let m = if r < 0 {
        -r
    } else {
        r
    };
    assert(r * r * m == m * m * m) by (nonlinear_arith)
        requires
            m == r || m == -r,
    ;
}

/// The classes in order, from tight to very loose.
pub open spec fn class_of(f: FitnessClass) -> int {
    match f {
        FitnessClass::Tight => 0,
        FitnessClass::Normal => 1,
        FitnessClass::Loose => 2,
        FitnessClass::VeryLoose => 3,
    }
}

/// What a way to a break costs: the way to the line's start, the square of the
/// line's badness and the line penalty, the square of a penalty's cost, and what
/// is added for two lines whose classes are apart and for two hyphens in a row.
pub proof fn law_demerits_add_up(
    items: Seq<Item>,
    cfg: BreakConfig,
    best: Seq<Node>,
    a: int,
    i: int,
)
    requires
        -1 <= a < i < items.len(),
        i <= best.len(),
        spec::candidate(items, cfg, best, a, i) is Some,
        items[i].spec_kind() == ItemKind::Penalty ==> 0 <= items[i].spec_penalty() <= 1000
            || items[i].spec_penalty() == -32768,
        cfg.line_penalty <= 1000,
        a >= 0 ==> 0 <= best[a].demerits <= 0x0fff_ffff,
        !(items[i].spec_kind() == ItemKind::Penalty && items[i].spec_forced()),
    ensures
        ({
            let n = spec::candidate(items, cfg, best, a, i)->0;
            let r = n.adjustment_q8 as int;
            let x = cfg.line_penalty + spec::badness_of(r);
            let p: int = if items[i].spec_kind() == ItemKind::Penalty && items[i].spec_penalty() > 0 {
                items[i].spec_penalty() as int
            } else {
                0
            };
            let apart = a >= 0 && (class_of(n.fitness) - class_of(best[a].fitness) > 1 || class_of(
                best[a].fitness,
            ) - class_of(n.fitness) > 1);
            let hyphens = a >= 0 && items[i].spec_flagged() && items[a].spec_flagged()
                && items[a].spec_kind() == ItemKind::Penalty;
            n.demerits == (if a >= 0 {
                best[a].demerits as int
            } else {
                0
            }) + x * x + p * p + (if apart {
                cfg.adjacent_loose_demerit as int
            } else {
                0
            }) + (if hyphens {
                cfg.double_hyphen_demerit as int
            } else {
                0
            })
        }),
{
    let r = spec::line_ratio(items, cfg, a, i)->0;
    law_badness_is_a_cube(r);
    lemma_ratio_narrows(r);
    lemma_ratio_range(items, cfg, a, i);
    let x = cfg.line_penalty + spec::badness_of(r);
    assert(0 <= x * x <= 121000000) by (nonlinear_arith)
        requires
            0 <= x <= 11000,
    ;
    let p = items[i].spec_penalty() as int;
    assert(p * p >= 0) by (nonlinear_arith);
    if 0 <= p <= 1000 {
        assert(p * p <= 1000000) by (nonlinear_arith)
            requires
                0 <= p <= 1000,
        ;
    }
    let own = spec::own_demerits(items, cfg, a, i, r);
    assert(own == x * x + (if items[i].spec_kind() == ItemKind::Penalty && p > 0 {
        p * p
    } else {
        0
    }));
    let n = spec::candidate(items, cfg, best, a, i)->0;
    assert(spec::badness_of(n.adjustment_q8 as int) == spec::badness_of(r));
    assert(n.fitness == spec::fitness_of(r));
}

pub proof fn lemma_ratio_narrows(r: int)
    ensures
        r >= 32767 ==> spec::badness_of(r) == spec::badness_of(32767),
{
}

/// The second pass takes any line, adds no line penalty, and gives every line a
/// fifth of the column as extra stretch; all else is as in the first.
pub proof fn law_second_pass_is_looser(cfg: BreakConfig)
    ensures
        ({
            let f = cfg.spec_fallback();
            &&& f.tolerance == 10000
            &&& f.line_penalty == 0
            &&& f.emergency_stretch * 5 <= cfg.line_width < f.emergency_stretch * 5 + 5
            &&& f.line_width == cfg.line_width
            &&& f.double_hyphen_demerit == cfg.double_hyphen_demerit
            &&& f.adjacent_loose_demerit == cfg.adjacent_loose_demerit
            &&& f.max_items == cfg.max_items
        }),
{
}

} // verus!
