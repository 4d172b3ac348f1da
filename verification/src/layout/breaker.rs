//! Knuth-Plass paragraph breaker.
//!
//! Takes a slice of items and a `BreakConfig` and appends one `BreakChoice`
//! per line to the caller's vector. Bounded dynamic programming over the
//! legal breakpoints, in integer arithmetic: adjustment ratios are signed
//! with 256 as 1.0, badness is capped at 10000, demerits at a quarter of the
//! `i32` range.

use crate::layout::breaker_spec as spec;
use crate::layout::items::{Item, ItemKind};
use vstd::prelude::*;

verus! {

// ── types ─────────────────────────────────────────────────────────

#[derive(Clone, Copy, Debug, PartialEq, Eq, Structural)]
pub enum FitnessClass {
    Tight,
    Normal,
    Loose,
    VeryLoose,
}

/// Non-exclusive flag bits attached to a `BreakChoice`.
#[derive(Clone, Copy, Debug, PartialEq, Eq, Structural)]
pub struct ChoiceFlags {
    pub bits: u8,
}

proof fn lemma_choice_bits()
    by (bit_vector)
    ensures
        0u8 | 4 == 4,
        0u8 | 1 == 1,
        0u8 | 2 == 2,
        1u8 | 2 == 3,
        4u8 | 1 == 5,
        4u8 | 2 == 6,
        5u8 | 2 == 7,
{
}

impl ChoiceFlags {
    pub const NONE: u8 = 0;

    pub const FORCED_BREAK: u8 = 1;

    pub const FROM_HYPHEN: u8 = 2;

    pub const LAST_LINE: u8 = 4;

    /// Whether any bit of `f` is set.
    pub fn contains(self, f: u8) -> (b: bool)
        ensures
            b == (self.bits & f != 0),
    {
        (self.bits & f) != 0
    }

    pub fn insert(&mut self, f: u8)
        ensures
            final(self).bits == old(self).bits | f,
    {
        self.bits = self.bits | f;
    }

    pub fn bits(self) -> (b: u8)
        ensures
            b == self.bits,
    {
        self.bits
    }
}

/// One paragraph line, as decided by the breaker.
#[derive(Clone, Copy, Debug, PartialEq, Eq, Structural)]
pub struct BreakChoice {
    pub item_idx: u16,
    pub line_width_used: u16,
    pub stretch_total: u16,
    pub shrink_total: u16,
    /// signed, 256 is 1.0; `Adjustment::Overflow` is stored as `i16::MIN`
    pub adjustment_ratio_q8: i16,
    pub fitness: FitnessClass,
    pub flags: ChoiceFlags,
}

#[derive(Clone, Copy, Debug, PartialEq, Eq, Structural)]
pub enum Adjustment {
    Overflow,
    /// magnitude, 256 is 1.0
    Shrink(u16),
    Perfect,
    /// magnitude, 256 is 1.0
    Stretch(u16),
}

impl BreakChoice {
    /// The line holds an unbreakable box wider than the line width; it is
    /// left to run into the right margin.
    pub const ADJUSTMENT_OVERFLOW: i16 = -32768;

    pub open spec fn spec_adjustment(self) -> Adjustment {
        let r = self.adjustment_ratio_q8;
        if r == Self::ADJUSTMENT_OVERFLOW {
            Adjustment::Overflow
        } else if r == 0 {
            Adjustment::Perfect
        } else if r > 0 {
            Adjustment::Stretch(r as u16)
        } else {
            Adjustment::Shrink((-r) as u16)
        }
    }

    /// The stored ratio as a typed value.
    pub fn adjustment(&self) -> (adj: Adjustment)
        ensures
            adj == self.spec_adjustment(),
    {
        let r: i16 = self.adjustment_ratio_q8;
        if r == Self::ADJUSTMENT_OVERFLOW {
            Adjustment::Overflow
        } else if r == 0 {
            Adjustment::Perfect
        } else if r > 0 {
            Adjustment::Stretch(r as u16)
        } else {
            Adjustment::Shrink((-r) as u16)
        }
    }

    pub fn raw_ratio_q8(&self) -> (r: i16)
        ensures
            r == self.adjustment_ratio_q8,
    {
        self.adjustment_ratio_q8
    }
}

#[derive(Clone, Copy, Debug, PartialEq, Eq, Structural)]
pub struct BreakConfig {
    pub line_width: u16,
    pub tolerance: u16,
    pub looseness: i8,
    pub line_penalty: u16,
    pub double_hyphen_demerit: u16,
    pub adjacent_loose_demerit: u16,
    pub max_items: u16,
    /// stretch (pixels) that every line gets on top of its own
    pub emergency_stretch: u16,
}

impl BreakConfig {
    pub open spec fn spec_default() -> BreakConfig {
        BreakConfig {
            line_width: 0,
            tolerance: 200,
            looseness: 0,
            line_penalty: 10,
            double_hyphen_demerit: 100,
            adjacent_loose_demerit: 100,
            max_items: 2048,
            emergency_stretch: 0,
        }
    }

    /// This configuration with the given line width.
    pub fn with_line_width(self, w: u16) -> (cfg: BreakConfig)
        ensures
            cfg == (BreakConfig { line_width: w, ..self }),
    {
        BreakConfig { line_width: w, ..self }
    }

    /// The configuration of the second pass: any badness, no line penalty
    /// and a fifth of the line width as extra stretch.
    pub open spec fn spec_fallback(self) -> BreakConfig {
        BreakConfig {
            tolerance: 10000,
            line_penalty: 0,
            emergency_stretch: (self.line_width / 5) as u16,
            ..self
        }
    }
}

impl Default for BreakConfig {
    /// Tight justification; the caller fills in the line width.
    fn default() -> (cfg: BreakConfig)
        ensures
            cfg == BreakConfig::spec_default(),
    {
        BreakConfig {
            line_width: 0,
            tolerance: 200,
            looseness: 0,
            line_penalty: 10,
            double_hyphen_demerit: 100,
            adjacent_loose_demerit: 100,
            max_items: 2048,
            emergency_stretch: 0,
        }
    }
}

#[derive(Clone, Copy, Debug, PartialEq, Eq, Structural)]
pub enum BreakError {
    EmptyParagraph,
    /// too many items, or no memory to lay them out
    ItemBudgetExceeded,
    /// a box exceeds the line width; lines are emitted all the same, so no
    /// function of this crate returns it
    UnbreakableTooWide,
    NoFeasibleBreaks,
}

/// The best line that ends at one item, and the breakpoint it starts after.
#[derive(Clone, Copy, Debug, PartialEq, Eq, Structural)]
pub struct Node {
    /// total demerits up to this breakpoint; `UNREACHABLE` if there is no
    /// way to it
    pub demerits: i32,
    pub width_used: u16,
    pub stretch_total: u16,
    pub shrink_total: u16,
    pub adjustment_q8: i16,
    /// previous breakpoint; `NO_PREV` is the start of the paragraph
    pub prev: u16,
    pub fitness: FitnessClass,
}

impl Node {
    pub const UNREACHABLE: i32 = 2147483647;

    pub const NO_PREV: u16 = 65535;

    pub open spec fn spec_unreachable() -> Node {
        Node {
            demerits: Self::UNREACHABLE,
            width_used: 0,
            stretch_total: 0,
            shrink_total: 0,
            adjustment_q8: 0,
            prev: Self::NO_PREV,
            fitness: FitnessClass::Normal,
        }
    }

    fn unreachable_node() -> (n: Node)
        ensures
            n == Node::spec_unreachable(),
    {
        Node {
            demerits: Self::UNREACHABLE,
            width_used: 0,
            stretch_total: 0,
            shrink_total: 0,
            adjustment_q8: 0,
            prev: Self::NO_PREV,
            fitness: FitnessClass::Normal,
        }
    }
}

// ── arithmetic ────────────────────────────────────────────────────

const BADNESS_INFINITY: i32 = 10000;

const DEMERITS_CAP: i32 = 0x1fff_ffff;

const OVERFLOW: i32 = -32768;

fn sat_add(a: i32, b: i32) -> (c: i32)
    ensures
        c == spec::sat(a + b),
{
    let s: i64 = a as i64 + b as i64;
    if s > 2147483647 {
        2147483647
    } else if s < -2147483648 {
        -2147483648
    } else {
        s as i32
    }
}

fn sat_sub(a: i32, b: i32) -> (c: i32)
    ensures
        c == spec::sat(a - b),
{
    let s: i64 = a as i64 - b as i64;
    if s > 2147483647 {
        2147483647
    } else if s < -2147483648 {
        -2147483648
    } else {
        s as i32
    }
}

fn saturating_square(x: i32) -> (y: i32)
    ensures
        y == spec::sat(x * x),
{
    proof {
        assert(0 <= x * x <= 0x4000_0000_0000_0000) by (nonlinear_arith)
            requires
                -0x8000_0000 <= x <= 0x7fff_ffff,
        ;
    }
    let sq: i64 = (x as i64) * (x as i64);
    if sq > 2147483647 {
        2147483647
    } else {
        sq as i32
    }
}

/// Knuth's badness: 100 times the cube of the ratio, capped.
fn badness(r_q8: i32) -> (b: i32)
    requires
        r_q8 > -0x8000_0000,
    ensures
        b == spec::badness_of(r_q8 as int),
        0 <= b <= 10000,
{
    if r_q8 == OVERFLOW {
        return BADNESS_INFINITY;
    }
    let abs: i32 = if r_q8 < 0 {
        -r_q8
    } else {
        r_q8
    };
    let r: i32 = if abs < 2048 {
        abs
    } else {
        2048
    };
    proof {
        assert(0 <= r * r <= 2048 * 2048) by (nonlinear_arith)
            requires
                0 <= r <= 2048,
        ;
    }
    let r_squared: i32 = (r * r) / 256;
    proof {
        assert(0 <= r_squared <= 16384);
        assert(0 <= r_squared * r <= 16384 * 2048) by (nonlinear_arith)
            requires
                0 <= r <= 2048,
                0 <= r_squared <= 16384,
        ;
    }
    let r_cubed: i32 = (r_squared * r) / 256;
    let b: i32 = 100 * r_cubed / 256;
    if b < BADNESS_INFINITY {
        b
    } else {
        BADNESS_INFINITY
    }
}

fn fitness_class(r_q8: i32) -> (f: FitnessClass)
    ensures
        f == spec::fitness_of(r_q8 as int),
{
    if r_q8 == OVERFLOW || r_q8 < -128 {
        FitnessClass::Tight
    } else if r_q8 < 128 {
        FitnessClass::Normal
    } else if r_q8 < 256 {
        FitnessClass::Loose
    } else {
        FitnessClass::VeryLoose
    }
}

fn fitness_rank(f: FitnessClass) -> (k: i32)
    ensures
        k == spec::fitness_rank(f),
        0 <= k <= 3,
{
    match f {
        FitnessClass::Tight => 0,
        FitnessClass::Normal => 1,
        FitnessClass::Loose => 2,
        FitnessClass::VeryLoose => 3,
    }
}

/// How many fitness classes lie between two lines.
fn fit_distance(a: FitnessClass, b: FitnessClass) -> (d: i32)
    ensures
        d == spec::abs_int(spec::fitness_rank(a) - spec::fitness_rank(b)),
{
    let d: i32 = fitness_rank(a) - fitness_rank(b);
    if d < 0 {
        -d
    } else {
        d
    }
}

fn min_u16(x: u32) -> (y: u16)
    ensures
        y == spec::min_int(x as int, 65535),
{
    if x < 65535 {
        x as u16
    } else {
        65535
    }
}

// ── scratch ───────────────────────────────────────────────────────

/// Reusable working memory of the breaker. One of these serves a whole
/// chapter, so a paragraph does not allocate its own tables.
pub struct BreakScratch {
    pub pfx_w: Vec<u32>,
    pub pfx_y: Vec<u32>,
    pub pfx_z: Vec<u32>,
    pub best: Vec<Node>,
    pub path: Vec<u16>,
}

impl Default for BreakScratch {
    fn default() -> (s: BreakScratch)
        ensures
            s.is_clear(),
    {
        BreakScratch::new()
    }
}

impl BreakScratch {
    /// Nothing is held.
    pub open spec fn is_clear(self) -> bool {
        &&& self.pfx_w@.len() == 0
        &&& self.pfx_y@.len() == 0
        &&& self.pfx_z@.len() == 0
        &&& self.best@.len() == 0
        &&& self.path@.len() == 0
    }

    /// The prefix sums are those of `items`.
    pub open spec fn sums_of(self, items: Seq<Item>) -> bool {
        &&& self.pfx_w@.len() == items.len() + 1
        &&& self.pfx_y@.len() == items.len() + 1
        &&& self.pfx_z@.len() == items.len() + 1
        &&& forall|k: int|
            0 <= k <= items.len() ==> #[trigger] self.pfx_w@[k] == spec::sum_width(items, k)
        &&& forall|k: int|
            0 <= k <= items.len() ==> #[trigger] self.pfx_y@[k] == spec::sum_stretch(items, k)
        &&& forall|k: int|
            0 <= k <= items.len() ==> #[trigger] self.pfx_z@[k] == spec::sum_shrink(items, k)
    }

    /// The nodes are those of the paragraph, and the path leads to its end.
    pub open spec fn plan_of(self, items: Seq<Item>, cfg: BreakConfig, windowed: bool) -> bool {
        &&& self.best@ == spec::table(items, cfg, windowed, items.len() as int)
        &&& spec::terminal(items, self.best@) >= 0
        &&& backward(self.path@) == spec::path_to(self.best@, spec::terminal(items, self.best@))
    }

    pub fn new() -> (s: BreakScratch)
        ensures
            s.is_clear(),
    {
        BreakScratch {
            pfx_w: Vec::new(),
            pfx_y: Vec::new(),
            pfx_z: Vec::new(),
            best: Vec::new(),
            path: Vec::new(),
        }
    }

    /// Let go of everything held.
    pub fn release(&mut self)
        ensures
            final(self).is_clear(),
    {
        self.pfx_w = Vec::new();
        self.pfx_y = Vec::new();
        self.pfx_z = Vec::new();
        self.best = Vec::new();
        self.path = Vec::new();
    }

    /// Empty the prefix sums and ask for room for those of `n` items;
    /// `false` if memory is short.
    fn reserve_sums(&mut self, n: usize) -> (granted: bool)
        requires
            n < usize::MAX,
        ensures
            final(self).pfx_w@.len() == 0,
            final(self).pfx_y@.len() == 0,
            final(self).pfx_z@.len() == 0,
            final(self).best@ == old(self).best@,
            final(self).path@ == old(self).path@,
    {
        self.pfx_w.clear();
        self.pfx_y.clear();
        self.pfx_z.clear();
        self.pfx_w.try_reserve(n + 1).is_ok() && self.pfx_y.try_reserve(n + 1).is_ok()
            && self.pfx_z.try_reserve(n + 1).is_ok()
    }

    /// Empty the node table and the path and ask for room for `n` entries
    /// of each; `false` if memory is short.
    fn reserve_dp(&mut self, n: usize) -> (granted: bool)
        ensures
            final(self).pfx_w@ == old(self).pfx_w@,
            final(self).pfx_y@ == old(self).pfx_y@,
            final(self).pfx_z@ == old(self).pfx_z@,
            final(self).best@.len() == 0,
            final(self).path@.len() == 0,
    {
        self.best.clear();
        self.path.clear();
        self.best.try_reserve(n).is_ok() && self.path.try_reserve(n).is_ok()
    }

    /// Fill in the prefix sums of width, stretch and shrink.
    fn build_prefixes(&mut self, items: &[Item])
        requires
            items@.len() <= 65535,
        ensures
            final(self).sums_of(items@),
    {
        self.pfx_w.clear();
        self.pfx_y.clear();
        self.pfx_z.clear();
        self.pfx_w.push(0);
        self.pfx_y.push(0);
        self.pfx_z.push(0);
        let n: usize = items.len();
        let mut w: u32 = 0;
        let mut y: u32 = 0;
        let mut z: u32 = 0;
        let mut i: usize = 0;
        while i < n
            invariant
                i <= n,
                n == items@.len(),
                n <= 65535,
                w == spec::sum_width(items@, i as int),
                y == spec::sum_stretch(items@, i as int),
                z == spec::sum_shrink(items@, i as int),
                w <= i * 65535,
                y <= i * 65535,
                z <= i * 65535,
                self.pfx_w@.len() == i + 1,
                self.pfx_y@.len() == i + 1,
                self.pfx_z@.len() == i + 1,
                forall|k: int|
                    0 <= k <= i ==> #[trigger] self.pfx_w@[k] == spec::sum_width(items@, k),
                forall|k: int|
                    0 <= k <= i ==> #[trigger] self.pfx_y@[k] == spec::sum_stretch(items@, k),
                forall|k: int|
                    0 <= k <= i ==> #[trigger] self.pfx_z@[k] == spec::sum_shrink(items@, k),
            decreases n - i,
        {
            let it: Item = items[i];
            match it.kind() {
                ItemKind::Box => {
                    w = w + it.width as u32;
                },
                ItemKind::Glue => {
                    w = w + it.width as u32;
                    y = y + it.stretch as u32;
                    z = z + it.shrink as u32;
                },
                ItemKind::Penalty => {},
            }
            self.pfx_w.push(w);
            self.pfx_y.push(y);
            self.pfx_z.push(z);
            i = i + 1;
        }
    }
}

// ── lines ─────────────────────────────────────────────────────────

/// The three prefix sums grow with the index, by at most 65535 per item.
pub proof fn lemma_sums_monotone(items: Seq<Item>, a: int, b: int)
    requires
        0 <= a <= b,
    ensures
        0 <= spec::sum_width(items, a) <= spec::sum_width(items, b) <= 65535 * b,
        0 <= spec::sum_stretch(items, a) <= spec::sum_stretch(items, b) <= 65535 * b,
        0 <= spec::sum_shrink(items, a) <= spec::sum_shrink(items, b) <= 255 * b,
    decreases b,
{
    if b > 0 {
        if a < b {
            lemma_sums_monotone(items, a, b - 1);
        } else {
            lemma_sums_monotone(items, a - 1, b - 1);
        }
    }
}

fn is_feasible_breakpoint(items: &[Item], i: usize) -> (ok: bool)
    requires
        i < items@.len(),
    ensures
        ok == spec::feasible(items@, i as int),
{
    match items[i].kind() {
        ItemKind::Glue => i > 0 && items[i - 1].kind() == ItemKind::Box,
        ItemKind::Penalty => items[i].penalty_value() < Item::PENALTY_FORBIDDEN,
        ItemKind::Box => false,
    }
}

/// Whether `items[lo..=i]` is one box, behind leading glue at most.
fn single_overfull_box(items: &[Item], lo: usize, i: usize) -> (lone: bool)
    requires
        lo <= i < items@.len(),
    ensures
        lone == spec::lone_box(items@, lo as int, i as int),
{
    if items[i].kind() != ItemKind::Box {
        return false;
    }
    let mut k: usize = lo;
    while k < i
        invariant
            lo <= k <= i < items@.len(),
            forall|j: int|
                lo <= j < k ==> (#[trigger] items@[j]).spec_kind() == ItemKind::Glue,
        decreases i - k,
    {
        if items[k].kind() != ItemKind::Glue {
            return false;
        }
        k = k + 1;
    }
    true
}

/// The adjustment ratio of the line `(a, i]`, and whether it was clamped
/// because the break is forced; `None` for a line that cannot be set.
fn line_ratio(
    items: &[Item],
    cfg: &BreakConfig,
    a: Option<usize>,
    i: usize,
    line_w: u32,
    line_y: u32,
    line_z: u32,
) -> (r: Option<(i32, bool)>)
    requires
        i < items@.len() <= 65535,
        a matches Some(x) ==> x < i,
        line_w == spec::line_w(items@, start_of(a), i as int),
        line_y == spec::line_y(items@, start_of(a), i as int),
        line_z == spec::line_z(items@, start_of(a), i as int),
    ensures
        match r {
            None => spec::line_ratio(items@, *cfg, start_of(a), i as int) is None,
            Some((q, clamped)) => {
                &&& spec::line_ratio(items@, *cfg, start_of(a), i as int) == Some(q as int)
                &&& clamped == spec::over_shrunk(items@, *cfg, start_of(a), i as int)
                &&& q >= -32768
            },
        },
{
    let lo: usize = match a {
        Some(x) => x + 1,
        None => 0,
    };
    let width: u64 = cfg.line_width as u64;
    let natural: u64 = line_w as u64;
    let forced: bool = items[i].kind() == ItemKind::Penalty && items[i].is_forced();
    if natural == width {
        return Some((0, false));
    }
    if natural < width {
        let budget: u64 = line_y as u64 + cfg.emergency_stretch as u64;
        if budget == 0 {
            if forced {
                return Some((0, false));
            }
            return None;
        }
        let slack: u64 = width - natural;
        let q: u64 = (slack * 256) / budget;
        proof {
            assert(q <= slack * 256) by (nonlinear_arith)
                requires
                    q == (slack * 256) / budget as int,
                    budget >= 1,
                    slack >= 0,
            ;
        }
        return Some((q as i32, false));
    }
    if line_z == 0 {
        if forced || single_overfull_box(items, lo, i) {
            return Some((OVERFLOW, false));
        }
        return None;
    }
    let over: u64 = natural - width;
    let q: u64 = (over * 256) / line_z as u64;
    if q <= 256 {
        Some((-(q as i32), false))
    } else if forced {
        Some((-256, true))
    } else {
        Some((OVERFLOW, false))
    }
}

/// A breakpoint or the start of the paragraph, as an index.
pub open spec fn start_of(a: Option<usize>) -> int {
    match a {
        Some(x) => x as int,
        None => -1,
    }
}

/// Demerits of the line by itself.
fn own_demerits(items: &[Item], cfg: &BreakConfig, a: Option<usize>, i: usize, r_q8: i32, clamped: bool) -> (dem: i32)
    requires
        i < items@.len(),
        r_q8 >= -32768,
        clamped == spec::over_shrunk(items@, *cfg, start_of(a), i as int),
    ensures
        dem == spec::own_demerits(items@, *cfg, start_of(a), i as int, r_q8 as int),
{
    let bad: i32 = if clamped {
        BADNESS_INFINITY
    } else {
        badness(r_q8)
    };
    let base: i32 = saturating_square(cfg.line_penalty as i32 + bad);
    if items[i].kind() != ItemKind::Penalty {
        return base;
    }
    let p: i16 = items[i].penalty_value();
    proof {
        assert(0 <= p * p <= 0x4000_0000) by (nonlinear_arith)
            requires
                -0x8000 <= p <= 0x7fff,
        ;
    }
    let cost: i32 = (p as i32) * (p as i32);
    if p > 0 && !items[i].is_forced() {
        sat_add(base, cost)
    } else if p < 0 && p != Item::PENALTY_FORCE {
        sat_sub(base, cost)
    } else {
        base
    }
}

/// Demerits of the line after the one that ended at `a`.
fn joint_demerits(
    items: &[Item],
    cfg: &BreakConfig,
    a: Option<usize>,
    i: usize,
    r_q8: i32,
    clamped: bool,
    best: &Vec<Node>,
) -> (dem: i32)
    requires
        i < items@.len(),
        a matches Some(x) ==> x < i && x < best@.len(),
        r_q8 >= -32768,
        clamped == spec::over_shrunk(items@, *cfg, start_of(a), i as int),
    ensures
        dem == spec::joint_demerits(
            items@,
            *cfg,
            start_of(a),
            i as int,
            r_q8 as int,
            best@[start_of(a)],
        ),
{
    let mut dem: i32 = own_demerits(items, cfg, a, i, r_q8, clamped);
    if let Some(p) = a {
        if fit_distance(fitness_class(r_q8), best[p].fitness) > 1 {
            dem = sat_add(dem, cfg.adjacent_loose_demerit as i32);
        }
        if items[i].is_flagged() && items[p].kind() == ItemKind::Penalty && items[p].is_flagged() {
            dem = sat_add(dem, cfg.double_hyphen_demerit as i32);
        }
    }
    dem
}

/// Weigh the line `(a, i]` and keep it in `chosen` if it beats what is
/// there.
fn consider_break(
    items: &[Item],
    scratch: &BreakScratch,
    cfg: &BreakConfig,
    a: Option<usize>,
    i: usize,
    chosen: &mut Option<Node>,
)
    requires
        i < items@.len() <= 65535,
        a matches Some(x) ==> x < i && x < scratch.best@.len(),
        spec::feasible(items@, i as int),
        scratch.sums_of(items@),
    ensures
        *final(chosen) == spec::better(
            *old(chosen),
            spec::candidate(items@, *cfg, scratch.best@, start_of(a), i as int),
        ),
{
    let lo: usize = match a {
        Some(x) => x + 1,
        None => 0,
    };
    proof {
        lemma_sums_monotone(items@, lo as int, i as int);
    }
    let line_w: u32 = scratch.pfx_w[i] - scratch.pfx_w[lo];
    let line_y: u32 = scratch.pfx_y[i] - scratch.pfx_y[lo];
    let line_z: u32 = scratch.pfx_z[i] - scratch.pfx_z[lo];

    let (r_q8, clamped): (i32, bool) = match line_ratio(items, cfg, a, i, line_w, line_y, line_z) {
        Some(rc) => rc,
        None => {
            return ;
        },
    };
    let forced: bool = items[i].kind() == ItemKind::Penalty && items[i].is_forced();
    if r_q8 != OVERFLOW && !forced && badness(r_q8) > cfg.tolerance as i32 {
        return ;
    }
    let dem: i32 = joint_demerits(items, cfg, a, i, r_q8, clamped, &scratch.best);
    let before: i32 = match a {
        Some(p) => scratch.best[p].demerits,
        None => 0,
    };
    let total: i32 = sat_add(before, dem);
    let candidate = Node {
        demerits: if total < DEMERITS_CAP {
            total
        } else {
            DEMERITS_CAP
        },
        width_used: min_u16(line_w),
        stretch_total: min_u16(line_y),
        shrink_total: min_u16(line_z),
        adjustment_q8: if r_q8 < 32767 {
            r_q8 as i16
        } else {
            32767
        },
        prev: match a {
            Some(p) => p as u16,
            None => Node::NO_PREV,
        },
        fitness: fitness_class(r_q8),
    };
    proof {
        assert(Some(candidate) == spec::candidate(
            items@,
            *cfg,
            scratch.best@,
            start_of(a),
            i as int,
        ));
    }
    let keep: bool = match chosen {
        Some(existing) => existing.demerits <= candidate.demerits,
        None => false,
    };
    if !keep {
        *chosen = Some(candidate);
    }
}

// ── facts about the table ─────────────────────────────────────────

/// A span that fits still fits when it starts later, and one that does not
/// fit never does when it ends later.
pub proof fn lemma_can_fit_monotone(
    items: Seq<Item>,
    cfg: BreakConfig,
    a: int,
    b: int,
    i: int,
    j: int,
)
    requires
        -1 <= a <= b < i <= j <= items.len(),
        spec::shrinks_within_width(items),
    ensures
        spec::can_fit(items, cfg, a, i) ==> spec::can_fit(items, cfg, b, i),
        !spec::can_fit(items, cfg, a, i) ==> !spec::can_fit(items, cfg, a, j),
{
    lemma_shrunk_monotone(items, a + 1, b + 1);
    lemma_shrunk_monotone(items, i, j);
}

proof fn lemma_shrunk_monotone(items: Seq<Item>, a: int, b: int)
    requires
        0 <= a <= b <= items.len(),
        spec::shrinks_within_width(items),
    ensures
        spec::sum_width(items, a) - spec::sum_shrink(items, a) <= spec::sum_width(items, b)
            - spec::sum_shrink(items, b),
    decreases b,
{
    if a < b {
        lemma_shrunk_monotone(items, a, b - 1);
        assert(spec::item_shrink(items[b - 1]) <= spec::item_width(items[b - 1]));
    }
}

/// A scan passes over predecessors that are out of scope.
proof fn lemma_scan_skip(
    items: Seq<Item>,
    cfg: BreakConfig,
    best: Seq<Node>,
    scope: spec::Scope,
    i: int,
    lo: int,
    hi: int,
    init: Option<Node>,
)
    requires
        0 <= lo <= hi,
        forall|a: int| lo <= a < hi ==> !#[trigger] spec::in_scope(scope, items, cfg, a, i),
    ensures
        spec::scan(items, cfg, best, scope, i, hi, init) == spec::scan(
            items,
            cfg,
            best,
            scope,
            i,
            lo,
            init,
        ),
    decreases hi,
{
    if lo < hi {
        lemma_scan_skip(items, cfg, best, scope, i, lo, hi - 1, init);
        assert(!spec::in_scope(scope, items, cfg, hi - 1, i));
    }
}

/// The table grows at its end only.
pub proof fn lemma_table_prefix(
    items: Seq<Item>,
    cfg: BreakConfig,
    windowed: bool,
    k: int,
    m: int,
)
    requires
        0 <= k <= m,
    ensures
        spec::table(items, cfg, windowed, k).len() == k,
        spec::table(items, cfg, windowed, m).len() == m,
        spec::table(items, cfg, windowed, m).take(k) == spec::table(items, cfg, windowed, k),
    decreases m,
{
    if m > 0 {
        if k < m {
            lemma_table_prefix(items, cfg, windowed, k, m - 1);
            assert(spec::table(items, cfg, windowed, m).take(k) =~= spec::table(
                items,
                cfg,
                windowed,
                m - 1,
            ).take(k));
        } else {
            lemma_table_prefix(items, cfg, windowed, k - 1, m - 1);
            assert(spec::table(items, cfg, windowed, m).take(k) =~= spec::table(
                items,
                cfg,
                windowed,
                m,
            ));
        }
    } else {
        assert(spec::table(items, cfg, windowed, m).take(k) =~= spec::table(
            items,
            cfg,
            windowed,
            k,
        ));
    }
}

/// `n` is what the line `(a, i]` gives, from the start or a reachable
/// breakpoint.
pub open spec fn comes_from(
    items: Seq<Item>,
    cfg: BreakConfig,
    best: Seq<Node>,
    a: int,
    i: int,
    n: Node,
) -> bool {
    &&& -1 <= a < i
    &&& spec::candidate(items, cfg, best, a, i) == Some(n)
    &&& a >= 0 ==> spec::reachable(best[a])
}

proof fn lemma_scan_source(
    items: Seq<Item>,
    cfg: BreakConfig,
    best: Seq<Node>,
    scope: spec::Scope,
    i: int,
    hi: int,
    init: Option<Node>,
) -> (a: int)
    requires
        0 <= hi <= i,
        init is Some ==> comes_from(items, cfg, best, -1, i, init->0),
        spec::scan(items, cfg, best, scope, i, hi, init) is Some,
    ensures
        comes_from(
            items,
            cfg,
            best,
            a,
            i,
            spec::scan(items, cfg, best, scope, i, hi, init)->0,
        ),
    decreases hi,
{
    if hi <= 0 {
        -1
    } else {
        let sofar = spec::scan(items, cfg, best, scope, i, hi - 1, init);
        let whole = spec::scan(items, cfg, best, scope, i, hi, init);
        if sofar is Some && whole == sofar {
            lemma_scan_source(items, cfg, best, scope, i, hi - 1, init)
        } else {
            hi - 1
        }
    }
}

/// Every reachable node of the table is a line from the start or from a
/// reachable breakpoint before it, and ends at a feasible breakpoint.
pub proof fn lemma_table_node(
    items: Seq<Item>,
    cfg: BreakConfig,
    windowed: bool,
    n: int,
    i: int,
) -> (a: int)
    requires
        0 <= i < n <= 65535,
        spec::reachable(spec::table(items, cfg, windowed, n)[i]),
    ensures
        spec::feasible(items, i),
        comes_from(
            items,
            cfg,
            spec::table(items, cfg, windowed, n),
            a,
            i,
            spec::table(items, cfg, windowed, n)[i],
        ),
        spec::table(items, cfg, windowed, n)[i].prev == (if a < 0 {
            Node::NO_PREV as int
        } else {
            a
        }),
{
    let whole = spec::table(items, cfg, windowed, n);
    let before = spec::table(items, cfg, windowed, i);
    lemma_table_prefix(items, cfg, windowed, i + 1, n);
    lemma_table_prefix(items, cfg, windowed, i, n);
    assert(whole[i] == whole.take(i + 1)[i]);
    assert(whole[i] == spec::node_at(items, cfg, before, i, windowed));
    let start = spec::candidate(items, cfg, before, -1, i);
    let a = if !windowed {
        lemma_scan_source(items, cfg, before, spec::Scope::All, i, i, start)
    } else {
        let near = spec::scan(items, cfg, before, spec::Scope::Fitting, i, i, start);
        if near is Some {
            lemma_scan_source(items, cfg, before, spec::Scope::Fitting, i, i, start)
        } else {
            lemma_scan_source(items, cfg, before, spec::Scope::TooWide, i, i, None)
        }
    };
    if a >= 0 {
        assert(before[a] == whole.take(i)[a]);
    }
    a
}

// ── breaker ───────────────────────────────────────────────────────

/// Weigh the predecessors `lo..hi` of breakpoint `i`, which are those of
/// `0..hi` in scope.
fn scan_range(
    items: &[Item],
    scratch: &BreakScratch,
    cfg: &BreakConfig,
    Ghost(scope): Ghost<spec::Scope>,
    i: usize,
    lo: usize,
    hi: usize,
    chosen: &mut Option<Node>,
)
    requires
        lo <= hi <= i < items@.len() <= 65535,
        i == scratch.best@.len(),
        spec::feasible(items@, i as int),
        scratch.sums_of(items@),
        forall|a: int|
            0 <= a < lo ==> !#[trigger] spec::in_scope(scope, items@, *cfg, a, i as int),
        forall|a: int|
            lo <= a < hi ==> #[trigger] spec::in_scope(scope, items@, *cfg, a, i as int),
    ensures
        *final(chosen) == spec::scan(
            items@,
            *cfg,
            scratch.best@,
            scope,
            i as int,
            hi as int,
            *old(chosen),
        ),
{
    proof {
        lemma_scan_skip(items@, *cfg, scratch.best@, scope, i as int, 0, lo as int, *chosen);
    }
    let ghost init = *chosen;
    let mut a: usize = lo;
    while a < hi
        invariant
            lo <= a <= hi <= i < items@.len() <= 65535,
            i == scratch.best@.len(),
            spec::feasible(items@, i as int),
            scratch.sums_of(items@),
            forall|b: int|
                lo <= b < hi ==> #[trigger] spec::in_scope(scope, items@, *cfg, b, i as int),
            *chosen == spec::scan(
                items@,
                *cfg,
                scratch.best@,
                scope,
                i as int,
                a as int,
                init,
            ),
        decreases hi - a,
    {
        proof {
            assert(spec::in_scope(scope, items@, *cfg, a as int, i as int));
        }
        if scratch.best[a].demerits != Node::UNREACHABLE {
            consider_break(items, scratch, cfg, Some(a), i, chosen);
        }
        a = a + 1;
    }
}

/// Fill the node table: the best line to every breakpoint, first to last.
fn forward_pass(items: &[Item], cfg: &BreakConfig, scratch: &mut BreakScratch, windowed: bool)
    requires
        items@.len() <= 65535,
        old(scratch).sums_of(items@),
        old(scratch).best@.len() == 0,
        windowed ==> spec::shrinks_within_width(items@),
    ensures
        final(scratch).sums_of(items@),
        final(scratch).best@ == spec::table(items@, *cfg, windowed, items@.len() as int),
        final(scratch).path@ == old(scratch).path@,
{
    let n: usize = items.len();
    let width: u32 = cfg.line_width as u32;
    let mut win_lo: usize = 0;
    let mut i: usize = 0;
    while i < n
        invariant
            i <= n,
            n == items@.len(),
            n <= 65535,
            width == cfg.line_width,
            win_lo <= i,
            scratch.sums_of(items@),
            windowed ==> spec::shrinks_within_width(items@),
            scratch.best@ == spec::table(items@, *cfg, windowed, i as int),
            scratch.path@ == old(scratch).path@,
            windowed ==> forall|a: int|
                0 <= a < win_lo ==> !#[trigger] spec::can_fit(items@, *cfg, a, i as int),
        decreases n - i,
    {
        proof {
            lemma_table_prefix(items@, *cfg, windowed, i as int, i as int);
        }
        let mut node: Node = Node::unreachable_node();
        if is_feasible_breakpoint(items, i) {
            if windowed {
                while win_lo < i && fits_shrunk(items, scratch, width, win_lo, i) == false
                    invariant
                        win_lo <= i < n,
                        n == items@.len(),
                        n <= 65535,
                        width == cfg.line_width,
                        scratch.sums_of(items@),
                        spec::shrinks_within_width(items@),
                        forall|a: int|
                            0 <= a < win_lo ==> !#[trigger] spec::can_fit(
                                items@,
                                *cfg,
                                a,
                                i as int,
                            ),
                    decreases i - win_lo,
                {
                    win_lo = win_lo + 1;
                }
                proof {
                    assert forall|a: int| win_lo <= a < i implies #[trigger] spec::can_fit(
                        items@,
                        *cfg,
                        a,
                        i as int,
                    ) by {
                        lemma_can_fit_monotone(
                            items@,
                            *cfg,
                            win_lo as int,
                            a,
                            i as int,
                            i as int,
                        );
                    }
                }
            }
            let mut chosen: Option<Node> = None;
            consider_break(items, scratch, cfg, None, i, &mut chosen);
            if windowed {
                scan_range(
                    items,
                    scratch,
                    cfg,
                    Ghost(spec::Scope::Fitting),
                    i,
                    win_lo,
                    i,
                    &mut chosen,
                );
                if chosen.is_none() {
                    scan_range(
                        items,
                        scratch,
                        cfg,
                        Ghost(spec::Scope::TooWide),
                        i,
                        0,
                        win_lo,
                        &mut chosen,
                    );
                    proof {
                        lemma_scan_skip(
                            items@,
                            *cfg,
                            scratch.best@,
                            spec::Scope::TooWide,
                            i as int,
                            win_lo as int,
                            i as int,
                            None,
                        );
                    }
                }
            } else {
                scan_range(items, scratch, cfg, Ghost(spec::Scope::All), i, 0, i, &mut chosen);
            }
            if let Some(c) = chosen {
                node = c;
            }
        }
        proof {
            assert(node == spec::node_at(items@, *cfg, scratch.best@, i as int, windowed));
            if windowed {
                assert forall|a: int| 0 <= a < win_lo implies !#[trigger] spec::can_fit(
                    items@,
                    *cfg,
                    a,
                    i + 1,
                ) by {
                    assert(!spec::can_fit(items@, *cfg, a, i as int));
                    lemma_can_fit_monotone(items@, *cfg, a, a, i as int, i + 1);
                }
            }
        }
        scratch.best.push(node);
        i = i + 1;
    }
}

/// Whether the line `(a, i]` fits once it is shrunk as far as it goes.
fn fits_shrunk(items: &[Item], scratch: &BreakScratch, width: u32, a: usize, i: usize) -> (ok: bool)
    requires
        a < i < items@.len() <= 65535,
        scratch.sums_of(items@),
        spec::shrinks_within_width(items@),
    ensures
        ok == (spec::line_w(items@, a as int, i as int) - spec::line_z(items@, a as int, i as int)
            <= width),
{
    proof {
        lemma_sums_monotone(items@, a + 1, i as int);
        lemma_shrunk_monotone(items@, 0, a + 1);
        lemma_shrunk_monotone(items@, a + 1, i as int);
    }
    let hi: u32 = scratch.pfx_w[i] - scratch.pfx_z[i];
    let lo: u32 = scratch.pfx_w[a + 1] - scratch.pfx_z[a + 1];
    hi - lo <= width
}

/// The breakpoint that ends the paragraph: the last forced break that was
/// reached, else the last breakpoint that was.
fn pick_terminal(items: &[Item], best: &Vec<Node>) -> (t: Option<usize>)
    requires
        items@.len() == best@.len(),
    ensures
        match t {
            Some(k) => k == spec::terminal(items@, best@),
            None => spec::terminal(items@, best@) < 0,
        },
        t matches Some(k) ==> k < best@.len() && spec::reachable(best@[k as int]),
{
    let mut last_forced: Option<usize> = None;
    let mut last_any: Option<usize> = None;
    let mut i: usize = 0;
    while i < items.len()
        invariant
            i <= items@.len(),
            items@.len() == best@.len(),
            match last_any {
                Some(k) => {
                    &&& k < i
                    &&& spec::reachable(best@[k as int])
                    &&& k == spec::last_reachable(items@, best@, false, i as int)
                },
                None => spec::last_reachable(items@, best@, false, i as int) == -1,
            },
            match last_forced {
                Some(k) => {
                    &&& k < i
                    &&& spec::reachable(best@[k as int])
                    &&& k == spec::last_reachable(items@, best@, true, i as int)
                },
                None => spec::last_reachable(items@, best@, true, i as int) == -1,
            },
        decreases items@.len() - i,
    {
        if best[i].demerits != Node::UNREACHABLE {
            last_any = Some(i);
            if items[i].kind() == ItemKind::Penalty && items[i].is_forced() {
                last_forced = Some(i);
            }
        }
        i = i + 1;
    }
    match last_forced {
        Some(k) => Some(k),
        None => last_any,
    }
}

/// The path is stored from the last breakpoint to the first; this is it in
/// reading order.
pub open spec fn backward(path: Seq<u16>) -> Seq<int> {
    Seq::new(path.len(), |k: int| path[path.len() - 1 - k] as int)
}

/// Every reachable node starts the paragraph or follows an earlier reachable
/// one.
pub open spec fn linked(best: Seq<Node>) -> bool {
    forall|i: int|
        0 <= i < best.len() && spec::reachable(#[trigger] best[i]) ==> best[i].prev == Node::NO_PREV
            || (best[i].prev < i && spec::reachable(best[best[i].prev as int]))
}

pub proof fn lemma_table_linked(items: Seq<Item>, cfg: BreakConfig, windowed: bool)
    requires
        items.len() <= 65535,
    ensures
        linked(spec::table(items, cfg, windowed, items.len() as int)),
{
    let best = spec::table(items, cfg, windowed, items.len() as int);
    let n = items.len() as int;
    lemma_table_prefix(items, cfg, windowed, n, n);
    assert forall|i: int| 0 <= i < best.len() && spec::reachable(#[trigger] best[i]) implies
        best[i].prev == Node::NO_PREV || (best[i].prev < i && spec::reachable(
        best[best[i].prev as int],
    )) by {
        let a = lemma_table_node(items, cfg, windowed, n, i);
    }
}

/// Collect the breakpoints from `t` back to the start.
fn walk_back(best: &Vec<Node>, t: usize, path: &mut Vec<u16>)
    requires
        best@.len() <= 65535,
        t < best@.len(),
        spec::reachable(best@[t as int]),
        linked(best@),
        old(path)@.len() == 0,
    ensures
        backward(final(path)@) == spec::path_to(best@, t as int),
{
    let mut cur: usize = t;
    path.push(t as u16);
    proof {
        assert(spec::path_to(best@, t as int).drop_last() + backward(path@) =~= spec::path_to(
            best@,
            t as int,
        ));
    }
    while best[cur].prev != Node::NO_PREV
        invariant
            best@.len() <= 65535,
            cur < best@.len(),
            spec::reachable(best@[cur as int]),
            linked(best@),
            spec::path_to(best@, t as int) == spec::path_to(best@, cur as int).drop_last()
                + backward(path@),
        decreases cur,
    {
        let ghost before = path@;
        let ghost from = cur as int;
        cur = best[cur].prev as usize;
        path.push(cur as u16);
        proof {
            let p = cur as int;
            assert(spec::path_to(best@, from) == spec::path_to(best@, p).push(from));
            assert(spec::path_to(best@, from).drop_last() =~= spec::path_to(best@, p));
            assert(spec::path_to(best@, p) =~= spec::path_to(best@, p).drop_last().push(p));
            assert(backward(path@) =~= seq![p] + backward(before));
            assert(spec::path_to(best@, p).drop_last() + backward(path@) =~= spec::path_to(
                best@,
                p,
            ) + backward(before));
        }
    }
    proof {
        assert(spec::path_to(best@, cur as int).drop_last() =~= Seq::<int>::empty());
        assert(spec::path_to(best@, t as int) =~= backward(path@));
    }
}

/// Decide the lines of a paragraph and leave the decision in `scratch`.
///
/// `room` says whether memory for the tables was granted. With
/// `reuse_prefixes` the prefix sums in `scratch` are already those of
/// `items`.
pub fn plan_lines(
    items: &[Item],
    cfg: &BreakConfig,
    scratch: &mut BreakScratch,
    reuse_prefixes: bool,
    windowed: bool,
    room: bool,
) -> (r: Result<(), BreakError>)
    requires
        reuse_prefixes ==> old(scratch).sums_of(items@),
        windowed ==> spec::shrinks_within_width(items@),
    ensures
        match r {
            Err(e) => Some(e) == plan_error(items@, *cfg, windowed, room),
            Ok(_) => {
                &&& plan_error(items@, *cfg, windowed, room) is None
                &&& final(scratch).sums_of(items@)
                &&& final(scratch).plan_of(items@, *cfg, windowed)
            },
        },
        r == Err::<(), BreakError>(BreakError::NoFeasibleBreaks) ==> final(scratch).sums_of(items@),
{
    if items.len() == 0 {
        return Err(BreakError::EmptyParagraph);
    }
    if items.len() > cfg.max_items as usize || !room {
        return Err(BreakError::ItemBudgetExceeded);
    }
    if !reuse_prefixes {
        scratch.build_prefixes(items);
    }
    scratch.best.clear();
    scratch.path.clear();
    forward_pass(items, cfg, scratch, windowed);
    proof {
        lemma_table_prefix(items@, *cfg, windowed, items@.len() as int, items@.len() as int);
        lemma_table_linked(items@, *cfg, windowed);
    }
    match pick_terminal(items, &scratch.best) {
        None => Err(BreakError::NoFeasibleBreaks),
        Some(t) => {
            walk_back(&scratch.best, t, &mut scratch.path);
            Ok(())
        },
    }
}

/// Why a paragraph cannot be broken, if it cannot.
pub open spec fn plan_error(
    items: Seq<Item>,
    cfg: BreakConfig,
    windowed: bool,
    room: bool,
) -> Option<BreakError> {
    if items.len() == 0 {
        Some(BreakError::EmptyParagraph)
    } else if items.len() > cfg.max_items || !room {
        Some(BreakError::ItemBudgetExceeded)
    } else if spec::paragraph_lines(items, cfg, windowed) is None {
        Some(BreakError::NoFeasibleBreaks)
    } else {
        None
    }
}

/// The flags of the line that breaks at `it`.
fn choice_flags(it: &Item, last: bool) -> (f: ChoiceFlags)
    ensures
        f.bits == spec::flag_bits(*it, last),
{
    proof {
        lemma_choice_bits();
    }
    let mut f = ChoiceFlags { bits: ChoiceFlags::NONE };
    if last {
        f.insert(ChoiceFlags::LAST_LINE);
    }
    if it.kind() == ItemKind::Penalty {
        if it.is_forced() {
            f.insert(ChoiceFlags::FORCED_BREAK);
        }
        if it.is_flagged() {
            f.insert(ChoiceFlags::FROM_HYPHEN);
        }
    }
    f
}

/// Append the lines along the stored path to `out`. `room` says whether
/// memory for them was granted.
pub fn emit_lines(
    items: &[Item],
    scratch: &BreakScratch,
    out: &mut Vec<BreakChoice>,
    room: bool,
) -> (r: Result<(), BreakError>)
    requires
        items@.len() <= 65535,
        items@.len() == scratch.best@.len(),
        forall|k: int|
            0 <= k < scratch.path@.len() ==> #[trigger] scratch.path@[k] < items@.len(),
    ensures
        !room ==> r == Err::<(), BreakError>(BreakError::ItemBudgetExceeded) && final(out)@ == old(out)@,
        room ==> r == Ok::<(), BreakError>(()) && final(out)@ == old(out)@ + spec::choices_of(
            items@,
            scratch.best@,
            backward(scratch.path@),
        ),
{
    if !room {
        return Err(BreakError::ItemBudgetExceeded);
    }
    let ghost best = scratch.best@;
    let ghost path = backward(scratch.path@);
    let ghost lines = spec::choices_of(items@, best, path);
    let len: usize = scratch.path.len();
    proof {
        assert(old(out)@ + lines.take(0) =~= old(out)@);
    }
    let mut k: usize = 0;
    while k < len
        invariant
            k <= len,
            len == scratch.path@.len(),
            items@.len() <= 65535,
            best == scratch.best@,
            best.len() == items@.len(),
            path == backward(scratch.path@),
            lines == spec::choices_of(items@, best, path),
            forall|j: int|
                0 <= j < scratch.path@.len() ==> #[trigger] scratch.path@[j] < items@.len(),
            out@ == old(out)@ + lines.take(k as int),
        decreases len - k,
    {
        let i: usize = scratch.path[len - 1 - k] as usize;
        let node: Node = scratch.best[i];
        let choice = BreakChoice {
            item_idx: i as u16,
            line_width_used: node.width_used,
            stretch_total: node.stretch_total,
            shrink_total: node.shrink_total,
            adjustment_ratio_q8: node.adjustment_q8,
            fitness: node.fitness,
            flags: choice_flags(&items[i], k + 1 == len),
        };
        proof {
            assert(choice == lines[k as int]);
            assert(lines.take(k + 1) =~= lines.take(k as int).push(choice));
        }
        out.push(choice);
        proof {
            assert(out@ =~= old(out)@ + lines.take(k + 1));
        }
        k = k + 1;
    }
    proof {
        assert(lines.take(len as int) =~= lines);
    }
    Ok(())
}

pub proof fn lemma_last_in_range(items: Seq<Item>, best: Seq<Node>, forced: bool, k: int)
    ensures
        -1 <= spec::last_reachable(items, best, forced, k),
        spec::last_reachable(items, best, forced, k) < k || spec::last_reachable(
            items,
            best,
            forced,
            k,
        ) == -1,
        spec::last_reachable(items, best, forced, k) >= 0 ==> spec::reachable(
            best[spec::last_reachable(items, best, forced, k)],
        ) && (forced ==> spec::is_forced_break(
            items[spec::last_reachable(items, best, forced, k)],
        )),
    decreases k,
{
    if k > 0 {
        lemma_last_in_range(items, best, forced, k - 1);
    }
}

pub proof fn lemma_terminal_in_range(items: Seq<Item>, best: Seq<Node>)
    requires
        spec::terminal(items, best) >= 0,
    ensures
        spec::terminal(items, best) < items.len(),
        spec::reachable(best[spec::terminal(items, best)]),
{
    lemma_last_in_range(items, best, true, items.len() as int);
    lemma_last_in_range(items, best, false, items.len() as int);
}

pub proof fn lemma_path_in_range(best: Seq<Node>, cur: int)
    requires
        0 <= cur < best.len(),
    ensures
        spec::path_to(best, cur).len() >= 1,
        spec::path_to(best, cur).last() == cur,
        forall|j: int|
            0 <= j < spec::path_to(best, cur).len() ==> 0 <= #[trigger] spec::path_to(best, cur)[j]
                <= cur,
    decreases cur,
{
    if best[cur].prev != Node::NO_PREV && best[cur].prev < cur {
        lemma_path_in_range(best, best[cur].prev as int);
    }
}

/// What breaking a paragraph gives when memory is granted (`room`) or not.
pub open spec fn outcome(
    items: Seq<Item>,
    cfg: BreakConfig,
    windowed: bool,
    room: bool,
) -> Result<Seq<BreakChoice>, BreakError> {
    match plan_error(items, cfg, windowed, room) {
        Some(e) => Err(e),
        None => Ok(spec::paragraph_lines(items, cfg, windowed)->0),
    }
}

/// The result that `o` gives, and the new `out`: the lines appended, or the error
/// with `out` as it was.
pub open spec fn delivered(
    o: Result<Seq<BreakChoice>, BreakError>,
    before: Seq<BreakChoice>,
) -> (Result<(), BreakError>, Seq<BreakChoice>) {
    match o {
        Ok(lines) => (Ok(()), before + lines),
        Err(e) => (Err(e), before),
    }
}

/// The result `r` and the new `out` deliver `o`.
pub open spec fn delivers(
    o: Result<Seq<BreakChoice>, BreakError>,
    before: Seq<BreakChoice>,
    r: Result<(), BreakError>,
    after: Seq<BreakChoice>,
) -> bool {
    (r, after) == delivered(o, before)
}

/// What breaking a paragraph may give, whether or not memory is granted.
pub open spec fn breaks_to(
    items: Seq<Item>,
    cfg: BreakConfig,
    windowed: bool,
    before: Seq<BreakChoice>,
    r: Result<(), BreakError>,
    after: Seq<BreakChoice>,
) -> bool {
    exists|room: bool|
        delivers(#[trigger] outcome(items, cfg, windowed, room), before, r, after)
}

fn break_paragraph_inner(
    items: &[Item],
    cfg: &BreakConfig,
    scratch: &mut BreakScratch,
    out: &mut Vec<BreakChoice>,
    reuse_prefixes: bool,
    windowed: bool,
) -> (r: Result<(), BreakError>)
    requires
        reuse_prefixes ==> old(scratch).sums_of(items@),
        windowed ==> spec::shrinks_within_width(items@),
    ensures
        exists|room: bool|
            delivers(
                #[trigger] outcome(items@, *cfg, windowed, room),
                old(out)@,
                r,
                final(out)@,
            ),
        r is Ok || r == Err::<(), BreakError>(BreakError::NoFeasibleBreaks) ==> final(scratch).sums_of(items@),
{
    let n: usize = items.len();
    let mut room: bool = true;
    if 0 < n && n <= cfg.max_items as usize {
        if !reuse_prefixes {
            room = scratch.reserve_sums(n);
        }
        room = room && scratch.reserve_dp(n);
    }
    match plan_lines(items, cfg, scratch, reuse_prefixes, windowed, room) {
        Err(e) => {
            proof {
                assert(delivers(
                    outcome(items@, *cfg, windowed, room),
                    old(out)@,
                    Err(e),
                    out@,
                ));
            }
            Err(e)
        },
        Ok(_) => {
            let room_out: bool = out.try_reserve(scratch.path.len()).is_ok();
            proof {
                lemma_plan_in_range(items@, *cfg, windowed, *scratch);
            }
            let r = emit_lines(items, scratch, out, room_out);
            proof {
                assert(delivers(
                    outcome(items@, *cfg, windowed, room_out),
                    old(out)@,
                    r,
                    out@,
                ));
            }
            r
        },
    }
}

proof fn lemma_plan_in_range(
    items: Seq<Item>,
    cfg: BreakConfig,
    windowed: bool,
    scratch: BreakScratch,
)
    requires
        scratch.plan_of(items, cfg, windowed),
    ensures
        items.len() == scratch.best@.len(),
        forall|k: int| 0 <= k < scratch.path@.len() ==> #[trigger] scratch.path@[k] < items.len(),
{
    let n = items.len() as int;
    lemma_table_prefix(items, cfg, windowed, n, n);
    lemma_terminal_in_range(items, scratch.best@);
    let t = spec::terminal(items, scratch.best@);
    lemma_path_in_range(scratch.best@, t);
    assert forall|k: int| 0 <= k < scratch.path@.len() implies #[trigger] scratch.path@[k]
        < items.len() by {
        let j = scratch.path@.len() - 1 - k;
        assert(backward(scratch.path@)[j] == scratch.path@[k]);
        assert(0 <= spec::path_to(scratch.best@, t)[j] <= t);
    }
}

/// Break a paragraph into lines and append them to `out`, the last with
/// `LAST_LINE`. `out` is not cleared.
///
/// Memory may be refused, and then the paragraph is over budget.
pub fn break_paragraph(
    items: &[Item],
    cfg: &BreakConfig,
    scratch: &mut BreakScratch,
    out: &mut Vec<BreakChoice>,
) -> (r: Result<(), BreakError>)
    requires
        spec::shrinks_within_width(items@),
    ensures
        breaks_to(items@, *cfg, true, old(out)@, r, final(out)@),
{
    break_paragraph_inner(items, cfg, scratch, out, false, true)
}

/// `break_paragraph` with every predecessor scanned.
pub fn break_paragraph_full_scan(
    items: &[Item],
    cfg: &BreakConfig,
    scratch: &mut BreakScratch,
    out: &mut Vec<BreakChoice>,
) -> (r: Result<(), BreakError>)
    ensures
        breaks_to(items@, *cfg, false, old(out)@, r, final(out)@),
{
    break_paragraph_inner(items, cfg, scratch, out, false, false)
}

/// Whether the first pass, which ended with `r` and left `out`, calls for a
/// second one: it found no way through, or all there is is one line wider than
/// the column.
pub open spec fn needs_retry(
    r: Result<(), BreakError>,
    out: Seq<BreakChoice>,
    line_width: u16,
) -> bool {
    match r {
        Err(e) => e == BreakError::NoFeasibleBreaks,
        Ok(_) => out.len() == 1 && out[0].line_width_used > line_width,
    }
}

/// Whether the first pass calls for a second one.
pub fn needs_second_pass(r: &Result<(), BreakError>, out: &[BreakChoice], line_width: u16) -> (b:
    bool)
    ensures
        b == needs_retry(*r, out@, line_width),
{
    match r {
        Err(BreakError::NoFeasibleBreaks) => true,
        Err(_) => false,
        Ok(_) => out.len() == 1 && out[0].line_width_used > line_width,
    }
}

/// The result and the new `out` of the two passes, given whether memory was
/// granted to each.
pub open spec fn delivers_two_pass(
    items: Seq<Item>,
    cfg: BreakConfig,
    room1: bool,
    room2: bool,
    before: Seq<BreakChoice>,
    r: Result<(), BreakError>,
    after: Seq<BreakChoice>,
) -> bool {
    let (first, out) = delivered(outcome(items, cfg, true, room1), before);
    if needs_retry(first, out, cfg.line_width) {
        delivers(
            outcome(items, cfg.spec_fallback(), true, room2),
            Seq::<BreakChoice>::empty(),
            r,
            after,
        )
    } else {
        r == first && after == out
    }
}

/// What the two passes may give, whether or not memory is granted.
pub open spec fn breaks_in_two(
    items: Seq<Item>,
    cfg: BreakConfig,
    before: Seq<BreakChoice>,
    r: Result<(), BreakError>,
    after: Seq<BreakChoice>,
) -> bool {
    exists|room1: bool, room2: bool| #[trigger]
        delivers_two_pass(items, cfg, room1, room2, before, r, after)
}

/// Two-pass paragraph breaker.
///
/// The first pass runs with `cfg`. Where it finds no feasible breaks, or
/// leaves a single line that is wider than the column, the second pass runs
/// with tolerance 10000, no line penalty and a fifth of the line width as
/// extra stretch, and `out` holds its lines alone.
pub fn break_paragraph_with_fallback(
    items: &[Item],
    cfg: &BreakConfig,
    scratch: &mut BreakScratch,
    out: &mut Vec<BreakChoice>,
) -> (r: Result<(), BreakError>)
    requires
        spec::shrinks_within_width(items@),
    ensures
        breaks_in_two(items@, *cfg, old(out)@, r, final(out)@),
{
    let first = break_paragraph_inner(items, cfg, scratch, out, false, true);
    let ghost room1 = choose|room: bool|
        delivers(#[trigger] outcome(items@, *cfg, true, room), old(out)@, first, out@);
    if !needs_second_pass(&first, out.as_slice(), cfg.line_width) {
        proof {
            assert(delivers_two_pass(items@, *cfg, room1, true, old(out)@, first, out@));
        }
        return first;
    }
    out.clear();
    let fallback = BreakConfig {
        tolerance: 10000,
        line_penalty: 0,
        emergency_stretch: cfg.line_width / 5,
        ..*cfg
    };
    let second = break_paragraph_inner(items, &fallback, scratch, out, true, true);
    proof {
        let room2 = choose|room: bool|
            delivers(
                #[trigger] outcome(items@, fallback, true, room),
                Seq::<BreakChoice>::empty(),
                second,
                out@,
            );
        assert(delivers_two_pass(items@, *cfg, room1, room2, old(out)@, second, out@));
    }
    second
}

} // verus!
