//! Sizes of book covers, and the shapes that stand in for them.

use crate::ui::Region;
use vstd::prelude::*;

verus! {

/// Size of a cover on the home card and in the loading plate.
pub const CARD_THUMB_W: u16 = 112;

pub const CARD_THUMB_H: u16 = 160;

/// Size of a cover in a list.
pub const MINI_THUMB_W: u16 = 64;

pub const MINI_THUMB_H: u16 = 96;

// ── stand-ins ─────────────────────────────────────────────────────

#[derive(Clone, Copy, Debug, PartialEq, Eq, Structural)]
pub enum ShapeKind {
    Disc,
    Bar,
    Line,
    Ring,
    Diamond,
    Dash,
}

#[derive(Clone, Copy, Debug, PartialEq, Eq, Structural)]
pub enum Tone {
    /// dark cover, light shape
    Dark,
    /// light cover, dark shape
    Tan,
}

pub open spec fn shape_of(id: u32) -> ShapeKind {
    if id % 6 == 0 {
        ShapeKind::Disc
    } else if id % 6 == 1 {
        ShapeKind::Bar
    } else if id % 6 == 2 {
        ShapeKind::Line
    } else if id % 6 == 3 {
        ShapeKind::Ring
    } else if id % 6 == 4 {
        ShapeKind::Diamond
    } else {
        ShapeKind::Dash
    }
}

pub open spec fn tone_of(id: u32) -> Tone {
    if (id / 128) % 2 == 0 {
        Tone::Dark
    } else {
        Tone::Tan
    }
}

/// The shape that stands in for the cover of a book, the same one each time.
pub fn placeholder(id: u32) -> (r: (ShapeKind, Tone))
    ensures
        r == (shape_of(id), tone_of(id)),
{
    let k: u32 = id % 6;
    let kind: ShapeKind = if k == 0 {
        ShapeKind::Disc
    } else if k == 1 {
        ShapeKind::Bar
    } else if k == 2 {
        ShapeKind::Line
    } else if k == 3 {
        ShapeKind::Ring
    } else if k == 4 {
        ShapeKind::Diamond
    } else {
        ShapeKind::Dash
    };
    let tone: Tone = if (id / 128) % 2 == 0 {
        Tone::Dark
    } else {
        Tone::Tan
    };
    (kind, tone)
}

/// Every shape comes in every tone.
pub proof fn law_every_stand_in_occurs(kind: ShapeKind, tone: Tone)
    ensures
        exists|id: u32| shape_of(id) == kind && tone_of(id) == tone,
{
    let k: u32 = match kind {
        ShapeKind::Disc => 0,
        ShapeKind::Bar => 1,
        ShapeKind::Line => 2,
        ShapeKind::Ring => 3,
        ShapeKind::Diamond => 4,
        ShapeKind::Dash => 5,
    };
    // 132 is a multiple of six whose tone bit is set
    let id: u32 = match tone {
        Tone::Dark => k,
        Tone::Tan => (132 + k) as u32,
    };
    assert(shape_of(id) == kind && tone_of(id) == tone);
}

/// A shape to draw.
#[derive(Clone, Copy, Debug, PartialEq, Eq, Structural)]
pub enum Figure {
    /// a circle in the square at `x`, `y` of side `d`
    Circle { x: i32, y: i32, d: u32, filled: bool },
    Box { x: i32, y: i32, w: u32, h: u32 },
    /// a square on its corner, `r` from its middle to each corner
    Diamond { cx: i32, cy: i32, r: i32 },
}

pub open spec fn at_least(x: int, floor: int) -> int {
    if x > floor {
        x
    } else {
        floor
    }
}

pub open spec fn shorter(region: Region) -> int {
    if region.w < region.h {
        region.w as int
    } else {
        region.h as int
    }
}

pub open spec fn box_around(cx: int, cy: int, w: int, h: int) -> Figure {
    Figure::Box { x: (cx - w / 2) as i32, y: (cy - h / 2) as i32, w: w as u32, h: h as u32 }
}

/// The shape in the middle of a cover.
pub open spec fn figure_of(kind: ShapeKind, region: Region) -> Figure {
    let cx = region.x + region.w / 2;
    let cy = region.y + region.h / 2;
    let r = at_least(shorter(region) / 4, 4);
    match kind {
        ShapeKind::Disc => Figure::Circle {
            x: (cx - r) as i32,
            y: (cy - r) as i32,
            d: (r * 2) as u32,
            filled: true,
        },
        ShapeKind::Ring => Figure::Circle {
            x: (cx - r) as i32,
            y: (cy - r) as i32,
            d: (r * 2) as u32,
            filled: false,
        },
        ShapeKind::Bar => box_around(
            cx,
            cy,
            at_least(region.w as int / 7, 4),
            at_least(region.h * 6 / 10, 8),
        ),
        ShapeKind::Line => box_around(
            cx,
            cy,
            at_least(region.w * 5 / 10, 8),
            at_least(region.h as int / 14, 3),
        ),
        ShapeKind::Dash => box_around(
            cx,
            cy,
            at_least(region.w * 6 / 10, 8),
            at_least(region.h as int / 10, 4),
        ),
        ShapeKind::Diamond => Figure::Diamond {
            cx: cx as i32,
            cy: cy as i32,
            r: at_least(shorter(region) / 5, 4) as i32,
        },
    }
}

fn no_less(x: i32, floor: i32) -> (r: i32)
    ensures
        r == at_least(x as int, floor as int),
{
    if x > floor {
        x
    } else {
        floor
    }
}

fn make_box(cx: i32, cy: i32, w: i32, h: i32) -> (f: Figure)
    requires
        0 <= cx <= 200000,
        0 <= cy <= 200000,
        0 <= w <= 65535,
        0 <= h <= 65535,
    ensures
        f == box_around(cx as int, cy as int, w as int, h as int),
{
    Figure::Box { x: cx - w / 2, y: cy - h / 2, w: w as u32, h: h as u32 }
}

/// The shape that stands in for the cover of book `id`, drawn in `region`.
pub fn draw_cover(region: Region, id: u32) -> (r: (Figure, Tone))
    ensures
        r == (figure_of(shape_of(id), region), tone_of(id)),
{
    let (kind, tone): (ShapeKind, Tone) = placeholder(id);
    let w: i32 = region.w as i32;
    let h: i32 = region.h as i32;
    let cx: i32 = region.x as i32 + w / 2;
    let cy: i32 = region.y as i32 + h / 2;
    let short: i32 = if region.w < region.h {
        w
    } else {
        h
    };
    let figure: Figure = match kind {
        ShapeKind::Disc => {
            let r: i32 = no_less(short / 4, 4);
            Figure::Circle { x: cx - r, y: cy - r, d: (r * 2) as u32, filled: true }
        },
        ShapeKind::Ring => {
            let r: i32 = no_less(short / 4, 4);
            Figure::Circle { x: cx - r, y: cy - r, d: (r * 2) as u32, filled: false }
        },
        ShapeKind::Bar => make_box(cx, cy, no_less(w / 7, 4), no_less(h * 6 / 10, 8)),
        ShapeKind::Line => make_box(cx, cy, no_less(w * 5 / 10, 8), no_less(h / 14, 3)),
        ShapeKind::Dash => make_box(cx, cy, no_less(w * 6 / 10, 8), no_less(h / 10, 4)),
        ShapeKind::Diamond => Figure::Diamond { cx, cy, r: no_less(short / 5, 4) },
    };
    (figure, tone)
}

/// On a cover that is not tiny, the shape stays within it.
pub proof fn law_shapes_stay_on_the_cover(kind: ShapeKind, region: Region)
    requires
        region.w >= 16,
        region.h >= 16,
    ensures
        match figure_of(kind, region) {
            Figure::Circle { x, y, d, .. } => region.x <= x && x + d <= region.x + region.w
                && region.y <= y && y + d <= region.y + region.h,
            Figure::Box { x, y, w, h } => region.x <= x && x + w <= region.x + region.w
                && region.y <= y && y + h <= region.y + region.h,
            Figure::Diamond { cx, cy, r } => region.x <= cx - r && cx + r <= region.x + region.w
                && region.y <= cy - r && cy + r <= region.y + region.h,
        },
{
}

} // verus!
