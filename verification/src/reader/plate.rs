//! Where the parts of the footer and of the loading screen go.

use crate::cover::{CARD_THUMB_H, CARD_THUMB_W};
use crate::reader::state;
use crate::reader::state::{
    ReaderApp, BAR_GAP, BAR_W, CHROME_H, CHROME_Y, MARGIN, STAGE_CAP_H,
};
use crate::ui;
use crate::ui::{Region, SCREEN_W};
use vstd::prelude::*;

verus! {

// ── footer ────────────────────────────────────────────────────────

/// The parts of the footer: the bar of the position, what is said of caching,
/// and the title.
#[derive(Clone, Copy, Debug, PartialEq, Eq, Structural)]
pub struct Footer {
    pub bar: Option<Region>,
    pub status: Option<Region>,
    pub title: Region,
}

/// The footer from right to left: a bar of height `bar_h` around the height
/// `mid` if there is a position, a text of width `status_w` if there is one,
/// and the title in what is left.
pub open spec fn footer_of(measurable: bool, mid: u16, bar_h: u16, status_w: Option<u16>) -> Footer {
    let edge = (SCREEN_W - MARGIN) as int;
    let right = if measurable {
        edge - BAR_W
    } else {
        edge
    };
    let left = match status_w {
        Some(w) => ui::less(right, BAR_GAP + w),
        None => right,
    };
    Footer {
        bar: if measurable {
            Some(
                Region {
                    x: right as u16,
                    y: ui::less(mid as int, bar_h as int / 2) as u16,
                    w: BAR_W,
                    h: bar_h,
                },
            )
        } else {
            None
        },
        status: match status_w {
            Some(w) => Some(Region { x: left as u16, y: CHROME_Y, w, h: CHROME_H }),
            None => None,
        },
        title: Region {
            x: MARGIN,
            y: CHROME_Y,
            w: ui::less(left, MARGIN + BAR_GAP) as u16,
            h: CHROME_H,
        },
    }
}

/// Lay the footer out. `status_w` is the width of the text on caching, if there
/// is one.
pub fn footer_layout(measurable: bool, mid: u16, bar_h: u16, status_w: Option<u16>) -> (f: Footer)
    requires
        status_w matches Some(w) ==> w <= 65523,
    ensures
        f == footer_of(measurable, mid, bar_h, status_w),
{
    let mut x: u16 = SCREEN_W - MARGIN;
    let mut bar: Option<Region> = None;
    if measurable {
        x = x - BAR_W;
        bar = Some(Region { x, y: mid.saturating_sub(bar_h / 2), w: BAR_W, h: bar_h });
    }
    let mut status: Option<Region> = None;
    if let Some(w) = status_w {
        x = x.saturating_sub(BAR_GAP + w);
        status = Some(Region { x, y: CHROME_Y, w, h: CHROME_H });
    }
    Footer {
        bar,
        status,
        title: Region {
            x: MARGIN,
            y: CHROME_Y,
            w: x.saturating_sub(MARGIN + BAR_GAP),
            h: CHROME_H,
        },
    }
}

impl ReaderApp {
    /// There is something to measure the position by.
    pub fn is_measurable(&self) -> (b: bool)
        ensures
            b == (self.book.file_size > 0 || (self.book.is_epub && self.book.spine_len > 0)),
    {
        self.book.file_size > 0 || (self.book.is_epub && self.book.spine_len > 0)
    }
}

/// The parts of the footer stand side by side, a gap apart, within the screen,
/// as long as the text on caching leaves any room.
pub proof fn law_footer_parts_stand_apart(
    measurable: bool,
    mid: u16,
    bar_h: u16,
    status_w: Option<u16>,
)
    requires
        status_w matches Some(w) ==> MARGIN + BAR_GAP + w + BAR_GAP + (if measurable {
            BAR_W as int
        } else {
            0
        }) <= SCREEN_W - MARGIN,
    ensures
        ({
            let f = footer_of(measurable, mid, bar_h, status_w);
            &&& f.title.x + f.title.w + BAR_GAP <= SCREEN_W - MARGIN
            &&& f.status matches Some(s) ==> f.title.x + f.title.w + BAR_GAP <= s.x && s.x + s.w
                + BAR_GAP <= SCREEN_W - MARGIN
            &&& f.bar matches Some(b) ==> b.x + b.w <= SCREEN_W - MARGIN && (f.status matches Some(
                s,
            ) ==> s.x + s.w + BAR_GAP == b.x)
        }),
{
}

// ── the stage row ─────────────────────────────────────────────────

/// The stage row of the loading screen.
#[derive(Clone, Copy, Debug, PartialEq, Eq, Structural)]
pub struct StageRow {
    /// left end of the value
    pub value_x: u16,
    /// the line below
    pub track: Region,
    /// the part of it that is done
    pub filled: Region,
}

/// The stage row at `pct` percent with a value of width `value_w`.
pub open spec fn stage_of(pct: u8, value_w: u16) -> StageRow {
    let r = state::spec_stage_region();
    let bar_y = r.y + STAGE_CAP_H + 8;
    let p = if pct < 100 {
        pct as int
    } else {
        100
    };
    StageRow {
        value_x: ui::less(r.x + r.w, value_w as int) as u16,
        track: Region { x: r.x, y: (bar_y + 1) as u16, w: r.w, h: 1 },
        filled: Region { x: r.x, y: bar_y as u16, w: (r.w * p / 100) as u16, h: 2 },
    }
}

/// Lay the stage row out.
pub fn stage_layout(pct: u8, value_w: u16) -> (s: StageRow)
    ensures
        s == stage_of(pct, value_w),
{
    let r: Region = state::stage_region();
    let bar_y: u16 = r.y + STAGE_CAP_H + 8;
    let p: u32 = if pct < 100 {
        pct as u32
    } else {
        100
    };
    let w: u32 = r.w as u32;
    proof {
        assert(w * p <= 464 * 100) by (nonlinear_arith)
            requires
                w <= 464,
                p <= 100,
        ;
    }
    StageRow {
        value_x: (r.x + r.w).saturating_sub(value_w),
        track: Region { x: r.x, y: bar_y + 1, w: r.w, h: 1 },
        filled: Region { x: r.x, y: bar_y, w: (w * p / 100) as u16, h: 2 },
    }
}

// ── the plate ─────────────────────────────────────────────────────

pub const COVER_TOP: u16 = 104;

pub const TITLE_GAP: u16 = 30;

pub const PLATE_RULE_W: u16 = 34;

/// Heights of the lines of the plate: of the title, which may have two lines,
/// and of the author and the line below the rule, if there are any.
#[derive(Clone, Copy, Debug, PartialEq, Eq, Structural)]
pub struct PlateText {
    pub title_h: u16,
    pub two_lines: bool,
    pub author_h: Option<u16>,
    pub resume_h: Option<u16>,
}

/// The plate of a book: its cover, its title, its author, a rule, and where it
/// opens.
#[derive(Clone, Copy, Debug, PartialEq, Eq, Structural)]
pub struct Plate {
    pub cover: Region,
    pub title: Region,
    pub second: Option<Region>,
    pub author: Option<Region>,
    pub rule: Region,
    pub resume: Option<Region>,
}

pub open spec fn plate_rows(area: Region, t: PlateText) -> (int, int, int, int, int) {
    let title = area.y + COVER_TOP + CARD_THUMB_H + TITLE_GAP;
    let second = title + t.title_h;
    let under = if t.two_lines {
        second + t.title_h
    } else {
        second
    };
    let author = under + 8;
    let rule = (match t.author_h {
        Some(h) => author + h,
        None => under,
    }) + 22;
    (title, second, author, rule, rule + 20)
}

/// The plate fits what 16 bits can tell.
pub open spec fn plate_fits(area: Region, t: PlateText) -> bool {
    let (_, _, _, _, resume) = plate_rows(area, t);
    resume <= 65535 && area.x + area.w <= 65535
}

/// The plate in `area`: everything in its middle, one below the other.
pub open spec fn plate_of(area: Region, t: PlateText) -> Plate {
    let (title, second, author, rule, resume) = plate_rows(area, t);
    let line = |y: int, h: u16| Region { x: area.x, y: y as u16, w: area.w, h };
    Plate {
        cover: Region {
            x: (area.x + ui::less(area.w as int, CARD_THUMB_W as int) / 2) as u16,
            y: (area.y + COVER_TOP) as u16,
            w: CARD_THUMB_W,
            h: CARD_THUMB_H,
        },
        title: line(title, t.title_h),
        second: if t.two_lines {
            Some(line(second, t.title_h))
        } else {
            None
        },
        author: match t.author_h {
            Some(h) => Some(line(author, h)),
            None => None,
        },
        rule: Region {
            x: (area.x + ui::less(area.w as int, PLATE_RULE_W as int) / 2) as u16,
            y: rule as u16,
            w: PLATE_RULE_W,
            h: 1,
        },
        resume: match t.resume_h {
            Some(h) => Some(line(resume, h)),
            None => None,
        },
    }
}

/// Lay the plate out.
pub fn plate_layout(area: Region, t: PlateText) -> (p: Plate)
    requires
        plate_fits(area, t),
    ensures
        p == plate_of(area, t),
{
    let cover = Region {
        x: area.x + area.w.saturating_sub(CARD_THUMB_W) / 2,
        y: area.y + COVER_TOP,
        w: CARD_THUMB_W,
        h: CARD_THUMB_H,
    };
    let mut y: u16 = cover.y + cover.h + TITLE_GAP;
    let title = Region { x: area.x, y, w: area.w, h: t.title_h };
    y = y + t.title_h;
    let mut second: Option<Region> = None;
    if t.two_lines {
        second = Some(Region { x: area.x, y, w: area.w, h: t.title_h });
        y = y + t.title_h;
    }
    let mut author: Option<Region> = None;
    if let Some(h) = t.author_h {
        y = y + 8;
        author = Some(Region { x: area.x, y, w: area.w, h });
        y = y + h;
    }
    y = y + 22;
    let rule = Region {
        x: area.x + area.w.saturating_sub(PLATE_RULE_W) / 2,
        y,
        w: PLATE_RULE_W,
        h: 1,
    };
    y = y + 20;
    let resume: Option<Region> = match t.resume_h {
        Some(h) => Some(Region { x: area.x, y, w: area.w, h }),
        None => None,
    };
    Plate { cover, title, second, author, rule, resume }
}

/// Where an image goes that is drawn in the middle of a box.
pub fn centred_in(frame: Region, w: u16, h: u16) -> (p: (u16, u16))
    requires
        frame.x + frame.w <= 65535,
        frame.y + frame.h <= 65535,
    ensures
        p.0 == frame.x + ui::less(frame.w as int, w as int) / 2,
        p.1 == frame.y + ui::less(frame.h as int, h as int) / 2,
{
    (frame.x + frame.w.saturating_sub(w) / 2, frame.y + frame.h.saturating_sub(h) / 2)
}

/// The parts of the plate stand one below the other.
pub proof fn law_plate_reads_downwards(area: Region, t: PlateText)
    requires
        plate_fits(area, t),
    ensures
        ({
            let p = plate_of(area, t);
            &&& p.cover.y + p.cover.h < p.title.y
            &&& p.title.y + p.title.h <= p.rule.y
            &&& p.second matches Some(s) ==> p.title.y + p.title.h <= s.y && s.y + s.h <= p.rule.y
            &&& p.author matches Some(a) ==> p.title.y + p.title.h <= a.y && a.y + a.h <= p.rule.y
            &&& p.resume matches Some(r) ==> p.rule.y + p.rule.h < r.y
        }),
{
}

} // verus!
