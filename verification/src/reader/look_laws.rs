//! What holds of how a page looks, whatever is chosen.

use vstd::prelude::*;

use crate::reader::look;
use crate::reader::plate::{self, PlateText};
use crate::reader::state::{FontMetrics, Look, ReadingTheme, TextArea};
use crate::ui::Region;

verus! {

/// The text lies between equal margins at both sides, and from 8 pixels and the
/// theme's margin below the top down to 4 pixels above the footer's line, or
/// above the bottom of the screen where there is no footer.
pub proof fn law_text_lies_within_the_margins(theme: ReadingTheme, show: bool)
    requires
        theme.fits(),
    ensures
        ({
            let a = look::area_of(theme, show);
            &&& a.margin == theme.margin_h
            &&& a.w + 2 * theme.margin_h == 480
            &&& a.y == 8 + theme.margin_v
            &&& show && a.y <= 766 ==> a.y + a.h == 766
            &&& !show && a.y <= 796 ==> a.y + a.h == 796
            &&& (show && a.y > 766) || a.y > 796 ==> a.h == 0
        }),
{
}

/// A line is as high as the spacing says, in percent of the em and to the
/// nearest pixel, but never lower than the font's own line.
pub proof fn law_lines_are_spaced_by_the_em(m: FontMetrics, pct: u16)
    requires
        m.em_px >= 1,
        m.native_h >= 1,
    ensures
        ({
            let h = look::spaced_height(m, pct);
            &&& h >= m.native_h
            &&& h > m.native_h ==> 100 * h - 50 <= m.em_px * pct < 100 * h + 50
            &&& h == m.native_h ==> m.em_px * pct < 100 * h + 50
        }),
{
    let raw = m.em_px as int * pct as int;
    assert(0 <= raw) by (nonlinear_arith)
        requires
            raw == m.em_px as int * pct as int,
            m.em_px >= 0,
            pct >= 0,
    ;
}

/// As many lines go on a page as fit the text's height, 37 at most. Without a
/// font lines are 20 pixels high.
pub proof fn law_pages_hold_what_fits(area: TextArea, m: FontMetrics, pct: u16)
    requires
        look::spaced_height(m, pct) <= 65535,
    ensures
        ({
            let f = look::fit_of(area, Some(m), pct);
            &&& f.max_lines <= 37
            &&& f.max_lines < 37 ==> area.h < (f.max_lines + 1) * f.line_h
            &&& f.max_lines * f.line_h <= area.h
            &&& f.ascent == m.ascent
            &&& f.line_h == look::spaced_height(m, pct)
        }),
        ({
            let f = look::fit_of(area, None, pct);
            f.line_h == 20 && f.ascent == 20 && f.max_lines == 37
        }),
{
    look::law_lines_fit_the_area(area, m, pct);
    let h = look::spaced_height(m, pct);
    let n = (area.h as int) / h;
    assert(area.h < (n + 1) * h) by (nonlinear_arith)
        requires
            n == (area.h as int) / h,
            h >= 1,
            area.h >= 0,
    ;
}

/// Lines are broken anew for another size, another font and other side margins,
/// and for nothing else.
pub proof fn law_what_breaks_lines_anew(
    l: Look,
    idx: u8,
    theme: ReadingTheme,
    show: bool,
    m: Option<FontMetrics>,
    pct: u16,
)
    requires
        !l.typeset_stale,
    ensures
        look::resized(l, idx, m, pct).typeset_stale <==> idx != l.chosen.font_size_idx,
        look::refaced(l, idx, m, pct).typeset_stale <==> idx != l.chosen.font,
        look::rethemed(l, idx, theme, m, pct).typeset_stale <==> idx != l.chosen.theme_idx
            && theme.margin_h != l.chosen.theme.margin_h,
        !look::respaced(l, idx, m, pct).typeset_stale,
        !look::rechromed(l, show, m, pct).typeset_stale,
{
}

/// Pages are broken anew for another spacing, for the footer and for other
/// margins above, where the lines stay.
pub proof fn law_what_breaks_pages_anew(
    l: Look,
    idx: u8,
    theme: ReadingTheme,
    show: bool,
    m: Option<FontMetrics>,
    pct: u16,
)
    requires
        !l.pagination_stale,
    ensures
        look::respaced(l, idx, m, pct).pagination_stale <==> idx != l.chosen.line_spacing_idx,
        look::rechromed(l, show, m, pct).pagination_stale <==> show != l.chosen.show_chrome,
        look::rethemed(l, idx, theme, m, pct).pagination_stale <==> idx != l.chosen.theme_idx
            && theme.margin_h == l.chosen.theme.margin_h && theme.margin_v
            != l.chosen.theme.margin_v,
        !look::resized(l, idx, m, pct).pagination_stale,
        !look::refaced(l, idx, m, pct).pagination_stale,
{
}

/// What is out of date stays so, whatever is chosen next.
pub proof fn law_stale_stays_stale(
    l: Look,
    idx: u8,
    theme: ReadingTheme,
    show: bool,
    m: Option<FontMetrics>,
    pct: u16,
)
    ensures
        l.typeset_stale ==> look::resized(l, idx, m, pct).typeset_stale && look::refaced(
            l,
            idx,
            m,
            pct,
        ).typeset_stale && look::rethemed(l, idx, theme, m, pct).typeset_stale && look::respaced(
            l,
            idx,
            m,
            pct,
        ).typeset_stale && look::rechromed(l, show, m, pct).typeset_stale,
        l.pagination_stale ==> look::resized(l, idx, m, pct).pagination_stale && look::refaced(
            l,
            idx,
            m,
            pct,
        ).pagination_stale && look::rethemed(l, idx, theme, m, pct).pagination_stale
            && look::respaced(l, idx, m, pct).pagination_stale && look::rechromed(
            l,
            show,
            m,
            pct,
        ).pagination_stale,
{
}

/// Each choice is kept, and no other one changes with it.
pub proof fn law_choices_are_kept(
    l: Look,
    idx: u8,
    theme: ReadingTheme,
    show: bool,
    m: Option<FontMetrics>,
    pct: u16,
)
    ensures
        look::resized(l, idx, m, pct).chosen.font_size_idx == idx,
        look::resized(l, idx, m, pct).chosen.font == l.chosen.font,
        look::refaced(l, idx, m, pct).chosen.font == idx,
        look::refaced(l, idx, m, pct).chosen.font_size_idx == l.chosen.font_size_idx,
        look::rethemed(l, idx, theme, m, pct).chosen.theme_idx == idx,
        look::rethemed(l, idx, theme, m, pct).chosen.theme == theme,
        look::rethemed(l, idx, theme, m, pct).area == look::area_of(theme, l.chosen.show_chrome),
        look::respaced(l, idx, m, pct).chosen.line_spacing_idx == idx,
        look::respaced(l, idx, m, pct).area == l.area,
        look::rechromed(l, show, m, pct).chosen.show_chrome == show,
        look::rechromed(l, show, m, pct).chosen.theme == l.chosen.theme,
{
}

// ── the footer and the loading screen ────────────────────────────

/// The footer ends at the right margin: with its bar, of 96 pixels, where there
/// is a position, or else with what is said of caching. The title starts at the
/// left margin and ends 12 pixels before what follows it.
pub proof fn law_footers_end_at_the_margin(mid: u16, bar_h: u16, w: u16)
    requires
        w <= 340,
        bar_h <= mid,
    ensures
        ({
            let f = plate::footer_of(true, mid, bar_h, Some(w));
            &&& f.bar == Some(Region { x: 376, y: (mid - bar_h / 2) as u16, w: 96, h: bar_h })
            &&& f.status == Some(Region { x: (376 - 12 - w) as u16, y: 770, w, h: 18 })
            &&& f.title == (Region { x: 8, y: 770, w: (376 - 12 - w - 12 - 8) as u16, h: 18 })
        }),
        ({
            let f = plate::footer_of(true, mid, bar_h, None);
            &&& f.status is None
            &&& f.title == (Region { x: 8, y: 770, w: 356, h: 18 })
        }),
        ({
            let f = plate::footer_of(false, mid, bar_h, None);
            &&& f.bar is None && f.status is None
            &&& f.title == (Region { x: 8, y: 770, w: 452, h: 18 })
        }),
        ({
            let f = plate::footer_of(false, mid, bar_h, Some(w));
            &&& f.bar is None
            &&& f.status == Some(Region { x: (472 - 12 - w) as u16, y: 770, w, h: 18 })
        }),
{
}

/// The row of the stage spans the screen between its margins; what is filled of
/// it goes by the percentage, and its value ends at the right margin.
pub proof fn law_stages_fill_in_proportion(pct: u8, value_w: u16)
    requires
        value_w <= 464,
    ensures
        ({
            let s = plate::stage_of(pct, value_w);
            &&& s.track.x == 8 && s.track.w == 464
            &&& s.filled.x == 8
            &&& s.filled.y == 738
            &&& s.filled.h == 2 && s.track.h == 1 && s.track.y == s.filled.y + 1
            &&& pct >= 100 ==> s.filled.w == 464
            &&& pct < 100 ==> 100 * s.filled.w <= 464 * pct < 100 * s.filled.w + 100
            &&& s.value_x + value_w == 472
        }),
{
}

/// The plate is in the middle: its cover of 112 by 160 pixels and its rule of
/// 34. Its lines span the area. Under the cover come the title, a second line
/// if there is one, the author, the rule and where the book opens.
pub proof fn law_plates_are_centred(area: Region, t: PlateText)
    requires
        plate::plate_fits(area, t),
        area.w >= 112,
    ensures
        ({
            let p = plate::plate_of(area, t);
            &&& p.cover.x == area.x + (area.w - 112) / 2 && p.cover.y == area.y + 104
            &&& p.cover.w == 112 && p.cover.h == 160
            &&& p.rule.x == area.x + (area.w - 34) / 2 && p.rule.w == 34 && p.rule.h == 1
            &&& p.title.x == area.x && p.title.w == area.w
            &&& p.title.y == p.cover.y + 160 + 30
            &&& p.second is Some <==> t.two_lines
            &&& p.second matches Some(r) ==> r.y == p.title.y + t.title_h
            &&& p.author is Some <==> t.author_h is Some
            &&& p.resume is Some <==> t.resume_h is Some
            &&& t.author_h is None && !t.two_lines ==> p.rule.y == p.title.y + t.title_h + 22
            &&& t.author_h is None && t.two_lines ==> p.rule.y == p.title.y + 2 * t.title_h + 22
            &&& t.author_h matches Some(h) ==> p.rule.y == p.author->0.y + h + 22
            &&& p.author matches Some(r) ==> r.y == p.title.y + t.title_h + 8 + (if t.two_lines {
                t.title_h as int
            } else {
                0
            })
            &&& p.resume matches Some(r) ==> r.y == p.rule.y + 20
        }),
{
}

} // verus!
