//! How the page looks: theme, fonts and spacing, and what a change of them
//! puts out of date.

use crate::layout::table::LayoutKey;
use crate::reader::state::{
    Choices, FontMetrics, LineFit, Look, ReaderApp, ReadingTheme, TextArea, CHROME_PAD, CHROME_Y,
    LINE_H, SCREEN_PAD, TEXT_Y,
};
use crate::reader::wrap::LINES_PER_PAGE;
use crate::ui::{SCREEN_H, SCREEN_W};
use vstd::prelude::*;

verus! {

/// Percent of the text area that an inline image may be high.
pub const INLINE_IMG_MAX_PCT: u16 = 40;

/// The height that an inline image may have.
pub fn inline_img_max_h(text_area_h: u16) -> (h: u16)
    ensures
        h == text_area_h * INLINE_IMG_MAX_PCT / 100,
{
    let pct: u32 = INLINE_IMG_MAX_PCT as u32;
    proof {
        assert(pct == 40);
    }
    ((text_area_h as u32 * pct) / 100) as u16
}

impl ReadingTheme {
    /// The margins leave the screen a text area.
    pub open spec fn fits(self) -> bool {
        2 * self.margin_h <= SCREEN_W && TEXT_Y + self.margin_v <= 65535
    }
}

/// The text area of a theme: from the top of the screen to the footer, or to
/// the bottom without one.
pub open spec fn area_of(theme: ReadingTheme, show_chrome: bool) -> TextArea {
    let y = TEXT_Y + theme.margin_v;
    let bottom = if show_chrome {
        CHROME_Y - CHROME_PAD
    } else {
        SCREEN_H - SCREEN_PAD
    };
    TextArea {
        margin: theme.margin_h,
        y: y as u16,
        w: (SCREEN_W - 2 * theme.margin_h) as u32,
        h: (if bottom > y {
            bottom - y
        } else {
            0
        }) as u16,
    }
}

/// The height of a line: a share of the em, but no less than the font's own.
pub open spec fn spaced_height(m: FontMetrics, spacing_pct: u16) -> int {
    let em = if m.em_px > 1 {
        m.em_px as int
    } else {
        1
    };
    let native = if m.native_h > 1 {
        m.native_h as int
    } else {
        1
    };
    let h = (em * spacing_pct + 50) / 100;
    if h > native {
        h
    } else {
        native
    }
}

/// How lines of a font fit a text area; without a font, the fixed lines.
pub open spec fn fit_of(area: TextArea, m: Option<FontMetrics>, spacing_pct: u16) -> LineFit {
    match m {
        None => LineFit { line_h: LINE_H, ascent: LINE_H, max_lines: LINES_PER_PAGE as u8 },
        Some(f) => {
            let h = spaced_height(f, spacing_pct);
            LineFit {
                line_h: h as u16,
                ascent: f.ascent,
                max_lines: (if (area.h as int) / h < LINES_PER_PAGE {
                    (area.h as int) / h
                } else {
                    LINES_PER_PAGE as int
                }) as u8,
            }
        },
    }
}

/// The height of a line can be told in 16 bits.
pub open spec fn measurable(m: Option<FontMetrics>, spacing_pct: u16) -> bool {
    m matches Some(f) ==> spaced_height(f, spacing_pct) <= 65535
}

impl Look {
    /// The text area is that of the theme.
    pub open spec fn wf(self) -> bool {
        self.chosen.theme.fits() && self.area == area_of(self.chosen.theme, self.chosen.show_chrome)
    }

    /// Lay the text area out for the theme.
    pub fn apply_theme_layout(&mut self)
        requires
            old(self).chosen.theme.fits(),
        ensures
            *final(self) == (Look {
                area: area_of(old(self).chosen.theme, old(self).chosen.show_chrome),
                ..*old(self)
            }),
    {
        let theme = self.chosen.theme;
        let y: u16 = TEXT_Y + theme.margin_v;
        let bottom: u16 = if self.chosen.show_chrome {
            CHROME_Y - CHROME_PAD
        } else {
            SCREEN_H - SCREEN_PAD
        };
        self.area = TextArea {
            margin: theme.margin_h,
            y,
            w: (SCREEN_W - 2 * theme.margin_h) as u32,
            h: bottom.saturating_sub(y),
        };
    }

    /// Fit lines of a font into the text area.
    pub fn apply_font_metrics(&mut self, m: Option<FontMetrics>, spacing_pct: u16)
        requires
            measurable(m, spacing_pct),
        ensures
            *final(self) == (Look {
                fit: fit_of(old(self).area, m, spacing_pct),
                ..*old(self)
            }),
    {
        match m {
            None => {
                self.fit = LineFit {
                    line_h: LINE_H,
                    ascent: LINE_H,
                    max_lines: LINES_PER_PAGE as u8,
                };
            },
            Some(f) => {
                let em: u64 = if f.em_px > 1 {
                    f.em_px as u64
                } else {
                    1
                };
                let native: u64 = if f.native_h > 1 {
                    f.native_h as u64
                } else {
                    1
                };
                proof {
                    assert(0 <= em * spacing_pct <= 65535 * 65535) by (nonlinear_arith)
                        requires
                            0 <= em <= 65535,
                            0 <= spacing_pct <= 65535,
                    ;
                }
                let spaced: u64 = (em * spacing_pct as u64 + 50) / 100;
                let h: u64 = if spaced > native {
                    spaced
                } else {
                    native
                };
                let n: u64 = self.area.h as u64 / h;
                self.fit = LineFit {
                    line_h: h as u16,
                    ascent: f.ascent,
                    max_lines: if n < LINES_PER_PAGE as u64 {
                        n as u8
                    } else {
                        LINES_PER_PAGE as u8
                    },
                };
            },
        }
    }

    /// The key that the chapter's layout is stored under.
    pub open spec fn key(self, content_fmt: u8) -> LayoutKey {
        LayoutKey::spec_current(
            self.chosen.font_size_idx,
            self.chosen.font,
            content_fmt,
            (self.area.w % 65536) as u16,
            self.fit.line_h,
            self.fit.max_lines,
        )
    }

    pub fn current_layout_key(&self, content_fmt: u8) -> (k: LayoutKey)
        ensures
            k == self.key(content_fmt),
    {
        LayoutKey::current(
            self.chosen.font_size_idx,
            self.chosen.font,
            content_fmt,
            (self.area.w % 65536) as u16,
            self.fit.line_h,
            self.fit.max_lines,
        )
    }
}

/// The look with another font size.
pub open spec fn resized(l: Look, idx: u8, m: Option<FontMetrics>, spacing_pct: u16) -> Look {
    Look {
        typeset_stale: l.typeset_stale || idx != l.chosen.font_size_idx,
        chosen: Choices { font_size_idx: idx, ..l.chosen },
        fit: fit_of(l.area, m, spacing_pct),
        ..l
    }
}

/// The look with another font.
pub open spec fn refaced(l: Look, font: u8, m: Option<FontMetrics>, spacing_pct: u16) -> Look {
    Look {
        typeset_stale: l.typeset_stale || font != l.chosen.font,
        chosen: Choices { font, ..l.chosen },
        fit: fit_of(l.area, m, spacing_pct),
        ..l
    }
}

/// The look with another theme. Other side margins move the line breaks, other
/// margins at the top only the pages.
pub open spec fn rethemed(
    l: Look,
    idx: u8,
    theme: ReadingTheme,
    m: Option<FontMetrics>,
    spacing_pct: u16,
) -> Look {
    let changed = idx != l.chosen.theme_idx;
    let was = l.chosen.theme;
    let area = area_of(theme, l.chosen.show_chrome);
    Look {
        chosen: Choices { theme_idx: idx, theme, ..l.chosen },
        area,
        fit: fit_of(area, m, spacing_pct),
        typeset_stale: l.typeset_stale || (changed && theme.margin_h != was.margin_h),
        pagination_stale: l.pagination_stale || (changed && theme.margin_h == was.margin_h
            && theme.margin_v != was.margin_v),
    }
}

/// The look with another line spacing: the pages are out of date.
pub open spec fn respaced(l: Look, idx: u8, m: Option<FontMetrics>, spacing_pct: u16) -> Look {
    Look {
        pagination_stale: l.pagination_stale || idx != l.chosen.line_spacing_idx,
        chosen: Choices { line_spacing_idx: idx, ..l.chosen },
        fit: fit_of(l.area, m, spacing_pct),
        ..l
    }
}

/// The look with the footer or without it: the pages are out of date.
pub open spec fn rechromed(l: Look, show: bool, m: Option<FontMetrics>, spacing_pct: u16) -> Look {
    if show == l.chosen.show_chrome {
        l
    } else {
        let area = area_of(l.chosen.theme, show);
        Look {
            chosen: Choices { show_chrome: show, ..l.chosen },
            pagination_stale: true,
            area,
            fit: fit_of(area, m, spacing_pct),
            ..l
        }
    }
}

impl ReaderApp {
    pub fn set_book_font_size(&mut self, idx: u8, m: Option<FontMetrics>, spacing_pct: u16)
        requires
            measurable(m, spacing_pct),
        ensures
            *final(self) == (ReaderApp {
                look: resized(old(self).look, idx, m, spacing_pct),
                ..*old(self)
            }),
    {
        self.look.typeset_stale = self.look.typeset_stale || idx != self.look.chosen.font_size_idx;
        self.look.chosen.font_size_idx = idx;
        self.look.apply_font_metrics(m, spacing_pct);
    }

    pub fn set_reader_font(&mut self, font: u8, m: Option<FontMetrics>, spacing_pct: u16)
        requires
            measurable(m, spacing_pct),
        ensures
            *final(self) == (ReaderApp {
                look: refaced(old(self).look, font, m, spacing_pct),
                ..*old(self)
            }),
    {
        self.look.typeset_stale = self.look.typeset_stale || font != self.look.chosen.font;
        self.look.chosen.font = font;
        self.look.apply_font_metrics(m, spacing_pct);
    }

    /// `theme` is the theme of index `idx`.
    pub fn set_reading_theme(
        &mut self,
        idx: u8,
        theme: ReadingTheme,
        m: Option<FontMetrics>,
        spacing_pct: u16,
    )
        requires
            theme.fits(),
            measurable(m, spacing_pct),
        ensures
            *final(self) == (ReaderApp {
                look: rethemed(old(self).look, idx, theme, m, spacing_pct),
                ..*old(self)
            }),
    {
        if idx != self.look.chosen.theme_idx {
            if theme.margin_h != self.look.chosen.theme.margin_h {
                self.look.typeset_stale = true;
            } else if theme.margin_v != self.look.chosen.theme.margin_v {
                self.look.pagination_stale = true;
            }
        }
        self.look.chosen.theme_idx = idx;
        self.look.chosen.theme = theme;
        self.look.apply_theme_layout();
        self.look.apply_font_metrics(m, spacing_pct);
    }

    pub fn set_line_spacing(&mut self, idx: u8, m: Option<FontMetrics>, spacing_pct: u16)
        requires
            measurable(m, spacing_pct),
        ensures
            *final(self) == (ReaderApp {
                look: respaced(old(self).look, idx, m, spacing_pct),
                ..*old(self)
            }),
    {
        self.look.pagination_stale = self.look.pagination_stale || idx
            != self.look.chosen.line_spacing_idx;
        self.look.chosen.line_spacing_idx = idx;
        self.look.apply_font_metrics(m, spacing_pct);
    }

    /// Line breaks do not depend on the alignment, so nothing is out of date.
    pub fn set_text_alignment(&mut self, alignment: u8)
        ensures
            *final(self) == (ReaderApp {
                look: Look {
                    chosen: Choices { text_alignment: alignment, ..old(self).look.chosen },
                    ..old(self).look
                },
                ..*old(self)
            }),
    {
        self.look.chosen.text_alignment = alignment;
    }

    pub fn set_show_chrome(&mut self, show: bool, m: Option<FontMetrics>, spacing_pct: u16)
        requires
            old(self).look.chosen.theme.fits(),
            measurable(m, spacing_pct),
        ensures
            *final(self) == (ReaderApp {
                look: rechromed(old(self).look, show, m, spacing_pct),
                ..*old(self)
            }),
    {
        if self.look.chosen.show_chrome != show {
            self.look.chosen.show_chrome = show;
            self.look.pagination_stale = true;
            self.look.apply_theme_layout();
            self.look.apply_font_metrics(m, spacing_pct);
        }
    }

    pub fn set_ui_font_size(&mut self, idx: u8)
        ensures
            *final(self) == (ReaderApp {
                look: Look {
                    chosen: Choices { ui_font_idx: idx, ..old(self).look.chosen },
                    ..old(self).look
                },
                ..*old(self)
            }),
    {
        self.look.chosen.ui_font_idx = idx;
    }
}

/// The lines of a layout stored under one look are those of another.
pub open spec fn same_lines(a: Look, b: Look, content_fmt: u8, total_pages: u32) -> bool {
    b.key(content_fmt).spec_lines_match(a.key(content_fmt).spec_header(total_pages))
}

/// A change of the look that moves line breaks is never missed: as long as
/// they are not out of date, a layout stored under the old look has the lines
/// of the new one. (One index stands for one theme.)
pub proof fn law_stale_lines_are_noticed(
    a: Look,
    idx: u8,
    theme: ReadingTheme,
    show: bool,
    m: Option<FontMetrics>,
    spacing_pct: u16,
    content_fmt: u8,
    total_pages: u32,
)
    requires
        a.wf(),
        theme.fits(),
        idx == a.chosen.theme_idx ==> theme == a.chosen.theme,
    ensures
        resized(a, idx, m, spacing_pct).typeset_stale || same_lines(
            a,
            resized(a, idx, m, spacing_pct),
            content_fmt,
            total_pages,
        ),
        refaced(a, idx, m, spacing_pct).typeset_stale || same_lines(
            a,
            refaced(a, idx, m, spacing_pct),
            content_fmt,
            total_pages,
        ),
        rethemed(a, idx, theme, m, spacing_pct).typeset_stale || same_lines(
            a,
            rethemed(a, idx, theme, m, spacing_pct),
            content_fmt,
            total_pages,
        ),
        same_lines(a, respaced(a, idx, m, spacing_pct), content_fmt, total_pages),
        same_lines(a, rechromed(a, show, m, spacing_pct), content_fmt, total_pages),
{
}

/// The lines of a page fit the text area.
pub proof fn law_lines_fit_the_area(area: TextArea, f: FontMetrics, spacing_pct: u16)
    requires
        spaced_height(f, spacing_pct) <= 65535,
    ensures
        ({
            let fit = fit_of(area, Some(f), spacing_pct);
            &&& fit.max_lines * fit.line_h <= area.h
            &&& fit.line_h >= f.native_h
            &&& fit.max_lines <= LINES_PER_PAGE
        }),
{
    let h = spaced_height(f, spacing_pct);
    let n = (area.h as int) / h;
    assert(0 <= n && n * h <= area.h) by (nonlinear_arith)
        requires
            n == (area.h as int) / h,
            h >= 1,
            area.h >= 0,
    ;
    let fit = fit_of(area, Some(f), spacing_pct);
    assert(fit.max_lines * fit.line_h <= n * h) by (nonlinear_arith)
        requires
            0 <= fit.max_lines <= n,
            fit.line_h == h,
            h >= 1,
    ;
}

} // verus!
