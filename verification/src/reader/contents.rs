//! The contents sheet.

use crate::reader::state::{Contents, Paint, ReaderApp, State, TocEntry};
use vstd::prelude::*;

verus! {

/// Rows of the sheet at the bottom of the screen, and grown to its top.
#[derive(Clone, Copy, Debug, PartialEq, Eq, Structural)]
pub struct SheetRows {
    pub anchored: usize,
    pub full: usize,
}

impl SheetRows {
    /// Rows that are seen: at least one.
    pub open spec fn seen(self, expanded: bool) -> int {
        let n = if expanded {
            self.full as int
        } else {
            self.anchored as int
        };
        if n > 1 {
            n
        } else {
            1
        }
    }

    pub fn visible(&self, expanded: bool) -> (n: usize)
        ensures
            n == self.seen(expanded),
    {
        let n: usize = if expanded {
            self.full
        } else {
            self.anchored
        };
        if n > 1 {
            n
        } else {
            1
        }
    }
}

/// The scroll that shows row `selected` of `len`, with `vis` rows at a time,
/// and moves as little as it can from `scroll`.
pub open spec fn scrolled(selected: int, scroll: int, len: int, vis: int) -> int {
    let at = if selected < scroll {
        selected
    } else if selected >= scroll + vis {
        selected + 1 - vis
    } else {
        scroll
    };
    let most = if len > vis {
        len - vis
    } else {
        0
    };
    if at > most {
        most
    } else {
        at
    }
}

/// The selected row is on the sheet after scrolling, and the sheet shows no
/// more empty rows than it must.
pub proof fn law_selected_row_is_seen(selected: int, scroll: int, len: int, vis: int)
    requires
        0 <= selected < len,
        0 <= scroll,
        vis >= 1,
    ensures
        ({
            let s = scrolled(selected, scroll, len, vis);
            &&& 0 <= s <= selected < s + vis
            &&& len >= vis ==> s + vis <= len
            &&& len < vis ==> s == 0
        }),
{
}

/// The sheet scrolled to its selected row.
pub open spec fn in_view(c: Contents, rows: SheetRows) -> Contents {
    Contents {
        scroll: scrolled(
            c.selected as int,
            c.scroll as int,
            c.toc@.len() as int,
            rows.seen(c.expanded),
        ) as usize,
        ..c
    }
}

/// The first entry from `i` on that is `chapter`, or 0.
pub open spec fn entry_of(toc: Seq<TocEntry>, chapter: u16, i: int) -> int
    decreases toc.len() - i,
{
    if i < 0 || i >= toc.len() {
        0
    } else if toc[i].spine_idx == chapter {
        i
    } else {
        entry_of(toc, chapter, i + 1)
    }
}

/// The sheet opened around the entry of `chapter`.
#[verifier::opaque]
pub open spec fn opened(c: Contents, chapter: u16, rows: SheetRows) -> Contents {
    let at = entry_of(c.toc@, chapter, 0);
    let half = rows.seen(false) / 2;
    in_view(
        Contents {
            selected: at as usize,
            expanded: false,
            scroll: (if at > half {
                at - half
            } else {
                0
            }) as usize,
            pages_stale: true,
            ..c
        },
        rows,
    )
}

/// `selected` moved by one, around the ends.
pub open spec fn stepped(selected: int, len: int, forward: bool) -> int {
    if forward {
        if selected + 1 < len {
            selected + 1
        } else {
            0
        }
    } else if selected > 0 {
        selected - 1
    } else {
        len - 1
    }
}

/// The sheet after a step, and what to paint anew.
pub open spec fn moved_by(c: Contents, forward: bool, rows: SheetRows) -> (Contents, Paint) {
    if c.toc@.len() == 0 {
        (c, Paint::Nothing)
    } else {
        let selected = stepped(c.selected as int, c.toc@.len() as int, forward) as usize;
        let d = in_view(Contents { selected, ..c }, rows);
        (
            d,
            if d.scroll != c.scroll {
                Paint::Sheet
            } else {
                Paint::Rows((c.selected - d.scroll) as usize, (d.selected - d.scroll) as usize)
            },
        )
    }
}

impl Contents {
    /// What every operation keeps: the selected row is an entry, and on the
    /// sheet.
    pub open spec fn shown(self, rows: SheetRows) -> bool {
        &&& self.selected < self.toc@.len()
        &&& self.scroll <= self.selected < self.scroll + rows.seen(self.expanded)
    }

    pub fn scroll_into_view(&mut self, rows: SheetRows)
        ensures
            *final(self) == in_view(*old(self), rows),
    {
        let len: usize = self.toc.len();
        let vis: usize = rows.visible(self.expanded);
        if self.selected < self.scroll {
            self.scroll = self.selected;
        } else if self.selected - self.scroll >= vis {
            self.scroll = self.selected - (vis - 1);
        }
        let most: usize = len.saturating_sub(vis);
        if self.scroll > most {
            self.scroll = most;
        }
    }

    /// Open the sheet around the entry of `chapter`.
    pub fn open_at(&mut self, chapter: u16, rows: SheetRows)
        requires
            old(self).toc@.len() > 0,
        ensures
            *final(self) == opened(*old(self), chapter, rows),
            final(self).shown(rows),
    {
        proof {
            reveal(opened);
        }
        let len: usize = self.toc.len();
        let mut at: usize = 0;
        let mut i: usize = 0;
        while i < len
            invariant_except_break
                at == 0,
                entry_of(self.toc@, chapter, i as int) == entry_of(self.toc@, chapter, 0),
            invariant
                i <= len == self.toc@.len(),
                len > 0,
                *self == *old(self),
            ensures
                at == entry_of(self.toc@, chapter, 0),
                at < len,
            decreases len - i,
        {
            if self.toc[i].spine_idx == chapter {
                at = i;
                break;
            }
            i = i + 1;
        }
        self.selected = at;
        self.expanded = false;
        let vis: usize = rows.visible(false);
        self.scroll = at.saturating_sub(vis / 2);
        self.pages_stale = true;
        let ghost c = *self;
        self.scroll_into_view(rows);
        proof {
            law_selected_row_is_seen(
                c.selected as int,
                c.scroll as int,
                c.toc@.len() as int,
                rows.seen(false),
            );
        }
    }

    /// Move the selection by one, around the ends: what to paint anew. A
    /// scroll repaints the sheet, a move within it only two rows.
    pub fn step(&mut self, forward: bool, rows: SheetRows) -> (p: Paint)
        requires
            old(self).toc@.len() == 0 || old(self).shown(rows),
        ensures
            (*final(self), p) == moved_by(*old(self), forward, rows),
            old(self).toc@.len() > 0 ==> final(self).shown(rows),
    {
        let len: usize = self.toc.len();
        if len == 0 {
            return Paint::Nothing;
        }
        let old_selected: usize = self.selected;
        let old_scroll: usize = self.scroll;
        if forward {
            self.selected = if old_selected + 1 < len {
                old_selected + 1
            } else {
                0
            };
        } else {
            self.selected = if old_selected > 0 {
                old_selected - 1
            } else {
                len - 1
            };
        }
        let ghost c = *self;
        self.scroll_into_view(rows);
        proof {
            law_selected_row_is_seen(
                c.selected as int,
                c.scroll as int,
                c.toc@.len() as int,
                rows.seen(c.expanded),
            );
        }
        if self.scroll != old_scroll {
            Paint::Sheet
        } else {
            Paint::Rows(old_selected - self.scroll, self.selected - self.scroll)
        }
    }

    /// Grow or shrink the sheet; whether that changed it.
    pub fn resize(&mut self, expanded: bool, rows: SheetRows) -> (changed: bool)
        ensures
            changed == (old(self).expanded != expanded),
            *final(self) == (if changed {
                in_view(Contents { expanded, ..*old(self) }, rows)
            } else {
                *old(self)
            }),
            old(self).shown(rows) ==> final(self).shown(rows),
    {
        if self.expanded == expanded {
            return false;
        }
        self.expanded = expanded;
        let ghost c = *self;
        self.scroll_into_view(rows);
        proof {
            if c.selected < c.toc@.len() {
                law_selected_row_is_seen(
                    c.selected as int,
                    c.scroll as int,
                    c.toc@.len() as int,
                    rows.seen(c.expanded),
                );
            }
        }
        true
    }
}

impl ReaderApp {
    /// Open the contents sheet around the open chapter, if the book has
    /// contents.
    pub fn open_contents(&mut self, rows: SheetRows) -> (p: Paint)
        ensures
            ({
                let can = old(self).book.is_epub && old(self).contents.toc@.len() > 0;
                &&& p == (if can {
                    Paint::Page
                } else {
                    Paint::Nothing
                })
                &&& *final(self) == (if can {
                    ReaderApp {
                        contents: opened(old(self).contents, old(self).chapter, rows),
                        state: State::ShowToc,
                        ..*old(self)
                    }
                } else {
                    *old(self)
                })
                &&& can ==> final(self).contents.shown(rows)
            }),
    {
        if !self.book.is_epub || self.contents.toc.len() == 0 {
            return Paint::Nothing;
        }
        self.contents.open_at(self.chapter, rows);
        self.state = State::ShowToc;
        Paint::Page
    }
}

} // verus!
