//! The library: a scrolling list of every book on the card. Its captions are made
//! whole; how much of one fits on its row is left to what draws it.

use crate::nav::{Action, ActionEvent};
use crate::ui;
use crate::ui::Region;
use vstd::prelude::*;

verus! {

/// Rows that are seen at once.
pub const VISIBLE_ROWS: usize = 6;

pub const ROW_GAP: u16 = 4;

/// What is to be read of the window.
#[derive(Clone, Copy, Debug, PartialEq, Eq, Structural)]
pub enum Load {
    Idle,
    /// it moved; rows that are still seen stay
    Window,
    /// all of it
    Full,
}

/// What is to be painted anew.
#[derive(Clone, Copy, Debug, PartialEq, Eq, Structural)]
pub enum LibraryPaint {
    Nothing,
    /// two rows of the window
    Rows(usize, usize),
    Content,
}

pub struct LibraryApp {
    /// the selected book
    pub selected: usize,
    /// the first book that is seen
    pub scroll: usize,
    /// the first book of the rows that are loaded
    pub window_start: usize,
    pub window_count: usize,
    /// books on the card
    pub total: usize,
    pub ui_font_idx: u8,
    pub load: Load,
}

/// The scroll that shows the selected book, moved as little as it can be.
pub open spec fn in_view(selected: int, scroll: int) -> int {
    if selected < scroll {
        selected
    } else if selected >= scroll + VISIBLE_ROWS {
        selected + 1 - VISIBLE_ROWS
    } else {
        scroll
    }
}

/// How the rows that are loaded move before the missing ones are read.
#[derive(Clone, Copy, Debug, PartialEq, Eq, Structural)]
pub enum Shift {
    Stay,
    /// every row goes up by one, the first one behind the last
    Up,
    Down,
}

/// What is to be done to load a window: how rows move, and which are read.
#[derive(Clone, Copy, Debug, PartialEq, Eq, Structural)]
pub struct WindowPlan {
    pub shift: Shift,
    pub first: usize,
    pub last: usize,
}

/// A window that moved by one row keeps the others; one that did not move
/// keeps all; any other is read anew.
pub open spec fn window_plan(load: Load, delta: int) -> WindowPlan {
    if load == Load::Window && delta == 1 {
        WindowPlan { shift: Shift::Up, first: (VISIBLE_ROWS - 1) as usize, last: VISIBLE_ROWS }
    } else if load == Load::Window && delta == -1 {
        WindowPlan { shift: Shift::Down, first: 0, last: 1 }
    } else if load == Load::Window && delta == 0 {
        WindowPlan { shift: Shift::Stay, first: VISIBLE_ROWS, last: VISIBLE_ROWS }
    } else {
        WindowPlan { shift: Shift::Stay, first: 0, last: VISIBLE_ROWS }
    }
}

impl LibraryApp {
    /// The selected book is seen; what is loaded is not more than the card
    /// has.
    pub open spec fn wf(self) -> bool {
        &&& self.scroll <= self.selected < self.scroll + VISIBLE_ROWS
        &&& self.selected < self.total || self.selected == 0
        &&& self.load == Load::Idle ==> self.window_start == self.scroll
        &&& self.selected < usize::MAX - VISIBLE_ROWS
    }

    pub fn new() -> (l: LibraryApp)
        ensures
            l.wf(),
            l.selected == 0,
            l.scroll == 0,
            l.total == 0,
            l.window_count == 0,
            l.load == Load::Full,
            l.ui_font_idx == 0,
    {
        LibraryApp {
            selected: 0,
            scroll: 0,
            window_start: 0,
            window_count: 0,
            total: 0,
            ui_font_idx: 0,
            load: Load::Full,
        }
    }

    pub fn set_ui_font_size(&mut self, idx: u8)
        ensures
            *final(self) == (LibraryApp { ui_font_idx: idx, ..*old(self) }),
    {
        self.ui_font_idx = idx;
    }

    fn scroll_into_view(&mut self)
        requires
            old(self).scroll < usize::MAX - VISIBLE_ROWS,
            old(self).selected < usize::MAX,
        ensures
            *final(self) == (LibraryApp {
                scroll: in_view(old(self).selected as int, old(self).scroll as int) as usize,
                ..*old(self)
            }),
    {
        if self.selected < self.scroll {
            self.scroll = self.selected;
        } else if self.selected >= self.scroll + VISIBLE_ROWS {
            self.scroll = self.selected + 1 - VISIBLE_ROWS;
        }
    }

    /// The library with book `to` selected: a scroll loads the window before
    /// anything is painted, a move within it repaints two rows.
    pub open spec fn moved_to(self, to: int) -> (LibraryApp, LibraryPaint) {
        let scroll = in_view(to, self.scroll as int);
        if to == self.selected {
            (self, LibraryPaint::Nothing)
        } else if scroll != self.scroll {
            (
                LibraryApp {
                    selected: to as usize,
                    scroll: scroll as usize,
                    load: Load::Window,
                    ..self
                },
                LibraryPaint::Nothing,
            )
        } else {
            (
                LibraryApp { selected: to as usize, ..self },
                if self.load == Load::Idle {
                    LibraryPaint::Rows(
                        (self.selected - scroll) as usize,
                        (to - scroll) as usize,
                    )
                } else {
                    LibraryPaint::Nothing
                },
            )
        }
    }

    fn move_to(&mut self, to: usize) -> (p: LibraryPaint)
        requires
            old(self).wf(),
            to <= old(self).selected + 1,
            to < old(self).total || to == 0 || to == old(self).selected,
            to < usize::MAX - VISIBLE_ROWS,
        ensures
            (*final(self), p) == old(self).moved_to(to as int),
            final(self).wf(),
    {
        let was: usize = self.selected;
        if to == was {
            return LibraryPaint::Nothing;
        }
        self.selected = to;
        let old_scroll: usize = self.scroll;
        self.scroll_into_view();
        if self.scroll != old_scroll {
            self.load = Load::Window;
            LibraryPaint::Nothing
        } else if self.load == Load::Idle {
            LibraryPaint::Rows(was - self.scroll, to - self.scroll)
        } else {
            LibraryPaint::Nothing
        }
    }

    pub fn move_up(&mut self) -> (p: LibraryPaint)
        requires
            old(self).wf(),
        ensures
            (*final(self), p) == old(self).moved_to(
                if old(self).selected > 0 {
                    old(self).selected - 1
                } else {
                    0
                },
            ),
            final(self).wf(),
    {
        let to: usize = self.selected.saturating_sub(1);
        self.move_to(to)
    }

    pub fn move_down(&mut self) -> (p: LibraryPaint)
        requires
            old(self).wf(),
            old(self).total < usize::MAX - VISIBLE_ROWS,
        ensures
            (*final(self), p) == old(self).moved_to(
                if old(self).selected + 1 < old(self).total {
                    old(self).selected + 1
                } else {
                    old(self).selected as int
                },
            ),
            final(self).wf(),
    {
        let to: usize = if self.selected + 1 < self.total {
            self.selected + 1
        } else {
            self.selected
        };
        self.move_to(to)
    }

    /// The row that a press opens.
    pub open spec fn row_to_open(self) -> Option<usize> {
        if self.load == Load::Idle && self.selected - self.window_start < self.window_count {
            Some((self.selected - self.window_start) as usize)
        } else {
            None
        }
    }

    /// The row of the window that a press opens: the selected one, once the
    /// window is loaded. Before, the rows are still those of another window,
    /// and opening one would open the wrong book.
    pub fn select(&self) -> (slot: Option<usize>)
        requires
            self.wf(),
        ensures
            slot == self.row_to_open(),
    {
        if self.load != Load::Idle {
            return None;
        }
        let slot: usize = self.selected - self.window_start;
        if slot < self.window_count {
            Some(slot)
        } else {
            None
        }
    }

    /// The library after a button: the row to open, and what to paint.
    pub open spec fn pressed(self, ev: ActionEvent) -> (LibraryApp, Option<usize>, LibraryPaint) {
        let up = ev == ActionEvent::Press(Action::Prev) || ev == ActionEvent::Repeat(Action::Prev);
        let down = ev == ActionEvent::Press(Action::Next) || ev == ActionEvent::Repeat(
            Action::Next,
        );
        let at = self.selected as int;
        let to = if up && at > 0 {
            at - 1
        } else if down && at + 1 < self.total {
            at + 1
        } else {
            at
        };
        let (after, paint) = self.moved_to(to);
        (
            after,
            if ev == ActionEvent::Press(Action::Select) {
                self.row_to_open()
            } else {
                None
            },
            paint,
        )
    }

    /// A button was pressed: the row to open, and what to paint.
    pub fn on_event(&mut self, ev: ActionEvent) -> (r: (Option<usize>, LibraryPaint))
        requires
            old(self).wf(),
            old(self).total < usize::MAX - VISIBLE_ROWS,
        ensures
            final(self).wf(),
            (*final(self), r.0, r.1) == old(self).pressed(ev),
    {
        match ev {
            ActionEvent::Press(Action::Prev) => (None, self.move_up()),
            ActionEvent::Repeat(Action::Prev) => (None, self.move_up()),
            ActionEvent::Press(Action::Next) => (None, self.move_down()),
            ActionEvent::Repeat(Action::Next) => (None, self.move_down()),
            ActionEvent::Press(Action::Select) => (self.select(), LibraryPaint::Nothing),
            _ => (None, LibraryPaint::Nothing),
        }
    }

    /// Enter the library at its top.
    pub fn on_enter(&mut self) -> (p: LibraryPaint)
        ensures
            *final(self) == (LibraryApp {
                selected: 0,
                scroll: 0,
                load: Load::Full,
                ..*old(self)
            }),
            final(self).wf(),
            p == LibraryPaint::Content,
    {
        self.selected = 0;
        self.scroll = 0;
        self.load = Load::Full;
        LibraryPaint::Content
    }

    /// Come back to the library, or wake up: at the same place, with its rows
    /// read again.
    pub fn on_resume(&mut self) -> (p: LibraryPaint)
        ensures
            *final(self) == (LibraryApp { load: Load::Full, ..*old(self) }),
            p == LibraryPaint::Content,
    {
        self.load = Load::Full;
        LibraryPaint::Content
    }

    /// The library with `total` books on the card: the selection and the scroll
    /// stay within them.
    pub open spec fn with_total(self, total: int) -> LibraryApp {
        let last = if total > 0 {
            total - 1
        } else {
            0
        };
        let most = if total > VISIBLE_ROWS {
            total - VISIBLE_ROWS
        } else {
            0
        };
        let selected = if self.selected < last {
            self.selected as int
        } else {
            last
        };
        let scroll = if self.scroll < most {
            self.scroll as int
        } else {
            most
        };
        LibraryApp {
            total: total as usize,
            selected: selected as usize,
            scroll: in_view(selected, scroll) as usize,
            ..self
        }
    }

    /// Start to load the window of a card with `total` books: how the rows
    /// move, and which are read.
    pub fn load_window(&mut self, total: usize) -> (plan: WindowPlan)
        requires
            total < usize::MAX - VISIBLE_ROWS,
        ensures
            *final(self) == old(self).with_total(total as int),
            plan == window_plan(old(self).load, final(self).scroll - old(self).window_start),
            final(self).scroll <= final(self).selected < final(self).scroll + VISIBLE_ROWS,
            final(self).selected < total || final(self).selected == 0,
    {
        self.total = total;
        let last: usize = total.saturating_sub(1);
        if self.selected > last {
            self.selected = last;
        }
        let most: usize = total.saturating_sub(VISIBLE_ROWS);
        if self.scroll > most {
            self.scroll = most;
        }
        self.scroll_into_view();
        let windowed: bool = self.load == Load::Window;
        if windowed && self.scroll > self.window_start && self.scroll - self.window_start == 1 {
            WindowPlan { shift: Shift::Up, first: VISIBLE_ROWS - 1, last: VISIBLE_ROWS }
        } else if windowed && self.window_start > self.scroll && self.window_start - self.scroll
            == 1 {
            WindowPlan { shift: Shift::Down, first: 0, last: 1 }
        } else if windowed && self.window_start == self.scroll {
            WindowPlan { shift: Shift::Stay, first: VISIBLE_ROWS, last: VISIBLE_ROWS }
        } else {
            WindowPlan { shift: Shift::Stay, first: 0, last: VISIBLE_ROWS }
        }
    }

    /// The library once the rows of its window were read.
    pub open spec fn with_rows_read(self) -> LibraryApp {
        let left = ui::less(self.total as int, self.scroll as int);
        LibraryApp {
            window_start: self.scroll,
            window_count: (if left < VISIBLE_ROWS {
                left
            } else {
                VISIBLE_ROWS as int
            }) as usize,
            load: Load::Idle,
            ..self
        }
    }

    /// The rows were read. Rows behind the last book are empty.
    pub fn window_loaded(&mut self) -> (p: LibraryPaint)
        ensures
            *final(self) == old(self).with_rows_read(),
            p == LibraryPaint::Content,
    {
        self.window_start = self.scroll;
        let left: usize = self.total.saturating_sub(self.scroll);
        self.window_count = if left < VISIBLE_ROWS {
            left
        } else {
            VISIBLE_ROWS
        };
        self.load = Load::Idle;
        LibraryPaint::Content
    }
}

/// The row `slot` of a window that starts at `start` holds book
/// `start + slot`.
pub open spec fn holds(rows: Seq<Option<int>>, start: int) -> bool {
    forall|slot: int| 0 <= slot < rows.len() ==> #[trigger] rows[slot] == Some(start + slot)
}

/// The rows after a shift, before any is read.
pub open spec fn shifted(rows: Seq<Option<int>>, shift: Shift) -> Seq<Option<int>> {
    let n = rows.len();
    match shift {
        Shift::Stay => rows,
        Shift::Up => Seq::new(n, |i: int| rows[(i + 1) % (n as int)]),
        Shift::Down => Seq::new(n, |i: int| rows[(i - 1) % (n as int)]),
    }
}

/// The rows after the plan was carried out: those that it names are read.
pub open spec fn reloaded(rows: Seq<Option<int>>, plan: WindowPlan, scroll: int) -> Seq<Option<int>> {
    let moved = shifted(rows, plan.shift);
    Seq::new(
        rows.len(),
        |i: int|
            if plan.first <= i < plan.last {
                Some(scroll + i)
            } else {
                moved[i]
            },
    )
}

/// Reading only the rows that a plan names is enough: a window that held its
/// books before the move holds those of the new place after it.
pub proof fn law_windows_hold_their_books(
    rows: Seq<Option<int>>,
    load: Load,
    window_start: int,
    scroll: int,
)
    requires
        rows.len() == VISIBLE_ROWS,
        load == Load::Window ==> holds(rows, window_start),
        load != Load::Idle,
    ensures
        holds(reloaded(rows, window_plan(load, scroll - window_start), scroll), scroll),
{
    let plan = window_plan(load, scroll - window_start);
    let after = reloaded(rows, plan, scroll);
    assert forall|slot: int| 0 <= slot < after.len() implies #[trigger] after[slot] == Some(
        scroll + slot,
    ) by {
        if !(plan.first <= slot < plan.last) {
            match plan.shift {
                Shift::Stay => {},
                Shift::Up => {
                    assert(rows[slot + 1] == Some(window_start + slot + 1));
                },
                Shift::Down => {
                    assert(rows[slot - 1] == Some(window_start + slot - 1));
                },
            }
        }
    }
}

// ── captions ──────────────────────────────────────────────────────

/// `n` and a word in the singular or the plural.
pub open spec fn counted(n: int, one: Seq<char>, many: Seq<char>) -> Seq<char> {
    if n == 1 {
        one
    } else {
        ui::num(n as nat) + many
    }
}

fn count_text(n: u64, one: &str, many: &str) -> (s: String)
    ensures
        s@ == counted(n as int, one@, many@),
{
    if n == 1 {
        one.to_owned()
    } else {
        let mut s: String = String::new();
        ui::push_num(&mut s, n);
        proof {
            assert(s@ =~= ui::num(n as nat));
        }
        s.append(many);
        s
    }
}

impl LibraryApp {
    /// How many books there are.
    pub fn count_caption(&self) -> (s: String)
        ensures
            s@ == counted(self.total as int, "1 book"@, " books"@),
    {
        count_text(self.total as u64, "1 book", " books")
    }

    /// Which books are seen, where that is not all of them.
    pub fn range_caption(&self) -> (s: Option<String>)
        requires
            self.scroll < usize::MAX - VISIBLE_ROWS,
        ensures
            s is Some == (self.total > VISIBLE_ROWS),
            s matches Some(t) ==> t@ == ui::num((self.scroll + 1) as nat) + "\u{2013}"@ + ui::num(
                (if self.scroll + VISIBLE_ROWS < self.total {
                    self.scroll + VISIBLE_ROWS
                } else {
                    self.total as int
                }) as nat,
            ) + " of "@ + ui::num(self.total as nat),
    {
        if self.total <= VISIBLE_ROWS {
            return None;
        }
        let last: usize = if self.scroll + VISIBLE_ROWS < self.total {
            self.scroll + VISIBLE_ROWS
        } else {
            self.total
        };
        let mut s: String = String::new();
        ui::push_num(&mut s, (self.scroll + 1) as u64);
        proof {
            assert(s@ =~= ui::num((self.scroll + 1) as nat));
        }
        s.append("\u{2013}");
        ui::push_num(&mut s, last as u64);
        s.append(" of ");
        ui::push_num(&mut s, self.total as u64);
        Some(s)
    }

    /// The pages of a row's book; nothing where they are not known.
    pub fn pages_caption(pages: u32) -> (s: String)
        ensures
            s@ == (if pages == 0 {
                Seq::empty()
            } else {
                counted(pages as int, "1 page"@, " pages"@)
            }),
    {
        if pages == 0 {
            String::new()
        } else {
            count_text(pages as u64, "1 page", " pages")
        }
    }

    /// Where row `slot` of the list goes, of rows of height `row_h` from `top`
    /// on.
    pub fn row_region(slot: usize, x: u16, top: u16, w: u16, row_h: u16) -> (r: Region)
        requires
            slot < VISIBLE_ROWS,
            top + VISIBLE_ROWS * (row_h + ROW_GAP) <= 65535,
        ensures
            r == (Region { x, y: (top + slot * (row_h + ROW_GAP)) as u16, w, h: row_h }),
    {
        let stride: u16 = row_h + ROW_GAP;
        proof {
            assert(slot * stride <= 6 * stride) by (nonlinear_arith)
                requires
                    slot < 6,
                    stride >= 0,
            ;
        }
        Region { x, y: top + slot as u16 * stride, w, h: row_h }
    }
}

} // verus!
