//! Turning pages, jumping, and the buttons of the reader.

use crate::nav::{Action, ActionEvent, Transition};
use crate::reader::clock::LoadingClock;
use crate::reader::contents;
use crate::reader::contents::SheetRows;
use crate::reader::index::PageIndex;
use crate::reader::persist;
use crate::reader::screen;
use crate::reader::state::{
    Contents, LoadingReason, Paint, PendingPositionChange, ReaderApp, State, NO_CHAPTER,
};
use vstd::prelude::*;

verus! {

/// Pages that a jump in a text file skips.
pub const JUMP_PAGES: usize = 10;

/// Page `page` of the text is wanted.
pub open spec fn to_page(a: ReaderApp, page: int, change: PendingPositionChange) -> ReaderApp {
    ReaderApp {
        pg: PageIndex { page: page as usize, ..a.pg },
        pending_change: Some(change),
        state: State::NeedPage,
        ..a
    }
}

/// Chapter `chapter` is wanted, at its first or its last page.
pub open spec fn to_chapter(
    a: ReaderApp,
    chapter: int,
    change: PendingPositionChange,
    last_page: bool,
) -> ReaderApp {
    ReaderApp {
        chapter: chapter as u16,
        pending_change: Some(change),
        goto_last_page: last_page,
        state: State::NeedIndex,
        ..a
    }
}

pub open spec fn has_next_chapter(a: ReaderApp) -> bool {
    a.book.is_epub && a.chapter + 1 < a.book.spine_len
}

pub open spec fn has_prev_chapter(a: ReaderApp) -> bool {
    a.book.is_epub && a.chapter > 0
}

/// One page on: within the text, or to the next chapter once the last page is
/// known to be the last.
#[verifier::opaque]
pub open spec fn turned_forward(a: ReaderApp) -> (ReaderApp, bool) {
    if a.state != State::Ready {
        (a, false)
    } else if a.pg.page + 1 < a.pg.total() {
        (to_page(a, a.pg.page + 1, PendingPositionChange::PageTurn), true)
    } else if has_next_chapter(a) && a.pg.fully_indexed {
        (to_chapter(a, a.chapter + 1, PendingPositionChange::PageTurn, false), true)
    } else {
        (a, false)
    }
}

/// One page back: within the text, or to the last page of the chapter before.
#[verifier::opaque]
pub open spec fn turned_backward(a: ReaderApp) -> (ReaderApp, bool) {
    if a.state != State::Ready {
        (a, false)
    } else if a.pg.page > 0 {
        (to_page(a, a.pg.page - 1, PendingPositionChange::PageTurn), true)
    } else if has_prev_chapter(a) {
        (to_chapter(a, a.chapter - 1, PendingPositionChange::PageTurn, true), true)
    } else {
        (a, false)
    }
}

/// To the next chapter, or ten pages on in a text file.
#[verifier::opaque]
pub open spec fn jumped_forward(a: ReaderApp) -> (ReaderApp, bool) {
    let target = if a.pg.page + JUMP_PAGES < a.pg.total() {
        a.pg.page + JUMP_PAGES
    } else {
        a.pg.total() - 1
    };
    if a.state != State::Ready {
        (a, false)
    } else if a.book.is_epub {
        if has_next_chapter(a) {
            (to_chapter(a, a.chapter + 1, PendingPositionChange::Jump, false), true)
        } else {
            (a, false)
        }
    } else if target != a.pg.page {
        (to_page(a, target, PendingPositionChange::Jump), true)
    } else {
        (a, false)
    }
}

/// To the chapter before, or ten pages back in a text file.
#[verifier::opaque]
pub open spec fn jumped_backward(a: ReaderApp) -> (ReaderApp, bool) {
    let target = if a.pg.page > JUMP_PAGES {
        a.pg.page - JUMP_PAGES
    } else {
        0
    };
    if a.state != State::Ready {
        (a, false)
    } else if a.book.is_epub {
        if has_prev_chapter(a) {
            (to_chapter(a, a.chapter - 1, PendingPositionChange::Jump, false), true)
        } else {
            (a, false)
        }
    } else if target != a.pg.page {
        (to_page(a, target, PendingPositionChange::Jump), true)
    } else {
        (a, false)
    }
}

impl ReaderApp {
    /// Turn to the next page; whether there is one.
    pub fn page_forward(&mut self) -> (moved: bool)
        requires
            old(self).wf(),
        ensures
            (*final(self), moved) == turned_forward(*old(self)),
    {
        proof {
            reveal(turned_forward);
        }
        if self.state != State::Ready {
            return false;
        }
        if self.pg.page + 1 < self.pg.offsets.len() {
            self.pg.page = self.pg.page + 1;
            self.pending_change = Some(PendingPositionChange::PageTurn);
            self.state = State::NeedPage;
            return true;
        }
        if self.book.is_epub && self.pg.fully_indexed && self.chapter as usize + 1
            < self.book.spine_len {
            self.chapter = self.chapter + 1;
            self.pending_change = Some(PendingPositionChange::PageTurn);
            self.goto_last_page = false;
            self.state = State::NeedIndex;
            return true;
        }
        false
    }

    /// Turn to the page before; whether there is one.
    pub fn page_backward(&mut self) -> (moved: bool)
        requires
            old(self).wf(),
        ensures
            (*final(self), moved) == turned_backward(*old(self)),
    {
        proof {
            reveal(turned_backward);
        }
        if self.state != State::Ready {
            return false;
        }
        if self.pg.page > 0 {
            self.pg.page = self.pg.page - 1;
            self.pending_change = Some(PendingPositionChange::PageTurn);
            self.state = State::NeedPage;
            return true;
        }
        if self.book.is_epub && self.chapter > 0 {
            self.chapter = self.chapter - 1;
            self.pending_change = Some(PendingPositionChange::PageTurn);
            self.goto_last_page = true;
            self.state = State::NeedIndex;
            return true;
        }
        false
    }

    /// Jump to the next chapter, or ten pages on; whether anything moved.
    pub fn jump_forward(&mut self) -> (moved: bool)
        requires
            old(self).wf(),
        ensures
            (*final(self), moved) == jumped_forward(*old(self)),
    {
        proof {
            reveal(jumped_forward);
        }
        if self.state != State::Ready {
            return false;
        }
        if self.book.is_epub {
            if self.chapter as usize + 1 < self.book.spine_len {
                self.chapter = self.chapter + 1;
                self.pending_change = Some(PendingPositionChange::Jump);
                self.goto_last_page = false;
                self.state = State::NeedIndex;
                return true;
            }
            return false;
        }
        let last: usize = self.pg.offsets.len() - 1;
        let target: usize = if self.pg.page + JUMP_PAGES < last {
            self.pg.page + JUMP_PAGES
        } else {
            last
        };
        if target != self.pg.page {
            self.pg.page = target;
            self.pending_change = Some(PendingPositionChange::Jump);
            self.state = State::NeedPage;
            return true;
        }
        false
    }

    /// Jump to the chapter before, or ten pages back; whether anything moved.
    pub fn jump_backward(&mut self) -> (moved: bool)
        requires
            old(self).wf(),
        ensures
            (*final(self), moved) == jumped_backward(*old(self)),
    {
        proof {
            reveal(jumped_backward);
        }
        if self.state != State::Ready {
            return false;
        }
        if self.book.is_epub {
            if self.chapter > 0 {
                self.chapter = self.chapter - 1;
                self.pending_change = Some(PendingPositionChange::Jump);
                self.goto_last_page = false;
                self.state = State::NeedIndex;
                return true;
            }
            return false;
        }
        let target: usize = self.pg.page.saturating_sub(JUMP_PAGES);
        if target != self.pg.page {
            self.pg.page = target;
            self.pending_change = Some(PendingPositionChange::Jump);
            self.state = State::NeedPage;
            return true;
        }
        false
    }
}

// ── buttons ───────────────────────────────────────────────────────

/// A press or a held button.
pub open spec fn presses(ev: ActionEvent, action: Action) -> bool {
    ev == ActionEvent::Press(action) || ev == ActionEvent::Repeat(action)
}

/// What a button does: the reader behind it, where to go, what to paint, and
/// whether loading started.
pub struct Pressed {
    pub app: ReaderApp,
    pub to: Transition,
    pub paint: Paint,
    pub loading: bool,
}

pub open spec fn unmoved(a: ReaderApp) -> Pressed {
    Pressed { app: a, to: Transition::Stay, paint: Paint::Nothing, loading: false }
}

pub open spec fn painted(a: ReaderApp, paint: Paint) -> Pressed {
    Pressed { app: a, to: Transition::Stay, paint, loading: false }
}

/// A page or chapter change that may have moved: then loading starts.
pub open spec fn moved(r: (ReaderApp, bool)) -> Pressed {
    let (a, went) = r;
    if went {
        Pressed {
            app: ReaderApp { loading: screen::begun(a.loading, LoadingReason::Chapter), ..a },
            to: Transition::Stay,
            paint: Paint::Nothing,
            loading: true,
        }
    } else {
        unmoved(a)
    }
}

/// The contents sheet closed.
pub open spec fn closed(a: ReaderApp) -> Pressed {
    painted(ReaderApp { state: State::Ready, ..a }, Paint::Page)
}

/// The selected entry opened: its chapter from the first page, unless it
/// points nowhere.
#[verifier::opaque]
pub open spec fn entered(a: ReaderApp) -> Pressed {
    let at = a.contents.toc@[a.contents.selected as int].spine_idx;
    if at == NO_CHAPTER {
        closed(a)
    } else {
        moved(
            (
                to_chapter(
                    ReaderApp { pg: PageIndex { page: 0, ..a.pg }, ..a },
                    at as int,
                    PendingPositionChange::Jump,
                    false,
                ),
                true,
            ),
        )
    }
}

#[verifier::opaque]
pub open spec fn sheet_moved(a: ReaderApp, forward: bool, rows: SheetRows) -> Pressed {
    let c = a.contents;
    let after = contents::in_view(
        Contents {
            selected: contents::stepped(
                c.selected as int,
                c.toc@.len() as int,
                forward,
            ) as usize,
            ..c
        },
        rows,
    );
    painted(
        ReaderApp { contents: after, ..a },
        if after.scroll != c.scroll {
            Paint::Sheet
        } else {
            Paint::Rows(
                (c.selected - after.scroll) as usize,
                (after.selected - after.scroll) as usize,
            )
        },
    )
}

#[verifier::opaque]
pub open spec fn sheet_resized(a: ReaderApp, expanded: bool, rows: SheetRows) -> Pressed {
    if a.contents.expanded == expanded {
        unmoved(a)
    } else {
        painted(
            ReaderApp {
                contents: contents::in_view(Contents { expanded, ..a.contents }, rows),
                ..a
            },
            Paint::Page,
        )
    }
}

/// A button while the contents sheet is open.
pub open spec fn pressed_in_sheet(a: ReaderApp, ev: ActionEvent, rows: SheetRows) -> Pressed {
    if ev == ActionEvent::Press(Action::Back) || ev == ActionEvent::Press(Action::Menu) {
        closed(a)
    } else if presses(ev, Action::Next) {
        sheet_moved(a, true, rows)
    } else if presses(ev, Action::Prev) {
        sheet_moved(a, false, rows)
    } else if ev == ActionEvent::Press(Action::NextJump) {
        sheet_resized(a, true, rows)
    } else if ev == ActionEvent::Press(Action::PrevJump) {
        sheet_resized(a, false, rows)
    } else if ev == ActionEvent::Press(Action::Select) {
        entered(a)
    } else {
        unmoved(a)
    }
}

/// The position overlay comes up while a page button is held.
pub open spec fn with_overlay(a: ReaderApp) -> ReaderApp {
    ReaderApp { show_position: a.show_position || a.state == State::Ready, ..a }
}

/// Page `page` of the chapter is wanted at once.
#[verifier::opaque]
pub open spec fn leaped(a: ReaderApp, page: int, now: u32) -> Pressed {
    painted(
        ReaderApp {
            pg: PageIndex { page: page as usize, ..a.pg },
            log: persist::committed(a.log, PendingPositionChange::Jump, now),
            ..a
        },
        Paint::Page,
    )
}

/// A button on the page.
pub open spec fn pressed_on_page(a: ReaderApp, ev: ActionEvent, now: u32) -> Pressed {
    if ev == ActionEvent::Press(Action::Back) {
        Pressed { to: Transition::Pop, ..unmoved(a) }
    } else if ev == ActionEvent::LongPress(Action::Back) {
        Pressed { to: Transition::Home, ..unmoved(a) }
    } else if ev == ActionEvent::LongPress(Action::Next) {
        moved(turned_forward(with_overlay(a)))
    } else if ev == ActionEvent::LongPress(Action::Prev) {
        moved(turned_backward(with_overlay(a)))
    } else if ev == ActionEvent::Release(Action::Next) || ev == ActionEvent::Release(Action::Prev) {
        if a.show_position {
            painted(ReaderApp { show_position: false, ..a }, Paint::Overlay)
        } else {
            unmoved(a)
        }
    } else if presses(ev, Action::Next) {
        moved(turned_forward(a))
    } else if presses(ev, Action::Prev) {
        moved(turned_backward(a))
    } else if presses(ev, Action::NextJump) {
        moved(jumped_forward(a))
    } else if presses(ev, Action::PrevJump) {
        moved(jumped_backward(a))
    } else if ev == ActionEvent::LongPress(Action::NextJump) && a.state == State::Ready {
        leaped(a, a.pg.total() - 1, now)
    } else if ev == ActionEvent::LongPress(Action::PrevJump) && a.state == State::Ready {
        leaped(a, 0, now)
    } else {
        unmoved(a)
    }
}

pub open spec fn pressed(a: ReaderApp, ev: ActionEvent, rows: SheetRows, now: u32) -> Pressed {
    if a.state == State::ShowToc {
        pressed_in_sheet(a, ev, rows)
    } else {
        pressed_on_page(a, ev, now)
    }
}

impl ReaderApp {
    fn moved(&mut self, went: bool, clock: &mut LoadingClock)
        ensures
            *final(self) == moved((*old(self), went)).app,
    {
        if went {
            self.begin_loading(LoadingReason::Chapter, clock);
        }
    }

    fn sheet_step(&mut self, forward: bool, rows: SheetRows) -> (p: Paint)
        requires
            old(self).contents.shown(rows),
        ensures
            ({
                let want = sheet_moved(*old(self), forward, rows);
                *final(self) == want.app && p == want.paint && want.to == Transition::Stay
            }),
    {
        proof {
            reveal(sheet_moved);
        }
        self.contents.step(forward, rows)
    }

    fn sheet_resize(&mut self, expanded: bool, rows: SheetRows) -> (p: Paint)
        ensures
            ({
                let want = sheet_resized(*old(self), expanded, rows);
                *final(self) == want.app && p == want.paint && want.to == Transition::Stay
            }),
    {
        proof {
            reveal(sheet_resized);
        }
        if self.contents.resize(expanded, rows) {
            Paint::Page
        } else {
            Paint::Nothing
        }
    }

    fn sheet_enter(&mut self, clock: &mut LoadingClock) -> (p: Paint)
        requires
            old(self).contents.selected < old(self).contents.toc@.len(),
        ensures
            ({
                let want = entered(*old(self));
                *final(self) == want.app && p == want.paint && want.to == Transition::Stay
            }),
    {
        proof {
            reveal(entered);
        }
        let at: u16 = self.contents.toc[self.contents.selected].spine_idx;
        if at != NO_CHAPTER {
            self.chapter = at;
            self.pg.page = 0;
            self.pending_change = Some(PendingPositionChange::Jump);
            self.goto_last_page = false;
            self.state = State::NeedIndex;
            // the sheet stays up until the chapter is ready
            self.begin_loading(LoadingReason::Chapter, clock);
            Paint::Nothing
        } else {
            self.state = State::Ready;
            Paint::Page
        }
    }

    fn on_sheet_event(&mut self, ev: ActionEvent, rows: SheetRows, clock: &mut LoadingClock) -> (p:
        Paint)
        requires
            old(self).wf(),
            old(self).contents.shown(rows),
        ensures
            ({
                let want = pressed_in_sheet(*old(self), ev, rows);
                *final(self) == want.app && p == want.paint && want.to == Transition::Stay
            }),
    {
        match ev {
            ActionEvent::Press(Action::Back) => {
                self.state = State::Ready;
                Paint::Page
            },
            ActionEvent::Press(Action::Menu) => {
                self.state = State::Ready;
                Paint::Page
            },
            ActionEvent::Press(Action::Next) => self.sheet_step(true, rows),
            ActionEvent::Repeat(Action::Next) => self.sheet_step(true, rows),
            ActionEvent::Press(Action::Prev) => self.sheet_step(false, rows),
            ActionEvent::Repeat(Action::Prev) => self.sheet_step(false, rows),
            ActionEvent::Press(Action::NextJump) => self.sheet_resize(true, rows),
            ActionEvent::Press(Action::PrevJump) => self.sheet_resize(false, rows),
            ActionEvent::Press(Action::Select) => self.sheet_enter(clock),
            _ => Paint::Nothing,
        }
    }

    /// A button was pressed, held or released.
    pub fn on_event(
        &mut self,
        ev: ActionEvent,
        rows: SheetRows,
        now: u32,
        clock: &mut LoadingClock,
    ) -> (r: (Transition, Paint))
        requires
            old(self).wf(),
            old(self).state == State::ShowToc ==> old(self).contents.shown(rows),
        ensures
            ({
                let want = pressed(*old(self), ev, rows, now);
                *final(self) == want.app && r == (want.to, want.paint)
            }),
    {
        if self.state == State::ShowToc {
            let p: Paint = self.on_sheet_event(ev, rows, clock);
            return (Transition::Stay, p);
        }
        match ev {
            ActionEvent::Press(a) => {
                if a == Action::Back {
                    return (Transition::Pop, Paint::Nothing);
                }
                self.on_turn(a, clock);
                (Transition::Stay, Paint::Nothing)
            },
            ActionEvent::Repeat(a) => {
                self.on_turn(a, clock);
                (Transition::Stay, Paint::Nothing)
            },
            ActionEvent::LongPress(a) => self.on_long_press(a, now, clock),
            ActionEvent::Release(a) => {
                if (a == Action::Next || a == Action::Prev) && self.show_position {
                    self.show_position = false;
                    (Transition::Stay, Paint::Overlay)
                } else {
                    (Transition::Stay, Paint::Nothing)
                }
            },
        }
    }

    fn on_long_press(&mut self, a: Action, now: u32, clock: &mut LoadingClock) -> (r: (
        Transition,
        Paint,
    ))
        requires
            old(self).wf(),
            old(self).state != State::ShowToc,
        ensures
            ({
                let want = pressed_on_page(*old(self), ActionEvent::LongPress(a), now);
                *final(self) == want.app && r == (want.to, want.paint)
            }),
    {
        match a {
            Action::Back => (Transition::Home, Paint::Nothing),
            Action::Next => {
                if self.state == State::Ready {
                    self.show_position = true;
                }
                let went: bool = self.page_forward();
                self.moved(went, clock);
                (Transition::Stay, Paint::Nothing)
            },
            Action::Prev => {
                if self.state == State::Ready {
                    self.show_position = true;
                }
                let went: bool = self.page_backward();
                self.moved(went, clock);
                (Transition::Stay, Paint::Nothing)
            },
            Action::NextJump => {
                let last: usize = self.pg.offsets.len() - 1;
                self.leap(last, now)
            },
            Action::PrevJump => self.leap(0, now),
            _ => (Transition::Stay, Paint::Nothing),
        }
    }

    /// Go to a page of the chapter at once.
    fn leap(&mut self, page: usize, now: u32) -> (r: (Transition, Paint))
        ensures
            ({
                let want = if old(self).state == State::Ready {
                    leaped(*old(self), page as int, now)
                } else {
                    unmoved(*old(self))
                };
                *final(self) == want.app && r == (want.to, want.paint)
            }),
    {
        proof {
            reveal(leaped);
        }
        if self.state != State::Ready {
            return (Transition::Stay, Paint::Nothing);
        }
        self.pg.page = page;
        self.log.commit_position_change(PendingPositionChange::Jump, now);
        (Transition::Stay, Paint::Page)
    }

    fn on_turn(&mut self, a: Action, clock: &mut LoadingClock)
        requires
            old(self).wf(),
        ensures
            *final(self) == (match a {
                Action::Next => moved(turned_forward(*old(self))).app,
                Action::Prev => moved(turned_backward(*old(self))).app,
                Action::NextJump => moved(jumped_forward(*old(self))).app,
                Action::PrevJump => moved(jumped_backward(*old(self))).app,
                _ => *old(self),
            }),
    {
        let went: bool = match a {
            Action::Next => self.page_forward(),
            Action::Prev => self.page_backward(),
            Action::NextJump => self.jump_forward(),
            Action::PrevJump => self.jump_backward(),
            _ => false,
        };
        self.moved(went, clock);
    }
}

// ── the quick menu ────────────────────────────────────────────────

pub const QA_FONT_SIZE: u8 = 1;

pub const QA_PREV_CHAPTER: u8 = 3;

pub const QA_NEXT_CHAPTER: u8 = 4;

pub const QA_TOC: u8 = 5;

/// What a row of the quick menu does.
pub open spec fn triggered(a: ReaderApp, id: u8, rows: SheetRows) -> Pressed {
    if id == QA_PREV_CHAPTER && has_prev_chapter(a) {
        moved((to_chapter(a, a.chapter - 1, PendingPositionChange::Jump, false), true))
    } else if id == QA_NEXT_CHAPTER && has_next_chapter(a) {
        moved((to_chapter(a, a.chapter + 1, PendingPositionChange::Jump, false), true))
    } else if id == QA_TOC && a.book.is_epub && a.contents.toc@.len() > 0 {
        painted(
            ReaderApp {
                contents: contents::opened(a.contents, a.chapter, rows),
                state: State::ShowToc,
                ..a
            },
            Paint::Page,
        )
    } else {
        unmoved(a)
    }
}

impl ReaderApp {
    /// A row of the quick menu was chosen.
    pub fn on_quick_trigger(&mut self, id: u8, rows: SheetRows, clock: &mut LoadingClock) -> (p: Paint)
        requires
            old(self).wf(),
        ensures
            ({
                let want = triggered(*old(self), id, rows);
                *final(self) == want.app && p == want.paint
            }),
    {
        if id == QA_PREV_CHAPTER {
            if self.book.is_epub && self.chapter > 0 {
                self.chapter = self.chapter - 1;
                self.pending_change = Some(PendingPositionChange::Jump);
                self.goto_last_page = false;
                self.state = State::NeedIndex;
                self.begin_loading(LoadingReason::Chapter, clock);
            }
            Paint::Nothing
        } else if id == QA_NEXT_CHAPTER {
            if self.book.is_epub && self.chapter as usize + 1 < self.book.spine_len {
                self.chapter = self.chapter + 1;
                self.pending_change = Some(PendingPositionChange::Jump);
                self.goto_last_page = false;
                self.state = State::NeedIndex;
                self.begin_loading(LoadingReason::Chapter, clock);
            }
            Paint::Nothing
        } else if id == QA_TOC {
            self.open_contents(rows)
        } else {
            Paint::Nothing
        }
    }
}

// ── what holds of every button ────────────────────────────────────

proof fn lemma_turns_stay(a: ReaderApp)
    requires
        a.wf(),
        a.in_book(),
    ensures
        turned_forward(a).0.wf() && turned_forward(a).0.in_book(),
        turned_backward(a).0.wf() && turned_backward(a).0.in_book(),
{
    reveal(turned_forward);
    reveal(turned_backward);
}

proof fn lemma_jumps_stay(a: ReaderApp)
    requires
        a.wf(),
        a.in_book(),
    ensures
        jumped_forward(a).0.wf() && jumped_forward(a).0.in_book(),
        jumped_backward(a).0.wf() && jumped_backward(a).0.in_book(),
{
    reveal(jumped_forward);
    reveal(jumped_backward);
}

proof fn lemma_leaps_stay(a: ReaderApp, page: int, now: u32)
    requires
        a.wf(),
        a.in_book(),
        0 <= page < a.pg.total(),
    ensures
        leaped(a, page, now).app.wf() && leaped(a, page, now).app.in_book(),
{
    reveal(leaped);
}

proof fn lemma_sheet_stays(a: ReaderApp, forward: bool, rows: SheetRows)
    requires
        a.wf(),
        a.in_book(),
        a.contents.resolved(a.book.spine_len as int),
        a.contents.shown(rows),
    ensures
        sheet_moved(a, forward, rows).app.wf() && sheet_moved(a, forward, rows).app.in_book(),
        sheet_resized(a, forward, rows).app.wf() && sheet_resized(a, forward, rows).app.in_book(),
        entered(a).app.wf() && entered(a).app.in_book(),
{
    reveal(sheet_moved);
    reveal(sheet_resized);
    reveal(entered);
}

proof fn lemma_moved_stays(r: (ReaderApp, bool))
    requires
        r.0.wf(),
        r.0.in_book(),
    ensures
        moved(r).app.wf(),
        moved(r).app.in_book(),
{
}

/// Whatever button is pressed, the page is one of the known pages and the
/// chapter one of the book's.
pub proof fn law_buttons_stay_in_the_book(
    a: ReaderApp,
    ev: ActionEvent,
    rows: SheetRows,
    now: u32,
)
    requires
        a.wf(),
        a.in_book(),
        a.contents.resolved(a.book.spine_len as int),
        a.state == State::ShowToc ==> a.contents.shown(rows),
    ensures
        pressed(a, ev, rows, now).app.wf(),
        pressed(a, ev, rows, now).app.in_book(),
{
    if a.state == State::ShowToc {
        lemma_sheet_stays(a, true, rows);
        lemma_sheet_stays(a, false, rows);
    } else {
        let b = with_overlay(a);
        lemma_turns_stay(a);
        lemma_turns_stay(b);
        lemma_jumps_stay(a);
        lemma_leaps_stay(a, a.pg.total() - 1, now);
        lemma_leaps_stay(a, 0, now);
        lemma_moved_stays(turned_forward(a));
        lemma_moved_stays(turned_backward(a));
        lemma_moved_stays(turned_forward(b));
        lemma_moved_stays(turned_backward(b));
        lemma_moved_stays(jumped_forward(a));
        lemma_moved_stays(jumped_backward(a));
    }
}

/// Turning back undoes turning forward within a chapter, and the other way
/// round.
pub proof fn law_turning_back_undoes_turning_forward(a: ReaderApp)
    requires
        a.wf(),
        a.state == State::Ready,
    ensures
        a.pg.page + 1 < a.pg.total() ==> turned_backward(
            ReaderApp { state: State::Ready, ..turned_forward(a).0 },
        ).0.pg == a.pg,
        a.pg.page > 0 ==> turned_forward(
            ReaderApp { state: State::Ready, ..turned_backward(a).0 },
        ).0.pg == a.pg,
{
    reveal(turned_forward);
    reveal(turned_backward);
}

/// While a page is being loaded no page is turned.
pub proof fn law_turns_wait_for_the_page(a: ReaderApp)
    requires
        a.state != State::Ready,
    ensures
        turned_forward(a) == (a, false),
        turned_backward(a) == (a, false),
        jumped_forward(a) == (a, false),
        jumped_backward(a) == (a, false),
{
    reveal(turned_forward);
    reveal(turned_backward);
    reveal(jumped_forward);
    reveal(jumped_backward);
}

} // verus!
