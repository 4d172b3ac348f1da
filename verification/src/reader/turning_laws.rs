//! What turning, jumping, the buttons and the contents sheet are for.

use crate::nav::{Action, ActionEvent, Transition};
use crate::reader::contents;
use crate::reader::contents::SheetRows;
use crate::reader::persist;
use crate::reader::state::{
    Contents, LoadingReason, Paint, PendingPositionChange, ReaderApp, State, TocEntry,
};
use crate::reader::turning;
use vstd::prelude::*;

verus! {

// ── turning ───────────────────────────────────────────────────────

/// A page turn goes to the very next page that is known, and one back to the one
/// before it. The page is then loaded, in the same chapter of the same text.
pub proof fn law_a_turn_is_one_page(a: ReaderApp)
    requires
        a.wf(),
        a.state == State::Ready,
    ensures
        a.pg.page + 1 < a.pg.offsets@.len() ==> ({
            let (b, went) = turning::turned_forward(a);
            &&& went
            &&& b.pg.page == a.pg.page + 1
            &&& b.pg.offsets == a.pg.offsets
            &&& b.chapter == a.chapter
            &&& b.state == State::NeedPage
            &&& b.pending_change == Some(PendingPositionChange::PageTurn)
        }),
        a.pg.page >= 1 ==> ({
            let (b, went) = turning::turned_backward(a);
            &&& went
            &&& b.pg.page == a.pg.page - 1
            &&& b.pg.offsets == a.pg.offsets
            &&& b.chapter == a.chapter
            &&& b.state == State::NeedPage
            &&& b.pending_change == Some(PendingPositionChange::PageTurn)
        }),
{
    reveal(turning::turned_forward);
    reveal(turning::turned_backward);
}

/// Behind the last page of a chapter comes the first page of the next one, and
/// before the first page the last page of the chapter before it.
pub proof fn law_turns_cross_chapters(a: ReaderApp)
    requires
        a.wf(),
        a.state == State::Ready,
        a.book.is_epub,
    ensures
        a.pg.page + 1 == a.pg.offsets@.len() && a.pg.fully_indexed && a.chapter + 1
            < a.book.spine_len ==> ({
            let (b, went) = turning::turned_forward(a);
            &&& went
            &&& b.chapter == a.chapter + 1
            &&& !b.goto_last_page
            &&& b.state == State::NeedIndex
            &&& b.pending_change == Some(PendingPositionChange::PageTurn)
        }),
        a.pg.page == 0 && a.chapter >= 1 ==> ({
            let (b, went) = turning::turned_backward(a);
            &&& went
            &&& b.chapter == a.chapter - 1
            &&& b.goto_last_page
            &&& b.state == State::NeedIndex
            &&& b.pending_change == Some(PendingPositionChange::PageTurn)
        }),
{
    reveal(turning::turned_forward);
    reveal(turning::turned_backward);
}

/// Nothing moves at the ends: at the last page of a text or of the last chapter,
/// at a last page that is not known to be the last, and at the very first page.
pub proof fn law_turns_stop_at_the_ends(a: ReaderApp)
    requires
        a.wf(),
        a.state == State::Ready,
    ensures
        a.pg.page + 1 == a.pg.offsets@.len() && (!a.book.is_epub || !a.pg.fully_indexed || a.chapter
            + 1 >= a.book.spine_len) ==> turning::turned_forward(a) == (a, false),
        a.pg.page == 0 && (!a.book.is_epub || a.chapter == 0) ==> turning::turned_backward(a) == (
            a,
            false,
        ),
        !a.book.is_epub && a.pg.page + 1 == a.pg.offsets@.len() ==> turning::jumped_forward(a) == (
            a,
            false,
        ),
        !a.book.is_epub && a.pg.page == 0 ==> turning::jumped_backward(a) == (a, false),
        a.book.is_epub && a.chapter + 1 >= a.book.spine_len ==> turning::jumped_forward(a) == (
            a,
            false,
        ),
        a.book.is_epub && a.chapter == 0 ==> turning::jumped_backward(a) == (a, false),
{
    reveal(turning::turned_forward);
    reveal(turning::turned_backward);
    reveal(turning::jumped_forward);
    reveal(turning::jumped_backward);
}

/// A jump in a text file is ten pages, or as far as there are pages.
pub proof fn law_jumps_in_a_text_are_ten_pages(a: ReaderApp)
    requires
        a.wf(),
        a.state == State::Ready,
        !a.book.is_epub,
    ensures
        ({
            let b = turning::jumped_backward(a).0;
            &&& a.pg.page >= 10 ==> b.pg.page == a.pg.page - 10
            &&& a.pg.page < 10 ==> b.pg.page == 0
            &&& b.pg.offsets == a.pg.offsets
            &&& a.pg.page > 0 ==> b.state == State::NeedPage && b.pending_change == Some(
                PendingPositionChange::Jump,
            ) && turning::jumped_backward(a).1
        }),
        ({
            let b = turning::jumped_forward(a).0;
            &&& a.pg.page + 10 < a.pg.offsets@.len() ==> b.pg.page == a.pg.page + 10
            &&& a.pg.page + 10 >= a.pg.offsets@.len() ==> b.pg.page == a.pg.offsets@.len() - 1
            &&& b.pg.offsets == a.pg.offsets
            &&& a.pg.page + 1 < a.pg.offsets@.len() ==> b.state == State::NeedPage
                && b.pending_change == Some(PendingPositionChange::Jump)
                && turning::jumped_forward(a).1
        }),
{
    reveal(turning::jumped_forward);
    reveal(turning::jumped_backward);
}

/// A jump back undoes a jump forward in a text, and the other way round.
pub proof fn law_jumps_undo_each_other(a: ReaderApp)
    requires
        a.wf(),
        a.state == State::Ready,
        !a.book.is_epub,
    ensures
        a.pg.page + 10 < a.pg.offsets@.len() ==> turning::jumped_backward(
            ReaderApp { state: State::Ready, ..turning::jumped_forward(a).0 },
        ).0.pg == a.pg,
        a.pg.page >= 10 ==> turning::jumped_forward(
            ReaderApp { state: State::Ready, ..turning::jumped_backward(a).0 },
        ).0.pg == a.pg,
{
    reveal(turning::jumped_forward);
    reveal(turning::jumped_backward);
}

/// A jump in a book of chapters goes to the first page of the next chapter, or of
/// the one before.
pub proof fn law_jumps_in_a_book_are_chapters(a: ReaderApp)
    requires
        a.wf(),
        a.state == State::Ready,
        a.book.is_epub,
    ensures
        a.chapter + 1 < a.book.spine_len ==> ({
            let (b, went) = turning::jumped_forward(a);
            went && b.chapter == a.chapter + 1 && !b.goto_last_page && b.state == State::NeedIndex
                && b.pending_change == Some(PendingPositionChange::Jump)
        }),
        a.chapter >= 1 ==> ({
            let (b, went) = turning::jumped_backward(a);
            went && b.chapter == a.chapter - 1 && !b.goto_last_page && b.state == State::NeedIndex
                && b.pending_change == Some(PendingPositionChange::Jump)
        }),
{
    reveal(turning::jumped_forward);
    reveal(turning::jumped_backward);
}

// ── buttons ───────────────────────────────────────────────────────

/// The page buttons turn and the jump buttons jump, pressed or held down; what
/// moved is then loaded, as an episode that has painted nothing.
pub proof fn law_page_buttons_turn(a: ReaderApp, rows: SheetRows, now: u32, held: bool)
    requires
        a.wf(),
        a.state == State::Ready,
        !a.book.is_epub,
    ensures
        ({
            let press = |b: Action|
                turning::pressed(
                    a,
                    if held {
                        ActionEvent::Repeat(b)
                    } else {
                        ActionEvent::Press(b)
                    },
                    rows,
                    now,
                );
            let page = a.pg.page;
            let n = a.pg.offsets@.len();
            &&& page + 1 < n ==> press(Action::Next).app.pg.page == page + 1
            &&& page >= 1 ==> press(Action::Prev).app.pg.page == page - 1
            &&& page + 10 < n ==> press(Action::NextJump).app.pg.page == page + 10
            &&& page >= 10 ==> press(Action::PrevJump).app.pg.page == page - 10
            &&& page + 1 < n ==> press(Action::Next).loading && press(
                Action::Next,
            ).app.loading.reason == LoadingReason::Chapter && !press(
                Action::Next,
            ).app.loading.painted
            &&& press(Action::Next).to == Transition::Stay && press(Action::Prev).to
                == Transition::Stay
            &&& press(Action::Next).paint == Paint::Nothing && press(Action::Prev).paint
                == Paint::Nothing
        }),
{
    reveal(turning::turned_forward);
    reveal(turning::turned_backward);
    reveal(turning::jumped_forward);
    reveal(turning::jumped_backward);
}

/// The back button leaves the book; held, it goes home. Neither moves the page.
pub proof fn law_back_leaves_the_book(a: ReaderApp, rows: SheetRows, now: u32)
    requires
        a.state != State::ShowToc,
    ensures
        ({
            let p = turning::pressed(a, ActionEvent::Press(Action::Back), rows, now);
            p.to == Transition::Pop && p.app == a
        }),
        ({
            let p = turning::pressed(a, ActionEvent::LongPress(Action::Back), rows, now);
            p.to == Transition::Home && p.app == a
        }),
{
}

/// A jump button that is held goes to the last or the first page of the chapter
/// at once, and the place is written.
pub proof fn law_held_jumps_go_to_the_ends(a: ReaderApp, rows: SheetRows, now: u32)
    requires
        a.wf(),
        a.state == State::Ready,
    ensures
        ({
            let p = turning::pressed(a, ActionEvent::LongPress(Action::NextJump), rows, now);
            &&& p.app.pg.page == a.pg.offsets@.len() - 1
            &&& p.app.pg.offsets == a.pg.offsets
            &&& p.app.chapter == a.chapter
            &&& p.app.state == State::Ready
            &&& p.app.log.dirty && p.app.log.recent_dirty
            &&& p.paint == Paint::Page
        }),
        ({
            let p = turning::pressed(a, ActionEvent::LongPress(Action::PrevJump), rows, now);
            &&& p.app.pg.page == 0
            &&& p.app.pg.offsets == a.pg.offsets
            &&& p.app.chapter == a.chapter
            &&& p.app.state == State::Ready
            &&& p.app.log.dirty && p.app.log.recent_dirty
            &&& p.paint == Paint::Page
        }),
{
    reveal(turning::leaped);
    reveal(persist::committed);
}

/// The position overlay is up from when a page button is held until it is let
/// go, and the page goes on turning meanwhile.
pub proof fn law_overlay_while_held(a: ReaderApp, rows: SheetRows, now: u32, next: bool)
    requires
        a.wf(),
        a.state == State::Ready,
    ensures
        ({
            let button = if next {
                Action::Next
            } else {
                Action::Prev
            };
            let held = turning::pressed(a, ActionEvent::LongPress(button), rows, now);
            let tapped = turning::pressed(a, ActionEvent::Press(button), rows, now);
            &&& held.app.show_position
            &&& tapped.app.show_position == a.show_position
            &&& held.app.pg == tapped.app.pg
            &&& held.app.chapter == tapped.app.chapter
        }),
        ({
            let button = if next {
                Action::Next
            } else {
                Action::Prev
            };
            let let_go = turning::pressed(a, ActionEvent::Release(button), rows, now);
            &&& !let_go.app.show_position
            &&& let_go.app.pg == a.pg
            &&& (let_go.paint == Paint::Overlay) == a.show_position
        }),
{
    reveal(turning::turned_forward);
    reveal(turning::turned_backward);
}

/// A book's rows of the quick menu go to the chapter before or behind, and open
/// the contents around the open chapter.
pub proof fn law_menu_rows_move(a: ReaderApp, rows: SheetRows)
    requires
        a.book.is_epub,
    ensures
        a.chapter >= 1 ==> ({
            let b = turning::triggered(a, 3, rows).app;
            b.chapter == a.chapter - 1 && b.state == State::NeedIndex && !b.goto_last_page
        }),
        a.chapter + 1 < a.book.spine_len && a.chapter < 65535 ==> ({
            let b = turning::triggered(a, 4, rows).app;
            b.chapter == a.chapter + 1 && b.state == State::NeedIndex && !b.goto_last_page
        }),
        a.contents.toc@.len() > 0 ==> ({
            let p = turning::triggered(a, 5, rows);
            p.app.state == State::ShowToc && p.app.chapter == a.chapter && p.paint == Paint::Page
        }),
        a.chapter == 0 ==> turning::triggered(a, 3, rows).app == a,
        a.chapter + 1 >= a.book.spine_len ==> turning::triggered(a, 4, rows).app == a,
        a.contents.toc@.len() == 0 ==> turning::triggered(a, 5, rows).app == a,
{
}

// ── the contents sheet ────────────────────────────────────────────

proof fn lemma_entry_first(toc: Seq<TocEntry>, chapter: u16, i: int)
    requires
        0 <= i <= toc.len(),
    ensures
        ({
            let e = contents::entry_of(toc, chapter, i);
            &&& (exists|k: int| i <= k < toc.len() && (#[trigger] toc[k]).spine_idx == chapter) ==> {
                &&& i <= e < toc.len()
                &&& toc[e].spine_idx == chapter
                &&& forall|k: int| i <= k < e ==> (#[trigger] toc[k]).spine_idx != chapter
            }
            &&& !(exists|k: int| i <= k < toc.len() && (#[trigger] toc[k]).spine_idx == chapter)
                ==> e == 0
        }),
    decreases toc.len() - i,
{
    if i < toc.len() && toc[i].spine_idx != chapter {
        lemma_entry_first(toc, chapter, i + 1);
    }
}

/// The contents open with the first entry of the open chapter selected, or with
/// the first of all where it has none; the sheet is then small.
pub proof fn law_contents_open_at_the_chapter(c: Contents, chapter: u16, rows: SheetRows)
    requires
        0 < c.toc@.len() <= usize::MAX,
    ensures
        ({
            let o = contents::opened(c, chapter, rows);
            &&& o.toc == c.toc
            &&& !o.expanded
            &&& (exists|k: int| 0 <= k < c.toc@.len() && (#[trigger] c.toc@[k]).spine_idx == chapter)
                ==> c.toc@[o.selected as int].spine_idx == chapter && forall|k: int|
                0 <= k < o.selected ==> (#[trigger] c.toc@[k]).spine_idx != chapter
            &&& (forall|k: int| 0 <= k < c.toc@.len() ==> (#[trigger] c.toc@[k]).spine_idx
                != chapter) ==> o.selected == 0
        }),
{
    reveal(contents::opened);
    lemma_entry_first(c.toc@, chapter, 0);
}

/// In the contents the page buttons go to the next entry and to the one before,
/// around the ends; each undoes the other.
pub proof fn law_contents_step_by_one(a: ReaderApp, rows: SheetRows, now: u32)
    requires
        a.state == State::ShowToc,
        a.contents.selected < a.contents.toc@.len() <= usize::MAX,
    ensures
        ({
            let n = a.contents.toc@.len();
            let at = a.contents.selected;
            let next = turning::pressed(a, ActionEvent::Press(Action::Next), rows, now).app;
            let prev = turning::pressed(a, ActionEvent::Press(Action::Prev), rows, now).app;
            &&& next.contents.selected == (if at + 1 == n {
                0
            } else {
                at + 1
            })
            &&& prev.contents.selected == (if at == 0 {
                n - 1
            } else {
                at - 1
            })
            &&& next.state == State::ShowToc && prev.state == State::ShowToc
            &&& next.pg == a.pg && prev.pg == a.pg
            &&& next.chapter == a.chapter && prev.chapter == a.chapter
            &&& turning::pressed(
                next,
                ActionEvent::Repeat(Action::Prev),
                rows,
                now,
            ).app.contents.selected == at
        }),
{
    reveal(turning::sheet_moved);
}

/// The selected entry opens its chapter at the first page; one that points
/// nowhere closes the sheet. Back and menu close it and move nothing.
pub proof fn law_contents_open_chapters(a: ReaderApp, rows: SheetRows, now: u32)
    requires
        a.state == State::ShowToc,
        a.contents.selected < a.contents.toc@.len(),
    ensures
        ({
            let at = a.contents.toc@[a.contents.selected as int].spine_idx;
            let p = turning::pressed(a, ActionEvent::Press(Action::Select), rows, now);
            if at == 65535 {
                p.app == (ReaderApp { state: State::Ready, ..a }) && p.paint == Paint::Page
            } else {
                &&& p.app.chapter == at
                &&& p.app.pg.page == 0
                &&& !p.app.goto_last_page
                &&& p.app.state == State::NeedIndex
                &&& p.app.pending_change == Some(PendingPositionChange::Jump)
                &&& p.loading
            }
        }),
        turning::pressed(a, ActionEvent::Press(Action::Back), rows, now).app == (ReaderApp {
            state: State::Ready,
            ..a
        }),
        turning::pressed(a, ActionEvent::Press(Action::Menu), rows, now).app == (ReaderApp {
            state: State::Ready,
            ..a
        }),
        turning::pressed(a, ActionEvent::Press(Action::Back), rows, now).to == Transition::Stay,
{
    reveal(turning::entered);
}

/// The jump buttons grow the sheet and shrink it again, and keep the entry.
pub proof fn law_contents_grow_and_shrink(a: ReaderApp, rows: SheetRows, now: u32)
    requires
        a.state == State::ShowToc,
    ensures
        ({
            let p = turning::pressed(a, ActionEvent::Press(Action::NextJump), rows, now);
            &&& p.app.contents.expanded
            &&& p.app.contents.selected == a.contents.selected
            &&& (p.paint == Paint::Page) == !a.contents.expanded
        }),
        ({
            let p = turning::pressed(a, ActionEvent::Press(Action::PrevJump), rows, now);
            &&& !p.app.contents.expanded
            &&& p.app.contents.selected == a.contents.selected
            &&& (p.paint == Paint::Page) == a.contents.expanded
        }),
{
    reveal(turning::sheet_resized);
}

} // verus!
