//! What holds of the applications as a whole: who gets a button, what a change
//! of application entails, and what comes back after sleep.

use vstd::prelude::*;

use crate::home::HomeApp;
use crate::manager::{
    self,
    AppManager,
    Change,
    Enter,
    FrameWishes,
    GrayscaleMode,
    HDir,
    Leave,
    NavEvent,
    QuickMenuResult,
    Repaint,
    Route,
    Trigger,
};
use crate::nav::{Action, ActionEvent, AppId, Modal, Tab, Transition};
use crate::reader::state::ReaderApp;
use crate::sleep::{self, NavCodes};

verus! {

// ── buttons ──────────────────────────────────────────────────────

/// The button of an event.
pub open spec fn button_of(ev: ActionEvent) -> Action {
    match ev {
        ActionEvent::Press(a) => a,
        ActionEvent::LongPress(a) => a,
        ActionEvent::Repeat(a) => a,
        ActionEvent::Release(a) => a,
    }
}

/// The jump buttons move along the tabs while they are pressed or repeat, the
/// forward one to the right. Held or released they do not, nor does any other.
pub proof fn law_jump_buttons_move_along(ev: ActionEvent)
    ensures
        ({
            let down = ev is Press || ev is Repeat;
            &&& down && button_of(ev) == Action::NextJump ==> manager::direction_of(ev) == Some(
                HDir::Right,
            )
            &&& down && button_of(ev) == Action::PrevJump ==> manager::direction_of(ev) == Some(
                HDir::Left,
            )
            &&& !down ==> manager::direction_of(ev) is None
            &&& button_of(ev) != Action::NextJump && button_of(ev) != Action::PrevJump
                ==> manager::direction_of(ev) is None
        }),
{
}

/// An open menu gets every event. The menu button opens it, unless the
/// application takes that button. Moves along the tabs go there while nothing
/// is open over them, and everything else goes to the application.
pub proof fn law_events_have_one_way(ev: ActionEvent, captures: bool, modal: bool)
    ensures
        manager::routed(ev, true, captures, modal) == Route::QuickMenu,
        ev == ActionEvent::Press(Action::Menu) ==> manager::routed(ev, false, true, modal)
            == Route::MenuToApp && manager::routed(ev, false, false, modal) == Route::OpenMenu,
        ev != ActionEvent::Press(Action::Menu) ==> manager::routed(ev, false, captures, true)
            == Route::App,
        ev == ActionEvent::Press(Action::NextJump) || ev == ActionEvent::Repeat(Action::NextJump)
            ==> manager::routed(ev, false, captures, false) == Route::Along(HDir::Right),
        ev == ActionEvent::Press(Action::PrevJump) || ev == ActionEvent::Repeat(Action::PrevJump)
            ==> manager::routed(ev, false, captures, false) == Route::Along(HDir::Left),
        ev != ActionEvent::Press(Action::Menu) && (ev is LongPress || ev is Release || (button_of(
            ev,
        ) != Action::NextJump && button_of(ev) != Action::PrevJump)) ==> manager::routed(
            ev,
            false,
            captures,
            modal,
        ) == Route::App,
{
}

/// The menu is given what is pressed or repeats, and nothing that is held or
/// released.
pub proof fn law_menus_take_presses(a: Action)
    ensures
        manager::menu_button(ActionEvent::Press(a)) == Some(a),
        manager::menu_button(ActionEvent::Repeat(a)) == Some(a),
        manager::menu_button(ActionEvent::LongPress(a)) is None,
        manager::menu_button(ActionEvent::Release(a)) is None,
{
}

/// A button that the menu keeps leaves it open, and paints it if it changed.
/// Every other answer closes it and has one effect: to close, to redraw, to go
/// home, to sleep, or to hand a row to its owner. The rows that home lends go
/// back to home unless home is active itself.
pub proof fn law_menu_answers_have_one_effect(dirty: bool, active: AppId, id: u8)
    ensures
        ({
            let kept = manager::menu_effect(QuickMenuResult::Consumed, dirty, active);
            let closed = manager::menu_effect(QuickMenuResult::Close, dirty, active);
            let fresh = manager::menu_effect(QuickMenuResult::RefreshScreen, dirty, active);
            let home = manager::menu_effect(QuickMenuResult::GoHome, dirty, active);
            let sleeps = manager::menu_effect(QuickMenuResult::Sleep, dirty, active);
            let row = manager::menu_effect(QuickMenuResult::AppTrigger(id), dirty, active);
            &&& !kept.close && kept.paint == dirty
            &&& closed.close && fresh.close && home.close && sleeps.close && row.close
            &&& !closed.paint && !fresh.paint && !home.paint && !sleeps.paint && !row.paint
            &&& fresh.full_redraw && !kept.full_redraw && !closed.full_redraw && !home.full_redraw
                && !sleeps.full_redraw && !row.full_redraw
            &&& sleeps.sleep && !kept.sleep && !closed.sleep && !fresh.sleep && !home.sleep
                && !row.sleep
            &&& home.to == Transition::Home && kept.to == Transition::Stay && closed.to
                == Transition::Stay && fresh.to == Transition::Stay && sleeps.to
                == Transition::Stay && row.to == Transition::Stay
            &&& kept.trigger == Trigger::Nobody && closed.trigger == Trigger::Nobody
                && fresh.trigger == Trigger::Nobody && home.trigger == Trigger::Nobody
                && sleeps.trigger == Trigger::Nobody
            &&& active == AppId::Home || (id != 225 && id != 226) ==> row.trigger
                == Trigger::Active(id)
            &&& active != AppId::Home && (id == 225 || id == 226) ==> row.trigger == Trigger::Home(
                id,
            )
        }),
{
}

/// The menu holds no more rows than it has room for. All rows of home come
/// first where they are borrowed, and then as many of the application's own as
/// there is room for.
pub proof fn law_menus_hold_what_fits(
    m: AppManager,
    has_recent: bool,
    home_rows: usize,
    own_rows: usize,
    most: usize,
)
    requires
        m.wf(),
        home_rows <= most,
    ensures
        ({
            let p = manager::menu_plan(m, has_recent, home_rows, own_rows, most);
            let active = m.stack@[m.stack@.len() - 1];
            &&& active == AppId::Home || active == AppId::Reader || !has_recent
                ==> !p.borrow_home && p.from_home == 0
            &&& active != AppId::Home && active != AppId::Reader && has_recent ==> p.borrow_home
                && p.from_home == home_rows
            &&& p.from_home + p.from_own <= most
            &&& p.from_own < own_rows ==> p.from_home + p.from_own == most
            &&& p.from_own <= own_rows
            &&& p.on_home <==> active == AppId::Home
        }),
{
}

// ── changes of application ───────────────────────────────────────

/// Whatever is left is saved first, unless it is the upload screen, which runs
/// by itself and is neither left nor entered. What stays on the stack is
/// suspended, what does not has ended; what was on it goes on, what was not
/// starts.
pub proof fn law_changes_save_before_they_leave(nav: NavEvent)
    ensures
        ({
            let c: Change = manager::change_of(nav);
            &&& c.save_and_flush <==> c.leave != Leave::Nobody
            &&& c.leave == Leave::Nobody <==> nav.from == AppId::Upload
            &&& c.enter == Enter::Nobody <==> nav.to == AppId::Upload
            &&& nav.from != AppId::Upload && nav.suspend ==> c.leave == Leave::Suspend
            &&& nav.from != AppId::Upload && !nav.suspend ==> c.leave == Leave::Exit
            &&& nav.to != AppId::Upload && nav.resume ==> c.enter == Enter::Resume
            &&& nav.to != AppId::Upload && !nav.resume ==> c.enter == Enter::Enter
            &&& nav.resume ==> c.repaint == Repaint::Screen
            &&& !nav.resume && nav.to == AppId::Reader ==> c.repaint == Repaint::Nothing
            &&& !nav.resume && nav.to != AppId::Reader ==> c.repaint == Repaint::Full
        }),
{
}

/// Under an open book the tab is the topmost one that is open, whatever lies
/// between that is none.
pub proof fn law_books_keep_their_tab(stack: Seq<AppId>, k: int)
    requires
        0 <= k < stack.len() - 1,
        stack.last() == AppId::Reader,
        stack[k] != AppId::Reader && stack[k] != AppId::Files,
        forall|i: int|
            k < i < stack.len() ==> #[trigger] stack[i] == AppId::Reader || stack[i]
                == AppId::Files,
    ensures
        manager::nav_of(stack).1 == Some(Modal::Reader),
        manager::tab_of(stack[k]) == Some(manager::nav_of(stack).0),
{
    lemma_tab_below(stack, stack.len() - 1, k);
}

proof fn lemma_tab_below(stack: Seq<AppId>, n: int, k: int)
    requires
        0 <= k < n <= stack.len(),
        stack[k] != AppId::Reader && stack[k] != AppId::Files,
        forall|i: int|
            k < i < n ==> #[trigger] stack[i] == AppId::Reader || stack[i] == AppId::Files,
    ensures
        manager::tab_of(stack[k]) == Some(manager::tab_below(stack, n)),
    decreases n,
{
    if n - 1 > k {
        assert(stack[n - 1] == AppId::Reader || stack[n - 1] == AppId::Files);
        lemma_tab_below(stack, n - 1, k);
    }
}

/// A book over nothing that is a tab lies over home.
pub proof fn law_books_without_a_tab_lie_over_home(stack: Seq<AppId>, n: int)
    requires
        0 <= n <= stack.len(),
        forall|i: int|
            0 <= i < n ==> #[trigger] stack[i] == AppId::Reader || stack[i] == AppId::Files,
    ensures
        manager::tab_below(stack, n) == Tab::Home,
    decreases n,
{
    if n > 0 {
        assert(stack[n - 1] == AppId::Reader || stack[n - 1] == AppId::Files);
        law_books_without_a_tab_lie_over_home(stack, n - 1);
    }
}

/// An active tab is the tab, with nothing over it.
pub proof fn law_active_tabs(stack: Seq<AppId>)
    requires
        stack.len() > 0,
    ensures
        stack.last() == AppId::Home || stack.last() == AppId::Files ==> manager::nav_of(stack) == (
            Tab::Home,
            None::<Modal>,
        ),
        stack.last() == AppId::Library ==> manager::nav_of(stack) == (Tab::Library, None::<Modal>),
        stack.last() == AppId::Stats ==> manager::nav_of(stack) == (Tab::Stats, None::<Modal>),
        stack.last() == AppId::Settings ==> manager::nav_of(stack) == (
            Tab::Settings,
            None::<Modal>,
        ),
        stack.last() == AppId::Upload ==> manager::nav_of(stack) == (Tab::Upload, None::<Modal>),
{
}

/// The upload screen goes back to the tab that it was opened from, whatever
/// changed in between, or to the one that was chosen in it.
pub proof fn law_uploads_go_back(m: AppManager, stack: Vec<AppId>, nav: NavEvent, chosen: Tab)
    requires
        nav.to == AppId::Upload,
        nav.from != AppId::Reader && nav.from != AppId::Files,
    ensures
        m.changed_to(stack, nav).upload_goes_to(None) == nav.from,
        m.upload_goes_to(Some(chosen)) == manager::app_of(chosen),
        forall|other: Vec<AppId>, later: NavEvent|
            later.to != AppId::Upload ==> (#[trigger] m.changed_to(stack, nav).changed_to(
                other,
                later,
            )).upload_goes_to(None) == nav.from,
{
}

/// A change of application leaves the menu, the battery and a request to sleep
/// alone.
pub proof fn law_changes_leave_the_rest_alone(m: AppManager, stack: Vec<AppId>, nav: NavEvent)
    requires
        stack@.len() > 0,
    ensures
        ({
            let n = m.changed_to(stack, nav);
            &&& n.wf()
            &&& n.stack == stack
            &&& n.menu_open == m.menu_open
            &&& n.battery_pct == m.battery_pct
            &&& n.sleep_requested == m.sleep_requested
        }),
{
}

/// Gray levels are painted on the reader's page alone: if it wants them and no
/// menu lies over it.
pub proof fn law_gray_is_for_pages(m: AppManager, wants: bool)
    requires
        m.wf(),
    ensures
        m.gray_levels(wants) == GrayscaleMode::Immediate <==> wants && !m.menu_open
            && m.stack@[m.stack@.len() - 1] == AppId::Reader,
{
}

/// Something that loads is told once: by the reader itself where it has a
/// screen for it, or else by the indicator. The sheet of the caches is the
/// settings' own, and buttons are drawn where neither tabs nor the
/// application's wish stand against it.
pub proof fn law_frames_tell_loading_once(
    m: AppManager,
    wishes: FrameWishes,
    up: bool,
    reader_loading: bool,
    sheet: bool,
)
    requires
        m.wf(),
    ensures
        ({
            let l = m.layers(wishes, up, reader_loading, sheet);
            let active = m.stack@[m.stack@.len() - 1];
            &&& l.loading ==> up
            &&& active == AppId::Reader && reader_loading ==> !l.loading
            &&& active != AppId::Reader || !reader_loading ==> l.loading == up
            &&& active != AppId::Settings ==> !l.cache_sheet
            &&& active == AppId::Settings ==> l.cache_sheet == sheet
            &&& wishes.show_tabs || wishes.hide_buttons ==> !l.buttons
            &&& !wishes.show_tabs && !wishes.hide_buttons ==> l.buttons
            &&& l.menu == m.menu_open && l.top_bar == wishes.show_top
        }),
{
}

/// Of several errors the first one is told; there is none only where nobody
/// had one.
pub proof fn law_the_first_error_is_told(errors: Seq<Option<u16>>, k: int)
    requires
        0 <= k <= errors.len(),
        forall|i: int| 0 <= i < k ==> (#[trigger] errors[i]) is None,
    ensures
        k < errors.len() && errors[k] is Some ==> manager::first_error(errors, 0) == errors[k],
        k == errors.len() ==> manager::first_error(errors, 0) is None,
{
    lemma_first_error(errors, 0, k);
}

proof fn lemma_first_error(errors: Seq<Option<u16>>, j: int, k: int)
    requires
        0 <= j <= k <= errors.len(),
        forall|i: int| j <= i < k ==> (#[trigger] errors[i]) is None,
    ensures
        k < errors.len() && errors[k] is Some ==> manager::first_error(errors, j) == errors[k],
        k == errors.len() ==> manager::first_error(errors, j) is None,
    decreases k - j,
{
    if j < k {
        lemma_first_error(errors, j + 1, k);
    }
}

/// Every application is dispatched to once, save the upload screen and the old
/// file list.
pub proof fn law_each_application_is_dispatched_to_once(id: AppId)
    ensures
        manager::dispatched().contains(id) <==> id != AppId::Upload && id != AppId::Files,
        manager::dispatched().no_duplicates(),
{
    let d = manager::dispatched();
    assert(d[0] == AppId::Home && d[1] == AppId::Library && d[2] == AppId::Reader && d[3]
        == AppId::Settings && d[4] == AppId::Stats);
}

// ── sleep ────────────────────────────────────────────────────────

/// Codes are kept on a medium that outlives the program, so they stay.
pub proof fn law_codes_stay(c: u8)
    ensures
        sleep::code_of(AppId::Home) == 0,
        sleep::code_of(AppId::Library) == 1,
        sleep::code_of(AppId::Files) == 2,
        sleep::code_of(AppId::Reader) == 3,
        sleep::code_of(AppId::Settings) == 4,
        sleep::code_of(AppId::Stats) == 5,
        sleep::code_of(AppId::Upload) == 6,
        c <= 6 ==> sleep::code_of(sleep::app_with_code(c)) == c,
        c > 6 ==> sleep::app_with_code(c) == AppId::Home,
{
}

/// A session wakes up if it holds one to four applications. It is painted in
/// full, unless a book is on top, whose loading screen is prepared instead.
pub proof fn law_sessions_wake_up(nav: NavCodes)
    ensures
        sleep::wake_of(nav).restored <==> 1 <= nav.depth <= 4,
        sleep::wake_of(nav).restored <==> sleep::wake_of(nav).prepare_loading || sleep::wake_of(
            nav,
        ).full_redraw,
        !(sleep::wake_of(nav).prepare_loading && sleep::wake_of(nav).full_redraw),
        nav.depth == 1 ==> sleep::wake_of(nav).prepare_loading == (nav.nav0 == 3),
        nav.depth == 2 ==> sleep::wake_of(nav).prepare_loading == (nav.nav1 == 3),
        nav.depth == 3 ==> sleep::wake_of(nav).prepare_loading == (nav.nav2 == 3),
        nav.depth == 4 ==> sleep::wake_of(nav).prepare_loading == (nav.nav3 == 3),
{
    if 1 <= nav.depth <= 4 {
        assert(nav.stack().last() == sleep::app_with_code(nav.code_at(nav.depth - 1)));
    }
}

/// What is kept of a stack: how deep it is, and its applications from the
/// bottom up. Places that it does not reach are zero.
pub proof fn law_stacks_are_kept_from_the_bottom(stack: Seq<AppId>)
    requires
        stack.len() <= 4,
    ensures
        sleep::nav_codes(stack).depth == stack.len(),
        stack.len() > 0 ==> sleep::nav_codes(stack).nav0 == sleep::code_of(stack[0]),
        stack.len() > 1 ==> sleep::nav_codes(stack).nav1 == sleep::code_of(stack[1]),
        stack.len() > 2 ==> sleep::nav_codes(stack).nav2 == sleep::code_of(stack[2]),
        stack.len() > 3 ==> sleep::nav_codes(stack).nav3 == sleep::code_of(stack[3]),
        stack.len() <= 1 ==> sleep::nav_codes(stack).nav1 == 0,
        stack.len() <= 2 ==> sleep::nav_codes(stack).nav2 == 0,
        stack.len() <= 3 ==> sleep::nav_codes(stack).nav3 == 0,
{
}

/// Where the reader and the home screen were is kept as it is, as far as it
/// fits the room that is kept for it.
pub proof fn law_places_are_kept(r: ReaderApp, h: HomeApp)
    requires
        r.wf(),
    ensures
        sleep::reader_place(r).is_epub == r.book.is_epub,
        sleep::reader_place(r).chapter == r.chapter,
        r.pg.page < 65536 ==> sleep::reader_place(r).page == r.pg.page,
        sleep::reader_place(r).byte_offset == r.pg.offsets@[r.pg.page as int],
        sleep::reader_place(r).font_size == r.look.chosen.font_size_idx,
        h.selected < 256 ==> sleep::home_place(h).selected == h.selected,
{
}

/// The home screen wakes up with its row selected, of four at most, and loads
/// its list again.
pub proof fn law_home_wakes_up(h: HomeApp, selected: u8, battery: u8)
    ensures
        sleep::home_after(h, selected, battery).needs_load,
        sleep::home_after(h, selected, battery).bat_pct == battery,
        selected < 4 ==> sleep::home_after(h, selected, battery).selected == selected,
        selected >= 4 ==> sleep::home_after(h, selected, battery).selected == 3,
{
}

} // verus!
