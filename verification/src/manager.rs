//! The application manager: which application gets an event, what a change of
//! application entails, and what is kept across sleep.

use crate::home;
use crate::nav::{Action, ActionEvent, AppId, Modal, Tab, Transition};
use vstd::prelude::*;

verus! {

// ── applications and tabs ─────────────────────────────────────────

/// The tab of an application; the reader opens over one and is none itself,
/// nor is the old file list.
pub open spec fn tab_of(id: AppId) -> Option<Tab> {
    match id {
        AppId::Home => Some(Tab::Home),
        AppId::Library => Some(Tab::Library),
        AppId::Stats => Some(Tab::Stats),
        AppId::Settings => Some(Tab::Settings),
        AppId::Upload => Some(Tab::Upload),
        AppId::Reader => None,
        AppId::Files => None,
    }
}

pub fn appid_to_tab(id: AppId) -> (t: Option<Tab>)
    ensures
        t == tab_of(id),
{
    match id {
        AppId::Home => Some(Tab::Home),
        AppId::Library => Some(Tab::Library),
        AppId::Stats => Some(Tab::Stats),
        AppId::Settings => Some(Tab::Settings),
        AppId::Upload => Some(Tab::Upload),
        AppId::Reader => None,
        AppId::Files => None,
    }
}

pub open spec fn modal_of(id: AppId) -> Option<Modal> {
    if id == AppId::Reader {
        Some(Modal::Reader)
    } else {
        None
    }
}

pub fn appid_to_modal(id: AppId) -> (m: Option<Modal>)
    ensures
        m == modal_of(id),
{
    match id {
        AppId::Reader => Some(Modal::Reader),
        _ => None,
    }
}

pub open spec fn app_of(tab: Tab) -> AppId {
    match tab {
        Tab::Home => AppId::Home,
        Tab::Library => AppId::Library,
        Tab::Stats => AppId::Stats,
        Tab::Settings => AppId::Settings,
        Tab::Upload => AppId::Upload,
    }
}

pub fn tab_to_appid(tab: Tab) -> (id: AppId)
    ensures
        id == app_of(tab),
{
    match tab {
        Tab::Home => AppId::Home,
        Tab::Library => AppId::Library,
        Tab::Stats => AppId::Stats,
        Tab::Settings => AppId::Settings,
        Tab::Upload => AppId::Upload,
    }
}

/// Tabs and their applications go both ways.
pub proof fn law_tabs_and_apps_match(tab: Tab, id: AppId)
    ensures
        tab_of(app_of(tab)) == Some(tab),
        tab_of(id) matches Some(t) ==> app_of(t) == id,
        modal_of(id) is Some ==> tab_of(id) is None,
{
}

/// A direction along the tabs.
#[derive(Clone, Copy, Debug, PartialEq, Eq, Structural)]
pub enum HDir {
    Left,
    Right,
}

pub open spec fn direction_of(ev: ActionEvent) -> Option<HDir> {
    if ev == ActionEvent::Press(Action::PrevJump) || ev == ActionEvent::Repeat(Action::PrevJump) {
        Some(HDir::Left)
    } else if ev == ActionEvent::Press(Action::NextJump) || ev == ActionEvent::Repeat(
        Action::NextJump,
    ) {
        Some(HDir::Right)
    } else {
        None
    }
}

/// The direction that a button asks for.
pub fn horizontal_from_event(ev: ActionEvent) -> (d: Option<HDir>)
    ensures
        d == direction_of(ev),
{
    let action: Action = match ev {
        ActionEvent::Press(a) => a,
        ActionEvent::Repeat(a) => a,
        _ => {
            return None;
        },
    };
    match action {
        Action::PrevJump => Some(HDir::Left),
        Action::NextJump => Some(HDir::Right),
        _ => None,
    }
}

/// The topmost tab among the first `n` of the stack, or home.
pub open spec fn tab_below(stack: Seq<AppId>, n: int) -> Tab
    decreases n,
{
    if n <= 0 {
        Tab::Home
    } else if tab_of(stack[n - 1]) is Some {
        tab_of(stack[n - 1])->0
    } else {
        tab_below(stack, n - 1)
    }
}

/// The tab and what is open over it, of a stack of applications.
pub open spec fn nav_of(stack: Seq<AppId>) -> (Tab, Option<Modal>) {
    let active = stack.last();
    if modal_of(active) is Some {
        (tab_below(stack, stack.len() - 1), modal_of(active))
    } else {
        (
            match tab_of(active) {
                Some(t) => t,
                None => Tab::Home,
            },
            None,
        )
    }
}

pub fn nav_state_from_launcher(stack: &Vec<AppId>) -> (r: (Tab, Option<Modal>))
    requires
        stack@.len() > 0,
    ensures
        r == nav_of(stack@),
{
    let active: AppId = stack[stack.len() - 1];
    if let Some(modal) = appid_to_modal(active) {
        let mut n: usize = stack.len() - 1;
        while n > 0
            invariant
                n < stack@.len(),
                tab_below(stack@, n as int) == tab_below(stack@, stack@.len() - 1),
                modal_of(stack@.last()) == Some(modal),
            decreases n,
        {
            if let Some(t) = appid_to_tab(stack[n - 1]) {
                return (t, Some(modal));
            }
            n = n - 1;
        }
        (Tab::Home, Some(modal))
    } else {
        (
            match appid_to_tab(active) {
                Some(t) => t,
                None => Tab::Home,
            },
            None,
        )
    }
}

// ── events ────────────────────────────────────────────────────────

/// Who gets an event.
#[derive(Clone, Copy, Debug, PartialEq, Eq, Structural)]
pub enum Route {
    /// the open quick menu
    QuickMenu,
    /// the application, which has a sheet of its own open
    MenuToApp,
    OpenMenu,
    /// the application, as a move along the tabs
    Along(HDir),
    App,
}

/// The route of an event: an open menu takes it; the menu button opens the
/// menu unless the application takes it; left and right move along the tabs,
/// unless something is open over them.
pub open spec fn routed(ev: ActionEvent, menu_open: bool, captures: bool, modal: bool) -> Route {
    if menu_open {
        Route::QuickMenu
    } else if ev == ActionEvent::Press(Action::Menu) {
        if captures {
            Route::MenuToApp
        } else {
            Route::OpenMenu
        }
    } else if direction_of(ev) is Some && !modal {
        Route::Along(direction_of(ev)->0)
    } else {
        Route::App
    }
}

/// How the quick menu answered a button.
#[derive(Clone, Copy, Debug, PartialEq, Eq, Structural)]
pub enum QuickMenuResult {
    Consumed,
    Close,
    RefreshScreen,
    GoHome,
    Sleep,
    AppTrigger(u8),
}

/// What follows from it.
#[derive(Clone, Copy, Debug, PartialEq, Eq, Structural)]
pub struct MenuEffect {
    /// the menu itself is painted anew
    pub paint: bool,
    pub close: bool,
    pub full_redraw: bool,
    pub sleep: bool,
    pub to: Transition,
    pub trigger: Trigger,
}

/// Who handles a row that was chosen.
#[derive(Clone, Copy, Debug, PartialEq, Eq, Structural)]
pub enum Trigger {
    Nobody,
    /// home, which lent the row
    Home(u8),
    /// the active application, whose state is saved behind it
    Active(u8),
}

/// The button that an open menu is given: a press or a repeat. It ignores
/// every other event.
pub open spec fn menu_button(ev: ActionEvent) -> Option<Action> {
    match ev {
        ActionEvent::Press(a) => Some(a),
        ActionEvent::Repeat(a) => Some(a),
        _ => None,
    }
}

pub open spec fn menu_effect(r: QuickMenuResult, dirty: bool, active: AppId) -> MenuEffect {
    MenuEffect {
        paint: r == QuickMenuResult::Consumed && dirty,
        close: r != QuickMenuResult::Consumed,
        full_redraw: r == QuickMenuResult::RefreshScreen,
        sleep: r == QuickMenuResult::Sleep,
        to: if r == QuickMenuResult::GoHome {
            Transition::Home
        } else {
            Transition::Stay
        },
        trigger: match r {
            QuickMenuResult::AppTrigger(id) => if active != AppId::Home && (id == home::QA_CONTINUE
                || id == home::QA_CONTENTS) {
                Trigger::Home(id)
            } else {
                Trigger::Active(id)
            },
            _ => Trigger::Nobody,
        },
    }
}

// ── changes of application ────────────────────────────────────────

/// A change of application.
#[derive(Clone, Copy, Debug, PartialEq, Eq, Structural)]
pub struct NavEvent {
    pub from: AppId,
    pub to: AppId,
    /// the old one stays on the stack
    pub suspend: bool,
    /// the new one was on it
    pub resume: bool,
}

/// How the old application is left.
#[derive(Clone, Copy, Debug, PartialEq, Eq, Structural)]
pub enum Leave {
    Nobody,
    Suspend,
    Exit,
}

/// How the new one is entered.
#[derive(Clone, Copy, Debug, PartialEq, Eq, Structural)]
pub enum Enter {
    Nobody,
    Resume,
    Enter,
}

/// What is painted behind a change.
#[derive(Clone, Copy, Debug, PartialEq, Eq, Structural)]
pub enum Repaint {
    Nothing,
    Screen,
    Full,
}

/// What a change of application entails, in order: the old one's state is saved
/// and everything is flushed, it is left, and the new one is entered and
/// painted. The upload screen runs by itself and is neither left nor entered;
/// the reader paints its own first frame.
#[derive(Clone, Copy, Debug, PartialEq, Eq, Structural)]
pub struct Change {
    pub save_and_flush: bool,
    pub leave: Leave,
    pub enter: Enter,
    pub repaint: Repaint,
}

pub open spec fn change_of(nav: NavEvent) -> Change {
    Change {
        save_and_flush: nav.from != AppId::Upload,
        leave: if nav.from == AppId::Upload {
            Leave::Nobody
        } else if nav.suspend {
            Leave::Suspend
        } else {
            Leave::Exit
        },
        enter: if nav.to == AppId::Upload {
            Enter::Nobody
        } else if nav.resume {
            Enter::Resume
        } else {
            Enter::Enter
        },
        repaint: if nav.resume {
            Repaint::Screen
        } else if nav.to != AppId::Reader {
            Repaint::Full
        } else {
            Repaint::Nothing
        },
    }
}

/// When gray levels are painted.
#[derive(Clone, Copy, Debug, PartialEq, Eq, Structural)]
pub enum GrayscaleMode {
    Disabled,
    Immediate,
}

/// The layers of a frame around the active application.
#[derive(Clone, Copy, Debug, PartialEq, Eq, Structural)]
pub struct FrameLayers {
    pub top_bar: bool,
    pub loading: bool,
    pub cache_sheet: bool,
    pub menu: bool,
    pub buttons: bool,
}

/// What the active application says of its frame.
#[derive(Clone, Copy, Debug, PartialEq, Eq, Structural)]
pub struct FrameWishes {
    pub show_top: bool,
    pub show_tabs: bool,
    pub hide_buttons: bool,
}

/// What the quick menu is made of.
#[derive(Clone, Copy, Debug, PartialEq, Eq, Structural)]
pub struct MenuPlan {
    /// it is headed by the book of the home card
    pub borrow_home: bool,
    /// rows of the home card, which come first
    pub from_home: usize,
    /// rows of the active application
    pub from_own: usize,
    pub on_home: bool,
}

pub open spec fn menu_plan(
    m: AppManager,
    has_recent: bool,
    home_rows: usize,
    own_rows: usize,
    most: usize,
) -> MenuPlan {
    let borrow_home = m.top() != AppId::Home && m.top() != AppId::Reader && has_recent;
    let from_home = if borrow_home {
        home_rows
    } else {
        0
    };
    MenuPlan {
        borrow_home,
        from_home,
        from_own: (if own_rows < most - from_home {
            own_rows as int
        } else {
            most - from_home
        }) as usize,
        on_home: m.top() == AppId::Home,
    }
}

pub struct AppManager {
    /// the applications that are open, the active one last
    pub stack: Vec<AppId>,
    pub tab: Tab,
    pub modal: Option<Modal>,
    pub menu_open: bool,
    /// where the upload screen was opened from
    pub upload_return_tab: Tab,
    pub sleep_requested: bool,
    pub battery_pct: u8,
}

impl AppManager {
    /// The tab and the modal are those of the stack.
    pub open spec fn wf(self) -> bool {
        self.stack@.len() > 0 && nav_of(self.stack@) == (self.tab, self.modal)
    }

    pub open spec fn top(self) -> AppId {
        self.stack@.last()
    }

    pub fn new() -> (m: AppManager)
        ensures
            m.wf(),
            m.stack@ == seq![AppId::Home],
            m.upload_return_tab == Tab::Home,
            !m.sleep_requested,
            !m.menu_open,
    {
        let mut stack: Vec<AppId> = Vec::new();
        stack.push(AppId::Home);
        proof {
            assert(stack@ =~= seq![AppId::Home]);
        }
        AppManager {
            stack,
            tab: Tab::Home,
            modal: None,
            menu_open: false,
            upload_return_tab: Tab::Home,
            sleep_requested: false,
            battery_pct: 0,
        }
    }

    pub fn active(&self) -> (id: AppId)
        requires
            self.wf(),
        ensures
            id == self.top(),
    {
        self.stack[self.stack.len() - 1]
    }

    pub fn active_tab(&self) -> (t: Tab)
        ensures
            t == self.tab,
    {
        self.tab
    }

    pub fn active_modal(&self) -> (m: Option<Modal>)
        ensures
            m == self.modal,
    {
        self.modal
    }

    /// Who gets an event; `captures` says whether the active application takes
    /// the menu button.
    pub fn dispatch_event(&self, ev: ActionEvent, captures: bool) -> (r: Route)
        ensures
            r == routed(ev, self.menu_open, captures, self.modal is Some),
    {
        if self.menu_open {
            return Route::QuickMenu;
        }
        if let ActionEvent::Press(Action::Menu) = ev {
            return if captures {
                Route::MenuToApp
            } else {
                Route::OpenMenu
            };
        }
        if let Some(dir) = horizontal_from_event(ev) {
            if self.modal.is_none() {
                return Route::Along(dir);
            }
        }
        Route::App
    }

    /// Where a move along the tabs leads: to the next tab, if the application
    /// was at its edge and there is one.
    pub fn dispatch_horizontal(&self, at_edge: bool, next: Option<Tab>) -> (t: Transition)
        ensures
            t == (match next {
                Some(tab) if at_edge => Transition::Replace(app_of(tab)),
                _ => Transition::Stay,
            }),
    {
        match next {
            Some(tab) => if at_edge {
                Transition::Replace(tab_to_appid(tab))
            } else {
                Transition::Stay
            },
            None => Transition::Stay,
        }
    }

    /// The button that the open menu is given for an event.
    pub fn menu_input(ev: ActionEvent) -> (a: Option<Action>)
        ensures
            a == menu_button(ev),
    {
        match ev {
            ActionEvent::Press(a) => Some(a),
            ActionEvent::Repeat(a) => Some(a),
            _ => None,
        }
    }

    /// What follows from an answer of the quick menu to a button; `dirty` says
    /// whether the menu changed.
    pub fn handle_quick_menu(&mut self, r: QuickMenuResult, dirty: bool) -> (e: MenuEffect)
        requires
            old(self).wf(),
        ensures
            e == menu_effect(r, dirty, old(self).top()),
            *final(self) == (AppManager {
                menu_open: old(self).menu_open && !e.close,
                sleep_requested: old(self).sleep_requested || e.sleep,
                ..*old(self)
            }),
    {
        let active: AppId = self.active();
        let close: bool = match r {
            QuickMenuResult::Consumed => false,
            _ => true,
        };
        let sleep: bool = match r {
            QuickMenuResult::Sleep => true,
            _ => false,
        };
        self.menu_open = self.menu_open && !close;
        self.sleep_requested = self.sleep_requested || sleep;
        MenuEffect {
            paint: !close && dirty,
            close,
            full_redraw: match r {
                QuickMenuResult::RefreshScreen => true,
                _ => false,
            },
            sleep,
            to: match r {
                QuickMenuResult::GoHome => Transition::Home,
                _ => Transition::Stay,
            },
            trigger: match r {
                QuickMenuResult::AppTrigger(id) => if active != AppId::Home
                    && home::is_resume_action(id) {
                    Trigger::Home(id)
                } else {
                    Trigger::Active(id)
                },
                _ => Trigger::Nobody,
            },
        }
    }

    /// The request to sleep, taken.
    pub fn take_sleep_request(&mut self) -> (b: bool)
        ensures
            b == old(self).sleep_requested,
            *final(self) == (AppManager { sleep_requested: false, ..*old(self) }),
    {
        let b: bool = self.sleep_requested;
        self.sleep_requested = false;
        b
    }

    /// A tab borrows the rows of the book on the home card, if there is one;
    /// home and the reader have their own.
    pub fn borrows_home(&self, has_recent: bool) -> (b: bool)
        requires
            self.wf(),
        ensures
            b == (self.top() != AppId::Home && self.top() != AppId::Reader && has_recent),
    {
        let active: AppId = self.active();
        active != AppId::Home && active != AppId::Reader && has_recent
    }

    /// Open the quick menu. A tab without rows of a book borrows those of the
    /// home card, which come first; its own follow as far as there is room for
    /// `most` in all.
    pub fn open_quick_menu(
        &mut self,
        has_recent: bool,
        home_rows: usize,
        own_rows: usize,
        most: usize,
    ) -> (p: MenuPlan)
        requires
            old(self).wf(),
            home_rows <= most,
        ensures
            *final(self) == (AppManager { menu_open: true, ..*old(self) }),
            p == menu_plan(*old(self), has_recent, home_rows, own_rows, most),
    {
        let borrow_home: bool = self.borrows_home(has_recent);
        let from_home: usize = if borrow_home {
            home_rows
        } else {
            0
        };
        let room: usize = most - from_home;
        let p = MenuPlan {
            borrow_home,
            from_home,
            from_own: if own_rows < room {
                own_rows
            } else {
                room
            },
            on_home: self.active() == AppId::Home,
        };
        self.menu_open = true;
        p
    }

    /// The manager over a changed stack.
    pub open spec fn changed_to(self, stack: Vec<AppId>, nav: NavEvent) -> AppManager {
        AppManager {
            stack,
            tab: nav_of(stack@).0,
            modal: nav_of(stack@).1,
            upload_return_tab: if nav.to == AppId::Upload {
                match tab_of(nav.from) {
                    Some(t) => t,
                    None => Tab::Home,
                }
            } else {
                self.upload_return_tab
            },
            ..self
        }
    }

    /// Take over a changed stack: what the change entails. The tab that the
    /// upload screen was opened from is kept on the way in.
    pub fn apply_transition(&mut self, stack: Vec<AppId>, nav: NavEvent) -> (c: Change)
        requires
            stack@.len() > 0,
        ensures
            final(self).wf(),
            c == change_of(nav),
            *final(self) == old(self).changed_to(stack, nav),
    {
        let (tab, modal): (Tab, Option<Modal>) = nav_state_from_launcher(&stack);
        self.stack = stack;
        self.tab = tab;
        self.modal = modal;
        if nav.to == AppId::Upload {
            self.upload_return_tab = match appid_to_tab(nav.from) {
                Some(t) => t,
                None => Tab::Home,
            };
        }
        Change {
            save_and_flush: nav.from != AppId::Upload,
            leave: if nav.from == AppId::Upload {
                Leave::Nobody
            } else if nav.suspend {
                Leave::Suspend
            } else {
                Leave::Exit
            },
            enter: if nav.to == AppId::Upload {
                Enter::Nobody
            } else if nav.resume {
                Enter::Resume
            } else {
                Enter::Enter
            },
            repaint: if nav.resume {
                Repaint::Screen
            } else if nav.to != AppId::Reader {
                Repaint::Full
            } else {
                Repaint::Nothing
            },
        }
    }

    pub open spec fn upload_goes_to(self, chosen: Option<Tab>) -> AppId {
        app_of(
            match chosen {
                Some(t) => t,
                None => self.upload_return_tab,
            },
        )
    }

    /// Where the upload screen goes back to: a tab that was chosen in it, or
    /// the one that it was opened from.
    pub fn upload_exit(&self, chosen: Option<Tab>) -> (id: AppId)
        ensures
            id == self.upload_goes_to(chosen),
    {
        match chosen {
            Some(t) => tab_to_appid(t),
            None => tab_to_appid(self.upload_return_tab),
        }
    }

    /// The upload screen runs outside of the usual dispatch.
    pub fn needs_special_mode(&self) -> (b: bool)
        requires
            self.wf(),
        ensures
            b == (self.top() == AppId::Upload),
    {
        self.active() == AppId::Upload
    }

    /// When gray levels are painted.
    pub open spec fn gray_levels(self, reader_wants: bool) -> GrayscaleMode {
        if !self.menu_open && self.top() == AppId::Reader && reader_wants {
            GrayscaleMode::Immediate
        } else {
            GrayscaleMode::Disabled
        }
    }

    /// Gray levels are for the page of the reader, not under the menu.
    pub fn grayscale_mode(&self, reader_wants: bool) -> (g: GrayscaleMode)
        requires
            self.wf(),
        ensures
            g == self.gray_levels(reader_wants),
    {
        if !self.menu_open && self.active() == AppId::Reader && reader_wants {
            GrayscaleMode::Immediate
        } else {
            GrayscaleMode::Disabled
        }
    }

    /// The battery changed: whether the top bar is to be painted.
    pub fn set_chrome_state(&mut self, battery_pct: u8, show_top: bool) -> (mark: bool)
        ensures
            mark == (show_top && old(self).battery_pct != battery_pct),
            *final(self) == (AppManager { battery_pct, ..*old(self) }),
    {
        let changed: bool = self.battery_pct != battery_pct;
        self.battery_pct = battery_pct;
        show_top && changed
    }

    pub open spec fn layers(
        self,
        wishes: FrameWishes,
        indicator_up: bool,
        reader_loading: bool,
        cache_sheet_open: bool,
    ) -> FrameLayers {
        FrameLayers {
            top_bar: wishes.show_top,
            loading: indicator_up && !(self.top() == AppId::Reader && reader_loading),
            cache_sheet: self.top() == AppId::Settings && cache_sheet_open,
            menu: self.menu_open,
            buttons: !wishes.hide_buttons && !wishes.show_tabs,
        }
    }

    /// The layers around the active application. The reader has a loading
    /// screen of its own.
    pub fn draw(
        &self,
        wishes: FrameWishes,
        indicator_up: bool,
        reader_loading: bool,
        cache_sheet_open: bool,
    ) -> (l: FrameLayers)
        requires
            self.wf(),
        ensures
            l == self.layers(wishes, indicator_up, reader_loading, cache_sheet_open),
    {
        let active: AppId = self.active();
        FrameLayers {
            top_bar: wishes.show_top,
            loading: indicator_up && !(active == AppId::Reader && reader_loading),
            cache_sheet: active == AppId::Settings && cache_sheet_open,
            menu: self.menu_open,
            buttons: !wishes.hide_buttons && !wishes.show_tabs,
        }
    }

    /// How often the panel is cleared of ghosts: as the settings say, once they
    /// are loaded.
    pub fn ghost_clear_every(&self, setting: Option<u8>, default_every: u32) -> (n: u32)
        ensures
            n == (match setting {
                Some(every) => every as u32,
                None => default_every,
            }),
    {
        match setting {
            Some(every) => every as u32,
            None => default_every,
        }
    }

    /// Whether an application is open.
    pub fn contains(&self, id: AppId) -> (b: bool)
        ensures
            b == self.stack@.contains(id),
    {
        let mut i: usize = 0;
        while i < self.stack.len()
            invariant
                i <= self.stack@.len(),
                forall|k: int| 0 <= k < i ==> self.stack@[k] != id,
            decreases self.stack@.len() - i,
        {
            if self.stack[i] == id {
                return true;
            }
            i = i + 1;
        }
        false
    }
}

// ── all applications ──────────────────────────────────────────────

/// What a tap on the menu button does.
#[derive(Clone, Copy, Debug, PartialEq, Eq, Structural)]
pub enum MenuTap {
    Close,
    /// the application closes its own sheet
    ToApp,
    Open,
}

/// The book on the card while the device sleeps.
#[derive(Clone, Copy, Debug, PartialEq, Eq, Structural)]
pub enum SleepSource {
    Reader,
    Home,
    Nothing,
}

/// The applications that are dispatched to, in order.
pub open spec fn dispatched() -> Seq<AppId> {
    seq![AppId::Home, AppId::Library, AppId::Reader, AppId::Settings, AppId::Stats]
}

/// The first error from `i` on.
pub open spec fn first_error(errors: Seq<Option<u16>>, i: int) -> Option<u16>
    decreases errors.len() - i,
{
    if i < 0 || i >= errors.len() {
        None
    } else if errors[i] is Some {
        errors[i]
    } else {
        first_error(errors, i + 1)
    }
}

/// The outcome of flushing every application: the first error. All of them are
/// tried, so that one that failed does not keep the others from it.
pub fn flush_deferred_persistence(errors: &[Option<u16>]) -> (e: Option<u16>)
    ensures
        e == first_error(errors@, 0),
{
    let mut i: usize = 0;
    while i < errors.len()
        invariant
            i <= errors@.len(),
            first_error(errors@, i as int) == first_error(errors@, 0),
        decreases errors@.len() - i,
    {
        if errors[i].is_some() {
            return errors[i];
        }
        i = i + 1;
    }
    None
}

impl AppManager {
    /// What a tap on the menu button does.
    pub fn dispatch_semantic_input(&self, captures: bool) -> (t: MenuTap)
        ensures
            t == (if self.menu_open {
                MenuTap::Close
            } else if captures {
                MenuTap::ToApp
            } else {
                MenuTap::Open
            }),
    {
        if self.menu_open {
            MenuTap::Close
        } else if captures {
            MenuTap::ToApp
        } else {
            MenuTap::Open
        }
    }

    /// The applications that step in the background behind the active one.
    pub fn run_background_step(&self) -> (out: Vec<AppId>)
        requires
            self.wf(),
        ensures
            out@ == dispatched().filter(|id: AppId| id != self.top()),
    {
        let active: AppId = self.active();
        let all: [AppId; 5] = [
            AppId::Home,
            AppId::Library,
            AppId::Reader,
            AppId::Settings,
            AppId::Stats,
        ];
        let mut out: Vec<AppId> = Vec::new();
        let mut i: usize = 0;
        let ghost keep = |id: AppId| id != self.top();
        proof {
            assert(all@ =~= dispatched());
            reveal(Seq::filter);
            assert(out@ =~= all@.take(0).filter(keep));
        }
        while i < 5
            invariant
                i <= 5,
                active == self.top(),
                keep == (|id: AppId| id != self.top()),
                out@ == all@.take(i as int).filter(keep),
            decreases 5 - i,
        {
            proof {
                reveal(Seq::filter);
                assert(all@.take(i + 1).drop_last() =~= all@.take(i as int));
            }
            if all[i] != active {
                out.push(all[i]);
            }
            i = i + 1;
        }
        proof {
            assert(all@.take(5) =~= dispatched());
        }
        out
    }

    /// Which book the card shows while the device sleeps: the open one, or the
    /// one on the home card.
    pub fn fill_sleep_card(&self, reader_has_book: bool, home_has_book: bool) -> (s: SleepSource)
        ensures
            s == (if self.stack@.contains(AppId::Reader) && reader_has_book {
                SleepSource::Reader
            } else if home_has_book {
                SleepSource::Home
            } else {
                SleepSource::Nothing
            }),
    {
        if self.contains(AppId::Reader) && reader_has_book {
            SleepSource::Reader
        } else if home_has_book {
            SleepSource::Home
        } else {
            SleepSource::Nothing
        }
    }

    /// The font size to save, if the quick menu changed it.
    pub fn sync_quick_menu(&self, saved: u8, pending: Option<u8>) -> (r: Option<u8>)
        ensures
            r == (match pending {
                Some(idx) if idx != saved => Some(idx),
                _ => None,
            }),
    {
        match pending {
            Some(idx) => if idx != saved {
                Some(idx)
            } else {
                None
            },
            None => None,
        }
    }
}

} // verus!
