//! What the device keeps across sleep, and how it wakes up with it.

use crate::home;
use crate::home::HomeApp;
use crate::manager;
use crate::manager::AppManager;
use crate::nav::{AppId, Modal, Tab};
use crate::reader::clock::LoadingClock;
use crate::reader::lifecycle;
use crate::reader::look;
use crate::reader::state::{FontMetrics, ReaderApp};
use vstd::prelude::*;

verus! {

/// Most applications that are kept across sleep.
pub const MAX_NAV_STACK: usize = 4;

/// The open applications: codes, from the bottom of the stack.
#[derive(Clone, Copy, Debug, PartialEq, Eq, Structural)]
pub struct NavCodes {
    pub depth: u8,
    pub nav0: u8,
    pub nav1: u8,
    pub nav2: u8,
    pub nav3: u8,
}

/// Where the reader was.
#[derive(Clone, Copy, Debug, PartialEq, Eq, Structural)]
pub struct ReaderPlace {
    pub is_epub: bool,
    pub chapter: u16,
    pub page: u16,
    pub byte_offset: u32,
    pub font_size: u8,
}

/// Where the home screen was.
#[derive(Clone, Copy, Debug, PartialEq, Eq, Structural)]
pub struct HomePlace {
    pub state: u8,
    pub selected: u8,
    pub bm_selected: u8,
    pub bm_scroll: u8,
}

/// What is kept across sleep.
#[derive(Debug)]
pub struct Session {
    pub nav: NavCodes,
    pub reader_name: Vec<u8>,
    pub reader: ReaderPlace,
    pub home: HomePlace,
}

pub open spec fn code_of(id: AppId) -> u8 {
    match id {
        AppId::Home => 0,
        AppId::Library => 1,
        AppId::Files => 2,
        AppId::Reader => 3,
        AppId::Settings => 4,
        AppId::Stats => 5,
        AppId::Upload => 6,
    }
}

/// The application of a code; home for a code that is none.
pub open spec fn app_with_code(c: u8) -> AppId {
    if c == 1 {
        AppId::Library
    } else if c == 2 {
        AppId::Files
    } else if c == 3 {
        AppId::Reader
    } else if c == 4 {
        AppId::Settings
    } else if c == 5 {
        AppId::Stats
    } else if c == 6 {
        AppId::Upload
    } else {
        AppId::Home
    }
}

impl AppId {
    pub fn code(self) -> (c: u8)
        ensures
            c == code_of(self),
    {
        match self {
            AppId::Home => 0,
            AppId::Library => 1,
            AppId::Files => 2,
            AppId::Reader => 3,
            AppId::Settings => 4,
            AppId::Stats => 5,
            AppId::Upload => 6,
        }
    }

    pub fn from_raw(c: u8) -> (id: AppId)
        ensures
            id == app_with_code(c),
    {
        if c == 1 {
            AppId::Library
        } else if c == 2 {
            AppId::Files
        } else if c == 3 {
            AppId::Reader
        } else if c == 4 {
            AppId::Settings
        } else if c == 5 {
            AppId::Stats
        } else if c == 6 {
            AppId::Upload
        } else {
            AppId::Home
        }
    }
}

impl NavCodes {
    /// The code at a depth of the stack.
    pub open spec fn code_at(self, i: int) -> u8 {
        if i == 0 {
            self.nav0
        } else if i == 1 {
            self.nav1
        } else if i == 2 {
            self.nav2
        } else {
            self.nav3
        }
    }

    /// The depth is one that can be restored.
    pub open spec fn valid(self) -> bool {
        0 < self.depth <= MAX_NAV_STACK
    }

    /// The stack that was kept.
    pub open spec fn stack(self) -> Seq<AppId> {
        Seq::new(self.depth as nat, |i: int| app_with_code(self.code_at(i)))
    }
}

// ── going to sleep ────────────────────────────────────────────────

/// What is kept of the stack.
pub open spec fn nav_codes(stack: Seq<AppId>) -> NavCodes {
    let at = |i: int|
        if i < stack.len() {
            code_of(stack[i])
        } else {
            0
        };
    NavCodes {
        depth: (stack.len() % 256) as u8,
        nav0: at(0),
        nav1: at(1),
        nav2: at(2),
        nav3: at(3),
    }
}

/// What is kept of the reader, besides the name of its file.
pub open spec fn reader_place(r: ReaderApp) -> ReaderPlace {
    ReaderPlace {
        is_epub: r.book.is_epub,
        chapter: r.chapter,
        page: (r.pg.page % 0x10000) as u16,
        byte_offset: r.pg.here(),
        font_size: r.look.chosen.font_size_idx,
    }
}

/// What is kept of the home screen.
pub open spec fn home_place(h: HomeApp) -> HomePlace {
    HomePlace { state: 0, selected: (h.selected % 256) as u8, bm_selected: 0, bm_scroll: 0 }
}

impl AppManager {
    fn code_at(&self, i: usize) -> (c: u8)
        ensures
            c == (if i < self.stack@.len() {
                code_of(self.stack@[i as int])
            } else {
                0
            }),
    {
        if i < self.stack.len() {
            self.stack[i].code()
        } else {
            0
        }
    }

    /// Keep what is needed after sleep. The length of the file's name is kept
    /// in one byte.
    pub fn collect_session(&self, reader: &ReaderApp, home: &HomeApp) -> (s: Session)
        requires
            reader.wf(),
            reader.book.filename@.len() <= 255,
        ensures
            s.nav == nav_codes(self.stack@),
            s.reader_name@ == reader.book.filename@,
            s.reader == reader_place(*reader),
            s.home == home_place(*home),
    {
        let name: &[u8] = reader.filename_bytes();
        let mut reader_name: Vec<u8> = Vec::new();
        let mut i: usize = 0;
        while i < name.len()
            invariant
                i <= name@.len(),
                reader_name@ =~= name@.take(i as int),
            decreases name@.len() - i,
        {
            reader_name.push(name[i]);
            i = i + 1;
        }
        proof {
            assert(reader_name@ =~= name@);
        }
        Session {
            nav: NavCodes {
                depth: (self.stack.len() % 256) as u8,
                nav0: self.code_at(0),
                nav1: self.code_at(1),
                nav2: self.code_at(2),
                nav3: self.code_at(3),
            },
            reader_name,
            reader: ReaderPlace {
                is_epub: reader.is_epub(),
                chapter: reader.chapter(),
                page: (reader.page() % 0x10000) as u16,
                byte_offset: reader.byte_offset(),
                font_size: reader.font_size_idx(),
            },
            home: HomePlace {
                state: home.state_id(),
                selected: (home.selected() % 256) as u8,
                bm_selected: (home.bm_selected() % 256) as u8,
                bm_scroll: (home.bm_scroll() % 256) as u8,
            },
        }
    }
}

// ── waking up ─────────────────────────────────────────────────────

/// What is to be done once a session was taken over.
#[derive(Clone, Copy, Debug, PartialEq, Eq, Structural)]
pub struct Wake {
    /// the session could be taken over
    pub restored: bool,
    /// the reader's loading screen gets its cover and title before the first
    /// frame
    pub prepare_loading: bool,
    /// the screen is painted in full; the reader paints its own first frame
    pub full_redraw: bool,
}

/// What follows from a session with the stack `nav`.
pub open spec fn wake_of(nav: NavCodes) -> Wake {
    let in_reader = nav.stack().last() == AppId::Reader;
    Wake {
        restored: nav.valid(),
        prepare_loading: nav.valid() && in_reader,
        full_redraw: nav.valid() && !in_reader,
    }
}

/// What the device measures as it wakes up.
#[derive(Clone, Copy, Debug, PartialEq, Eq, Structural)]
pub struct WakeInputs {
    pub battery_pct: u8,
    pub metrics: Option<FontMetrics>,
    pub spacing_pct: u16,
    pub now: u32,
}

/// The home screen as the session has it.
pub open spec fn home_after(h: HomeApp, selected: u8, battery_pct: u8) -> HomeApp {
    HomeApp {
        selected: if selected < home::MAX_ITEMS {
            selected as usize
        } else {
            (home::MAX_ITEMS - 1) as usize
        },
        needs_load: true,
        bat_pct: battery_pct,
        ..h
    }
}

impl AppManager {
    /// Take over the session that was kept, if its stack can be restored. The
    /// reader is restored where it is open.
    pub fn apply_session(
        &mut self,
        s: &Session,
        inputs: WakeInputs,
        home: &mut HomeApp,
        reader: &mut ReaderApp,
        clock: &mut LoadingClock,
    ) -> (w: Wake)
        requires
            old(reader).wf(),
            old(reader).look.chosen.theme.fits(),
            look::measurable(inputs.metrics, inputs.spacing_pct),
        ensures
            w == wake_of(s.nav),
            !w.restored ==> {
                &&& *final(self) == *old(self)
                &&& *final(home) == *old(home)
                &&& *final(reader) == *old(reader)
            },
            w.restored ==> {
                &&& final(self).wf()
                &&& final(self).stack@ == s.nav.stack()
                &&& *final(self) == (AppManager {
                    stack: final(self).stack,
                    tab: manager::nav_of(s.nav.stack()).0,
                    modal: manager::nav_of(s.nav.stack()).1,
                    ..*old(self)
                })
                &&& *final(home) == home_after(*old(home), s.home.selected, inputs.battery_pct)
                &&& if s.nav.stack().contains(AppId::Reader) {
                    lifecycle::restored(
                        *old(reader),
                        *final(reader),
                        s.reader_name@,
                        s.reader.is_epub,
                        s.reader.font_size,
                        inputs.metrics,
                        inputs.spacing_pct,
                        inputs.now,
                    )
                } else {
                    *final(reader) == *old(reader)
                }
            },
    {
        if s.nav.depth == 0 || s.nav.depth as usize > MAX_NAV_STACK {
            return Wake { restored: false, prepare_loading: false, full_redraw: false };
        }
        let mut stack: Vec<AppId> = Vec::new();
        let mut i: u8 = 0;
        while i < s.nav.depth
            invariant
                i <= s.nav.depth <= MAX_NAV_STACK,
                stack@ =~= s.nav.stack().take(i as int),
            decreases s.nav.depth - i,
        {
            let c: u8 = if i == 0 {
                s.nav.nav0
            } else if i == 1 {
                s.nav.nav1
            } else if i == 2 {
                s.nav.nav2
            } else {
                s.nav.nav3
            };
            stack.push(AppId::from_raw(c));
            i = i + 1;
        }
        proof {
            assert(stack@ =~= s.nav.stack());
        }
        let (tab, modal): (Tab, Option<Modal>) = manager::nav_state_from_launcher(&stack);
        self.stack = stack;
        self.tab = tab;
        self.modal = modal;
        home.restore_state(
            s.home.state,
            s.home.selected as usize,
            s.home.bm_selected as usize,
            s.home.bm_scroll as usize,
        );
        home.set_battery(inputs.battery_pct);
        if self.contains(AppId::Reader) {
            let mut name: Vec<u8> = Vec::new();
            let mut k: usize = 0;
            while k < s.reader_name.len()
                invariant
                    k <= s.reader_name@.len(),
                    name@ =~= s.reader_name@.take(k as int),
                decreases s.reader_name@.len() - k,
            {
                name.push(s.reader_name[k]);
                k = k + 1;
            }
            proof {
                assert(name@ =~= s.reader_name@);
            }
            reader.restore_state(
                name,
                s.reader.is_epub,
                s.reader.font_size,
                inputs.metrics,
                inputs.spacing_pct,
                inputs.now,
                clock,
            );
        }
        let in_reader: bool = self.active() == AppId::Reader;
        Wake { restored: true, prepare_loading: in_reader, full_redraw: !in_reader }
    }
}

/// A stack of at most four applications comes back from sleep as it was.
pub proof fn law_stacks_survive_sleep(stack: Seq<AppId>)
    requires
        0 < stack.len() <= MAX_NAV_STACK,
    ensures
        nav_codes(stack).valid(),
        nav_codes(stack).stack() == stack,
{
    assert(nav_codes(stack).stack() =~= stack);
}

/// The book and the selected row come back from sleep: the reader opens the
/// file that it had open, in the font size that it had, and the home screen
/// has its row selected.
pub proof fn law_places_survive_sleep(
    reader: ReaderApp,
    woken: ReaderApp,
    after: ReaderApp,
    screen: HomeApp,
    fresh: HomeApp,
    inputs: WakeInputs,
)
    requires
        screen.selected < home::MAX_ITEMS,
        lifecycle::restored(
            woken,
            after,
            reader.book.filename@,
            reader_place(reader).is_epub,
            reader_place(reader).font_size,
            inputs.metrics,
            inputs.spacing_pct,
            inputs.now,
        ),
    ensures
        after.book.filename@ == reader.book.filename@,
        after.book.is_epub == reader.book.is_epub,
        after.look.chosen.font_size_idx == reader.look.chosen.font_size_idx,
        home_after(fresh, home_place(screen).selected, inputs.battery_pct).selected
            == screen.selected,
{
}

} // verus!
