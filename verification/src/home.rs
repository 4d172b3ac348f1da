//! The home screen: a card for the book that is being read, and a short list
//! of the books before it. Names, titles and captions are kept whole; how much of
//! one fits on its row is left to what draws it.

use crate::book_record::{BookRecord, Position};
use crate::bytes;
use crate::cover::{CARD_THUMB_H, CARD_THUMB_W};
use crate::nav::{Action, ActionEvent, AppId, BgOutcome, Transition};
use crate::recent;
use crate::recent::RecentRecord;
use crate::ui;
use crate::ui::Region;
use vstd::prelude::*;

verus! {

/// Books in the list under the card.
pub const MAX_RECENT_ROWS: usize = 3;

/// The card and the rows.
pub const MAX_ITEMS: usize = 4;

/// Rows of the quick menu for the book on the card.
pub const QA_CONTINUE: u8 = 0xE1;

pub const QA_CONTENTS: u8 = 0xE2;

/// The message tag that opens a book with its contents.
pub const MSG_TAG_OPEN_CONTENTS: u8 = 1;

pub fn is_resume_action(id: u8) -> (b: bool)
    ensures
        b == (id == QA_CONTINUE || id == QA_CONTENTS),
{
    id == QA_CONTINUE || id == QA_CONTENTS
}

/// A row of the quick menu, with the percentage that it shows.
#[derive(Clone, Copy, Debug, PartialEq, Eq, Structural)]
pub struct HomeAction {
    pub id: u8,
    pub percent: Option<u8>,
}

/// A book of the list.
pub struct RecentRow {
    pub filename: Vec<u8>,
    pub title: Vec<u8>,
    pub author: Vec<u8>,
    pub progress_pct: u8,
    /// chapter and chapters
    pub position: Option<(u32, u32)>,
}

/// The book on the card.
pub struct CardBook {
    pub filename: Vec<u8>,
    pub title: Vec<u8>,
    pub author: Vec<u8>,
    pub progress: u8,
    pub stats_time: u32,
    pub chapter: u16,
    pub chapter_count: u16,
    pub has_cover: bool,
}

pub struct HomeApp {
    pub selected: usize,
    pub item_count: usize,
    pub card: CardBook,
    pub rows: Vec<RecentRow>,
    pub needs_load: bool,
    pub bat_pct: u8,
    pub library_count: u16,
}

/// What is to be painted anew.
#[derive(Clone, Copy, Debug, PartialEq, Eq, Structural)]
pub enum HomePaint {
    Nothing,
    /// two items: 0 is the card, the others are rows
    Items(usize, usize),
    Content,
    Full,
}

/// Where a press goes: the transition, and the file and tag of the book to open.
#[derive(Clone, Copy, Debug, PartialEq, Eq, Structural)]
pub enum Opens {
    Nothing,
    /// the library, which the empty card points to
    Library,
    /// the book on the card, with a message tag
    Card { tag: u8 },
    /// the book of a row
    Row(usize),
}

impl Opens {
    /// The transition to the book.
    pub open spec fn goes(self) -> Transition {
        match self {
            Opens::Nothing => Transition::Stay,
            Opens::Library => Transition::Replace(AppId::Library),
            _ => Transition::Push(AppId::Reader),
        }
    }

    pub fn transition(&self) -> (t: Transition)
        ensures
            t == self.goes(),
    {
        match self {
            Opens::Nothing => Transition::Stay,
            Opens::Library => Transition::Replace(AppId::Library),
            _ => Transition::Push(AppId::Reader),
        }
    }
}

/// `selected` moved by one of `n`, around the ends.
pub open spec fn stepped(selected: int, n: int, forward: bool) -> int {
    if forward {
        (selected + 1) % n
    } else {
        (selected - 1) % n
    }
}

/// Seconds that the rest of a book takes at the pace so far. Below 5 percent or
/// five minutes there is no pace to speak of.
pub open spec fn time_left(progress: u8, secs: u32) -> Option<u32> {
    if 5 <= progress < 100 && secs >= 300 {
        let left = secs * (100 - progress);
        Some(
            (if left > u32::MAX {
                u32::MAX as int / (progress as int)
            } else {
                left / (progress as int)
            }) as u32,
        )
    } else {
        None
    }
}

impl HomeApp {
    pub open spec fn wf(self) -> bool {
        &&& self.rows@.len() <= MAX_RECENT_ROWS
        &&& self.item_count == 1 + self.rows@.len()
        &&& self.selected < MAX_ITEMS
    }

    /// There is a book on the card.
    pub open spec fn carries(self) -> bool {
        self.card.filename@.len() > 0
    }

    pub fn new() -> (h: HomeApp)
        ensures
            h.wf(),
            !h.carries(),
            h.selected == 0,
            h.rows@.len() == 0,
            !h.needs_load,
            h.library_count == 0,
            h.bat_pct == 0,
            h.card == (CardBook {
                filename: h.card.filename,
                title: h.card.title,
                author: h.card.author,
                progress: 0,
                stats_time: 0,
                chapter: 0,
                chapter_count: 0,
                has_cover: false,
            }),
            h.card.title@.len() == 0,
            h.card.author@.len() == 0,
    {
        HomeApp {
            selected: 0,
            item_count: 1,
            card: CardBook {
                filename: Vec::new(),
                title: Vec::new(),
                author: Vec::new(),
                progress: 0,
                stats_time: 0,
                chapter: 0,
                chapter_count: 0,
                has_cover: false,
            },
            rows: Vec::new(),
            needs_load: false,
            bat_pct: 0,
            library_count: 0,
        }
    }

    pub fn selected(&self) -> (n: usize)
        ensures
            n == self.selected,
    {
        self.selected
    }

    /// The screen has one state.
    pub fn state_id(&self) -> (id: u8)
        ensures
            id == 0,
    {
        0
    }

    /// The cursor of a list that sessions still hold a place for.
    pub fn bm_selected(&self) -> (n: usize)
        ensures
            n == 0,
    {
        0
    }

    pub fn bm_scroll(&self) -> (n: usize)
        ensures
            n == 0,
    {
        0
    }

    /// The battery is at `bat_pct` percent.
    pub fn set_battery(&mut self, bat_pct: u8)
        ensures
            *final(self) == (HomeApp { bat_pct, ..*old(self) }),
    {
        self.bat_pct = bat_pct;
    }

    pub fn has_recent(&self) -> (b: bool)
        ensures
            b == self.carries(),
    {
        self.card.filename.len() > 0
    }

    /// Come back after sleep with a row selected. The list is loaded again, and
    /// the selection held against it then. The screen has one state and no
    /// other cursors.
    pub fn restore_state(
        &mut self,
        _state_id: u8,
        selected: usize,
        _bm_selected: usize,
        _bm_scroll: usize,
    )
        ensures
            *final(self) == (HomeApp {
                selected: if selected < MAX_ITEMS {
                    selected
                } else {
                    (MAX_ITEMS - 1) as usize
                },
                needs_load: true,
                ..*old(self)
            }),
    {
        self.selected = if selected < MAX_ITEMS {
            selected
        } else {
            MAX_ITEMS - 1
        };
        self.needs_load = true;
    }

    /// Enter the screen, or come back to it.
    pub fn on_enter(&mut self, bat_pct: u8) -> (p: HomePaint)
        ensures
            *final(self) == (HomeApp { selected: 0, bat_pct, needs_load: true, ..*old(self) }),
            p == HomePaint::Content,
    {
        self.selected = 0;
        self.bat_pct = bat_pct;
        self.needs_load = true;
        HomePaint::Content
    }

    /// Move the selection: which items change.
    pub fn move_selection(&mut self, forward: bool) -> (p: HomePaint)
        requires
            old(self).wf(),
        ensures
            ({
                let to = stepped(
                    old(self).selected as int,
                    old(self).item_count as int,
                    forward,
                );
                &&& *final(self) == (HomeApp { selected: to as usize, ..*old(self) })
                &&& p == (if to == old(self).selected {
                    HomePaint::Nothing
                } else {
                    HomePaint::Items(old(self).selected, to as usize)
                })
            }),
            final(self).wf(),
    {
        let was: usize = self.selected;
        let n: usize = self.item_count;
        let to: usize = if forward {
            (was + 1) % n
        } else {
            (was + n - 1) % n
        };
        proof {
            if !forward {
                vstd::arithmetic::div_mod::lemma_mod_add_multiples_vanish(was - 1, n as int);
            }
        }
        if to == was {
            return HomePaint::Nothing;
        }
        self.selected = to;
        HomePaint::Items(was, to)
    }

    /// What opening the selected item opens.
    pub open spec fn selected_opens(self) -> Opens {
        if self.selected == 0 {
            if self.carries() {
                Opens::Card { tag: 0 }
            } else {
                Opens::Library
            }
        } else if self.selected <= self.rows@.len() && self.rows@[self.selected
            - 1].filename@.len() > 0 {
            Opens::Row((self.selected - 1) as usize)
        } else {
            Opens::Nothing
        }
    }

    pub fn open_book(&self) -> (o: Opens)
        requires
            self.wf(),
        ensures
            o == self.selected_opens(),
    {
        if self.selected == 0 {
            if self.has_recent() {
                Opens::Card { tag: 0 }
            } else {
                Opens::Library
            }
        } else if self.selected <= self.rows.len() && self.rows[self.selected - 1].filename.len()
            > 0 {
            Opens::Row(self.selected - 1)
        } else {
            Opens::Nothing
        }
    }

    /// Open the book on the card.
    pub fn open_recent(&self, tag: u8) -> (o: Opens)
        ensures
            o == (if self.carries() {
                Opens::Card { tag }
            } else {
                Opens::Nothing
            }),
    {
        if self.has_recent() {
            Opens::Card { tag }
        } else {
            Opens::Nothing
        }
    }

    /// The screen after a button: what it opens, and what to paint.
    pub open spec fn pressed(self, ev: ActionEvent) -> (HomeApp, Opens, HomePaint) {
        let n = self.item_count as int;
        let next = ev == ActionEvent::Press(Action::Next) || ev == ActionEvent::Repeat(
            Action::Next,
        );
        let prev = ev == ActionEvent::Press(Action::Prev) || ev == ActionEvent::Repeat(
            Action::Prev,
        );
        let to = if next {
            stepped(self.selected as int, n, true)
        } else if prev {
            stepped(self.selected as int, n, false)
        } else {
            self.selected as int
        };
        (
            HomeApp { selected: to as usize, ..self },
            if ev == ActionEvent::Press(Action::Select) {
                self.selected_opens()
            } else {
                Opens::Nothing
            },
            if to == self.selected {
                HomePaint::Nothing
            } else {
                HomePaint::Items(self.selected, to as usize)
            },
        )
    }

    /// A button was pressed.
    pub fn on_event(&mut self, ev: ActionEvent) -> (r: (Opens, HomePaint))
        requires
            old(self).wf(),
        ensures
            final(self).wf(),
            (*final(self), r.0, r.1) == old(self).pressed(ev),
    {
        match ev {
            ActionEvent::Press(Action::Next) => (Opens::Nothing, self.move_selection(true)),
            ActionEvent::Repeat(Action::Next) => (Opens::Nothing, self.move_selection(true)),
            ActionEvent::Press(Action::Prev) => (Opens::Nothing, self.move_selection(false)),
            ActionEvent::Repeat(Action::Prev) => (Opens::Nothing, self.move_selection(false)),
            ActionEvent::Press(Action::Select) => (self.open_book(), HomePaint::Nothing),
            _ => (Opens::Nothing, HomePaint::Nothing),
        }
    }

    /// What a row of the quick menu opens.
    pub open spec fn row_opens(self, id: u8) -> Opens {
        if self.carries() && id == QA_CONTINUE {
            Opens::Card { tag: 0 }
        } else if self.carries() && id == QA_CONTENTS {
            Opens::Card { tag: MSG_TAG_OPEN_CONTENTS }
        } else {
            Opens::Nothing
        }
    }

    /// A row of the quick menu was chosen.
    pub fn on_quick_trigger(&self, id: u8) -> (o: Opens)
        ensures
            o == self.row_opens(id),
    {
        if id == QA_CONTINUE {
            self.open_recent(0)
        } else if id == QA_CONTENTS {
            self.open_recent(MSG_TAG_OPEN_CONTENTS)
        } else {
            Opens::Nothing
        }
    }

    /// Seconds that the rest of the book on the card takes.
    pub fn time_left_secs(&self) -> (r: Option<u32>)
        ensures
            r == time_left(self.card.progress, self.card.stats_time),
    {
        let pct: u8 = self.card.progress;
        if pct < 5 || pct >= 100 || self.card.stats_time < 300 {
            return None;
        }
        let secs: u64 = self.card.stats_time as u64;
        let rest: u64 = (100 - pct) as u64;
        proof {
            assert(0 <= secs * rest <= 0xffff_ffff * 100) by (nonlinear_arith)
                requires
                    0 <= secs <= 0xffff_ffff,
                    0 <= rest <= 100,
            ;
        }
        let mut left: u64 = secs * rest;
        if left > 0xffff_ffff {
            left = 0xffff_ffff;
        }
        Some((left / pct as u64) as u32)
    }
}

// ── loading ───────────────────────────────────────────────────────

/// The first `cap` bytes.
fn copy_capped(src: &[u8], cap: usize) -> (v: Vec<u8>)
    ensures
        v@ == recent::capped(src@, cap as int),
{
    if src.len() < cap {
        bytes::copied(src)
    } else {
        let part: &[u8] = vstd::slice::slice_subrange(src, 0, cap);
        proof {
            assert(part@ =~= src@.take(cap as int));
        }
        bytes::copied(part)
    }
}

/// The card of a record of the last book, and the book's own record.
pub open spec fn card_is(c: CardBook, r: recent::Recent, rec: BookRecord, has_cover: bool) -> bool {
    &&& c.filename@ == recent::capped(r.filename, recent::FILENAME_CAP as int)
    &&& c.title@ == recent::capped(r.title, recent::TITLE_CAP as int)
    &&& c.author@ == recent::capped(r.author, recent::AUTHOR_CAP as int)
    &&& c.filename@.len() > 0 ==> {
        &&& c.stats_time == rec.stats.time_secs
        &&& c.chapter == (match rec.pos {
            Some(p) => p.chapter_no,
            None => 0,
        })
        &&& c.chapter_count == (match rec.pos {
            Some(p) => p.chapter_count,
            None => 0,
        })
        &&& c.progress == (if r.progress > 0 {
            r.progress
        } else {
            match rec.pos {
                Some(p) => p.progress_pct,
                None => 0,
            }
        })
        &&& c.has_cover == has_cover
    }
    &&& c.filename@.len() == 0 ==> c.stats_time == 0 && c.chapter == 0 && c.chapter_count == 0
        && !c.has_cover && c.progress == r.progress
}

impl HomeApp {
    /// Fill the card from the record of the last book, which names its file; an
    /// empty or missing one leaves the card without a book.
    pub fn parse_recent(&mut self, data: &[u8])
        ensures
            final(self).card.filename@ == recent::capped(
                recent::decoded(data@).filename,
                recent::FILENAME_CAP as int,
            ),
            final(self).card.title@ == recent::capped(
                recent::decoded(data@).title,
                recent::TITLE_CAP as int,
            ),
            final(self).card.author@ == recent::capped(
                recent::decoded(data@).author,
                recent::AUTHOR_CAP as int,
            ),
            final(self).card.progress == recent::decoded(data@).progress,
            *final(self) == (HomeApp {
                card: CardBook {
                    filename: final(self).card.filename,
                    title: final(self).card.title,
                    author: final(self).card.author,
                    progress: final(self).card.progress,
                    ..old(self).card
                },
                ..*old(self)
            }),
    {
        let rec: RecentRecord = RecentRecord::decode(data);
        self.card.filename = copy_capped(rec.filename, recent::FILENAME_CAP);
        self.card.title = copy_capped(rec.title, recent::TITLE_CAP);
        self.card.author = copy_capped(rec.author, recent::AUTHOR_CAP);
        self.card.progress = rec.progress;
    }

    /// Load the card: `data` is the record of the last book, `rec` the book's
    /// own record, and `cover_h` the height of its stored cover. A cover that
    /// is higher than the card is left out.
    pub fn load_card(&mut self, data: &[u8], rec: Option<BookRecord>, cover_h: Option<u16>)
        ensures
            card_is(
                final(self).card,
                recent::decoded(data@),
                match rec {
                    Some(r) => r,
                    None => BookRecord::spec_empty(),
                },
                cover_h matches Some(h) && h <= CARD_THUMB_H,
            ),
            *final(self) == (HomeApp { card: final(self).card, ..*old(self) }),
    {
        self.parse_recent(data);
        if self.card.filename.len() > 0 {
            let r: BookRecord = match rec {
                Some(r) => r,
                None => BookRecord::empty(),
            };
            self.card.stats_time = r.stats.time_secs;
            self.card.chapter = match r.pos {
                Some(p) => p.chapter_no,
                None => 0,
            };
            self.card.chapter_count = match r.pos {
                Some(p) => p.chapter_count,
                None => 0,
            };
            if self.card.progress == 0 {
                self.card.progress = match r.pos {
                    Some(p) => p.progress_pct,
                    None => 0,
                };
            }
            self.card.has_cover = match cover_h {
                Some(h) => h <= CARD_THUMB_H,
                None => false,
            };
        } else {
            self.card.stats_time = 0;
            self.card.chapter = 0;
            self.card.chapter_count = 0;
            self.card.has_cover = false;
        }
    }
}

/// The books of the list: of the marked ones, newest first, those that are not
/// on the card.
pub open spec fn listed(names: Seq<Vec<u8>>, card: Seq<u8>, n: int) -> Seq<int>
    decreases n,
{
    if n <= 0 {
        Seq::empty()
    } else {
        let before = listed(names, card, n - 1);
        if before.len() < MAX_RECENT_ROWS && names[n - 1]@ != card {
            before.push(n - 1)
        } else {
            before
        }
    }
}

/// The position of a row: none for a book whose chapters are not known.
pub open spec fn row_position(pos: Option<Position>) -> Option<(u32, u32)> {
    match pos {
        Some(p) => if p.chapter_count > 0 {
            Some((p.chapter_no as u32, p.chapter_count as u32))
        } else {
            None
        },
        None => None,
    }
}

impl HomeApp {
    /// Which of the marked books, newest first, make the list.
    pub fn choose_rows(&self, names: &Vec<Vec<u8>>) -> (out: Vec<usize>)
        ensures
            out@.map_values(|i: usize| i as int) == listed(
                names@,
                self.card.filename@,
                names@.len() as int,
            ),
            out@.len() <= MAX_RECENT_ROWS,
    {
        let mut out: Vec<usize> = Vec::new();
        let mut i: usize = 0;
        proof {
            assert(out@.map_values(|i: usize| i as int) =~= listed(
                names@,
                self.card.filename@,
                0,
            ));
        }
        while i < names.len()
            invariant
                i <= names@.len(),
                out@.len() <= MAX_RECENT_ROWS,
                out@.map_values(|i: usize| i as int) == listed(
                    names@,
                    self.card.filename@,
                    i as int,
                ),
            decreases names@.len() - i,
        {
            if out.len() < MAX_RECENT_ROWS && !bytes::same(
                names[i].as_slice(),
                self.card.filename.as_slice(),
            ) {
                let ghost before = out@;
                out.push(i);
                proof {
                    assert(out@.map_values(|i: usize| i as int) =~= before.map_values(
                        |i: usize| i as int,
                    ).push(i as int));
                }
            }
            i = i + 1;
        }
        out
    }

    /// A book of the list.
    pub fn make_row(filename: Vec<u8>, title: Vec<u8>, author: Vec<u8>, pos: Option<Position>) -> (r:
        RecentRow)
        ensures
            r.filename == filename,
            r.title == title,
            r.author == author,
            r.progress_pct == (match pos {
                Some(p) => p.progress_pct,
                None => 0,
            }),
            r.position == row_position(pos),
    {
        let position: Option<(u32, u32)> = match pos {
            Some(p) => if p.chapter_count > 0 {
                Some((p.chapter_no as u32, p.chapter_count as u32))
            } else {
                None
            },
            None => None,
        };
        let progress_pct: u8 = match pos {
            Some(p) => p.progress_pct,
            None => 0,
        };
        RecentRow { filename, title, author, progress_pct, position }
    }

    /// Take over a new list: a selection that is not on it goes to the card.
    pub fn set_rows(&mut self, rows: Vec<RecentRow>)
        requires
            rows@.len() <= MAX_RECENT_ROWS,
        ensures
            final(self).wf(),
            final(self).selected < final(self).item_count,
            final(self).rows == rows,
            final(self).selected == (if old(self).selected <= rows@.len() {
                old(self).selected
            } else {
                0
            }),
            *final(self) == (HomeApp {
                rows,
                item_count: final(self).item_count,
                selected: final(self).selected,
                ..*old(self)
            }),
    {
        self.item_count = 1 + rows.len();
        self.rows = rows;
        if self.selected >= self.item_count {
            self.selected = 0;
        }
    }

    /// The end of a load that started with `old_count` items: what to paint.
    pub fn loaded(&mut self, old_count: usize) -> (r: (BgOutcome, HomePaint))
        ensures
            *final(self) == (HomeApp { needs_load: false, ..*old(self) }),
            r.0 == (BgOutcome::Progress { more: false }),
            r.1 == (if old(self).item_count != old_count {
                HomePaint::Full
            } else {
                HomePaint::Content
            }),
    {
        self.needs_load = false;
        (
            BgOutcome::Progress { more: false },
            if self.item_count != old_count {
                HomePaint::Full
            } else {
                HomePaint::Content
            },
        )
    }
}

/// The list has no book twice and not the one on the card, keeps the order of
/// the marked books, and is as long as it can be.
pub proof fn law_list_follows_the_marks(names: Seq<Vec<u8>>, card: Seq<u8>, n: int)
    requires
        0 <= n <= names.len(),
    ensures
        ({
            let l = listed(names, card, n);
            &&& l.len() <= MAX_RECENT_ROWS
            &&& forall|k: int| 0 <= k < l.len() ==> 0 <= (#[trigger] l[k]) < n && names[l[k]]@ != card
            &&& forall|j: int, k: int| 0 <= j < k < l.len() ==> (#[trigger] l[j]) < (#[trigger] l[k])
            &&& l.len() < MAX_RECENT_ROWS ==> forall|i: int|
                0 <= i < n && (#[trigger] names[i])@ != card ==> l.contains(i)
        }),
    decreases n,
{
    if n > 0 {
        law_list_follows_the_marks(names, card, n - 1);
        let before = listed(names, card, n - 1);
        let l = listed(names, card, n);
        if l.len() < MAX_RECENT_ROWS {
            assert forall|i: int| 0 <= i < n && (#[trigger] names[i])@ != card implies l.contains(
                i,
            ) by {
                if i < n - 1 {
                    assert(before.contains(i));
                    let k = choose|k: int| 0 <= k < before.len() && before[k] == i;
                    assert(l[k] == i);
                } else {
                    assert(l[before.len() as int] == i);
                }
            }
        }
    }
}

// ── what the card says ────────────────────────────────────────────

/// A length of time: hours and minutes, or minutes alone.
pub open spec fn duration(secs: u32) -> Seq<char> {
    let hours = secs / 3600;
    let mins = (secs % 3600) / 60;
    if hours > 0 {
        ui::num(hours as nat) + "h "@ + ui::num(mins as nat) + "m"@
    } else {
        ui::num(mins as nat) + "m"@
    }
}

/// Append a length of time.
pub fn write_duration(out: &mut String, secs: u32)
    ensures
        final(out)@ == old(out)@ + duration(secs),
{
    let hours: u32 = secs / 3600;
    let mins: u32 = (secs % 3600) / 60;
    if hours > 0 {
        ui::push_num(out, hours as u64);
        out.append("h ");
    }
    ui::push_num(out, mins as u64);
    out.append("m");
    proof {
        assert(out@ =~= old(out)@ + duration(secs));
    }
}

/// Where the book on the card is.
pub open spec fn place_caption(c: CardBook) -> Seq<char> {
    if c.chapter_count > 0 {
        "chapter "@ + ui::num(c.chapter as nat) + " of "@ + ui::num(c.chapter_count as nat) + (
        if c.progress > 0 {
            " \u{00B7} "@ + ui::num(c.progress as nat) + "%"@
        } else {
            Seq::empty()
        })
    } else if c.progress > 0 {
        ui::num(c.progress as nat) + "% read"@
    } else {
        Seq::empty()
    }
}

/// What is left of the book on the card, or how long it was read where that
/// cannot be told.
pub open spec fn time_caption(c: CardBook) -> Seq<char> {
    match time_left(c.progress, c.stats_time) {
        Some(secs) => duration(secs) + " left"@,
        None => if c.stats_time > 0 {
            duration(c.stats_time)
        } else {
            Seq::empty()
        },
    }
}

/// What an empty card says of the library.
pub open spec fn hint_caption(books: u16) -> Seq<char> {
    if books == 0 {
        "No books on the card"@
    } else if books == 1 {
        "One book is waiting in the library"@
    } else {
        ui::num(books as nat) + " books are waiting in the library"@
    }
}

/// What the menu says of the book on the card.
pub open spec fn menu_caption(author: Seq<char>, progress: u8) -> Seq<char> {
    (if author.len() > 0 {
        author + " \u{00B7} "@
    } else {
        Seq::empty()
    }) + ui::num(progress as nat) + "% read"@
}

impl HomeApp {
    /// Where the book on the card is.
    pub fn place_text(&self) -> (s: String)
        ensures
            s@ == place_caption(self.card),
    {
        let mut s: String = String::new();
        if self.card.chapter_count > 0 {
            s.append("chapter ");
            ui::push_num(&mut s, self.card.chapter as u64);
            s.append(" of ");
            ui::push_num(&mut s, self.card.chapter_count as u64);
            if self.card.progress > 0 {
                s.append(" \u{00B7} ");
                ui::push_num(&mut s, self.card.progress as u64);
                s.append("%");
            }
        } else if self.card.progress > 0 {
            ui::push_num(&mut s, self.card.progress as u64);
            s.append("% read");
        }
        proof {
            assert(s@ =~= place_caption(self.card));
        }
        s
    }

    /// What is left of the book on the card.
    pub fn time_text(&self) -> (s: String)
        ensures
            s@ == time_caption(self.card),
    {
        let mut s: String = String::new();
        match self.time_left_secs() {
            Some(secs) => {
                write_duration(&mut s, secs);
                s.append(" left");
            },
            None => if self.card.stats_time > 0 {
                write_duration(&mut s, self.card.stats_time);
            },
        }
        proof {
            assert(s@ =~= time_caption(self.card));
        }
        s
    }

    /// What an empty card says of the library.
    pub fn hint_text(&self) -> (s: String)
        ensures
            s@ == hint_caption(self.library_count),
    {
        if self.library_count == 0 {
            "No books on the card".to_owned()
        } else if self.library_count == 1 {
            "One book is waiting in the library".to_owned()
        } else {
            let mut s: String = String::new();
            ui::push_num(&mut s, self.library_count as u64);
            s.append(" books are waiting in the library");
            proof {
                assert(s@ =~= hint_caption(self.library_count));
            }
            s
        }
    }

    /// What the menu says of the book on the card; `author` is its author.
    pub fn menu_meta(&self, author: &str) -> (s: String)
        ensures
            s@ == (if self.carries() {
                menu_caption(author@, self.card.progress)
            } else {
                Seq::empty()
            }),
    {
        let mut s: String = String::new();
        if self.has_recent() {
            if !author.is_empty() {
                s.append(author);
                s.append(" \u{00B7} ");
            }
            ui::push_num(&mut s, self.card.progress as u64);
            s.append("% read");
        }
        proof {
            if self.carries() {
                assert(s@ =~= menu_caption(author@, self.card.progress));
            }
        }
        s
    }

    /// The name of the book on the card: its title, or else its file.
    pub fn recent_display_title(&self) -> (n: &Vec<u8>)
        ensures
            n@ == (if self.card.title@.len() > 0 {
                self.card.title@
            } else {
                self.card.filename@
            }),
    {
        if self.card.title.len() > 0 {
            &self.card.title
        } else {
            &self.card.filename
        }
    }

    /// What heads the menu: the book on the card, or else the screen's own
    /// name.
    pub fn menu_title(&self) -> (n: Option<&Vec<u8>>)
        ensures
            match n {
                Some(t) => self.carries() && t@ == (if self.card.title@.len() > 0 {
                    self.card.title@
                } else {
                    self.card.filename@
                }),
                None => !self.carries(),
            },
    {
        if self.has_recent() {
            Some(self.recent_display_title())
        } else {
            None
        }
    }

    /// The rows that the home screen adds to the quick menu: to go on with the
    /// book on the card, and its contents.
    pub fn quick_actions(&self) -> (rows: Vec<HomeAction>)
        ensures
            rows@ == (if self.carries() {
                seq![
                    HomeAction { id: QA_CONTINUE, percent: Some(self.card.progress) },
                    HomeAction { id: QA_CONTENTS, percent: None },
                ]
            } else {
                Seq::empty()
            }),
    {
        let mut rows: Vec<HomeAction> = Vec::new();
        if self.has_recent() {
            rows.push(HomeAction { id: QA_CONTINUE, percent: Some(self.card.progress) });
            rows.push(HomeAction { id: QA_CONTENTS, percent: None });
        }
        proof {
            if self.carries() {
                assert(rows@ =~= seq![
                    HomeAction { id: QA_CONTINUE, percent: Some(self.card.progress) },
                    HomeAction { id: QA_CONTENTS, percent: None },
                ]);
            }
        }
        rows
    }
}

impl RecentRow {
    /// The name of a row's book: its title, or else its file.
    pub fn display_name(&self) -> (n: &Vec<u8>)
        ensures
            n@ == (if self.title@.len() > 0 {
                self.title@
            } else {
                self.filename@
            }),
    {
        if self.title.len() > 0 {
            &self.title
        } else {
            &self.filename
        }
    }

    /// The value at the end of a row: chapter and chapters.
    pub fn value_text(&self) -> (s: String)
        ensures
            s@ == (match self.position {
                Some((done, total)) => ui::num(done as nat) + " / "@ + ui::num(total as nat),
                None => Seq::empty(),
            }),
    {
        let mut s: String = String::new();
        if let Some((done, total)) = self.position {
            ui::push_num(&mut s, done as u64);
            s.append(" / ");
            ui::push_num(&mut s, total as u64);
            proof {
                assert(s@ =~= ui::num(done as nat) + " / "@ + ui::num(total as nat));
            }
        }
        s
    }
}

// ── where the card's parts go ─────────────────────────────────────

pub const CARD_PAD: u16 = 12;

/// The card is as high as a cover and its padding.
pub const CARD_H: u16 = 184;

/// Where the card stands.
#[derive(Clone, Copy, Debug, PartialEq, Eq, Structural)]
pub struct CardFrame {
    pub x: u16,
    pub y: u16,
    pub w: u16,
}

/// Sizes of what is on the card: heights of its title and its small lines, of
/// its bar, and the gap behind its cover.
#[derive(Clone, Copy, Debug, PartialEq, Eq, Structural)]
pub struct CardSizes {
    pub title_h: u16,
    pub line_h: u16,
    pub bar_h: u16,
    pub gap: u16,
}

/// Where the parts of the card go.
#[derive(Clone, Copy, Debug, PartialEq, Eq)]
pub struct CardLayout {
    /// top left of the cover
    pub cover: Option<(u16, u16)>,
    pub title: Region,
    pub author: Region,
    pub bar: Region,
    pub meta: Region,
}

/// The card and its parts can be told in 16 bits, and its lines fit it.
pub open spec fn card_fits(f: CardFrame, z: CardSizes) -> bool {
    &&& 2 * CARD_PAD <= f.w
    &&& f.x + f.w <= 65535
    &&& f.x + CARD_PAD + CARD_THUMB_W + z.gap <= 65535
    &&& f.y + CARD_H <= 65535
    &&& f.y + CARD_PAD + 16 + z.title_h + 6 <= 65535
    &&& z.bar_h + z.line_h + CARD_PAD + 6 <= CARD_H
}

/// The parts of the card: a cover leaves the text a column on its right;
/// without one the text has the whole width.
pub open spec fn card_layout_of(f: CardFrame, z: CardSizes, cover: Option<(u16, u16)>) -> CardLayout {
    let inner = f.x + CARD_PAD;
    let (x, w) = match cover {
        Some(_) => {
            let tx = inner + CARD_THUMB_W + z.gap;
            (tx, ui::less(f.x + f.w - CARD_PAD, tx))
        },
        None => (inner, f.w - 2 * CARD_PAD),
    };
    let title_y = f.y + CARD_PAD + 16;
    let bar_y = f.y + CARD_H - CARD_PAD - z.bar_h - z.line_h - 6;
    CardLayout {
        cover: match cover {
            Some((cw, ch)) => Some(
                (
                    (inner + ui::less(CARD_THUMB_W as int, cw as int) / 2) as u16,
                    (f.y + CARD_PAD + ui::less(CARD_THUMB_H as int, ch as int) / 2) as u16,
                ),
            ),
            None => None,
        },
        title: Region { x: x as u16, y: title_y as u16, w: w as u16, h: z.title_h },
        author: Region {
            x: x as u16,
            y: (title_y + z.title_h + 6) as u16,
            w: w as u16,
            h: z.line_h,
        },
        bar: Region { x: x as u16, y: bar_y as u16, w: w as u16, h: z.bar_h },
        meta: Region { x: x as u16, y: (bar_y + z.bar_h + 4) as u16, w: w as u16, h: z.line_h },
    }
}

/// Lay the card out; `cover` is the size of the cover, if there is one.
pub fn card_layout(f: CardFrame, z: CardSizes, cover: Option<(u16, u16)>) -> (l: CardLayout)
    requires
        card_fits(f, z),
    ensures
        l == card_layout_of(f, z, cover),
{
    let inner: u16 = f.x + CARD_PAD;
    let mut x: u16 = inner;
    let mut w: u16 = f.w - 2 * CARD_PAD;
    let mut at: Option<(u16, u16)> = None;
    if let Some((cw, ch)) = cover {
        at = Some(
            (
                inner + CARD_THUMB_W.saturating_sub(cw) / 2,
                f.y + CARD_PAD + CARD_THUMB_H.saturating_sub(ch) / 2,
            ),
        );
        x = inner + CARD_THUMB_W + z.gap;
        w = (f.x + f.w - CARD_PAD).saturating_sub(x);
    }
    let title_y: u16 = f.y + CARD_PAD + 16;
    let bar_y: u16 = f.y + CARD_H - CARD_PAD - z.bar_h - z.line_h - 6;
    CardLayout {
        cover: at,
        title: Region { x, y: title_y, w, h: z.title_h },
        author: Region { x, y: title_y + z.title_h + 6, w, h: z.line_h },
        bar: Region { x, y: bar_y, w, h: z.bar_h },
        meta: Region { x, y: bar_y + z.bar_h + 4, w, h: z.line_h },
    }
}

/// The card has room for the cover that it shows, and its text does not reach
/// into the cover nor over the card's edge.
pub proof fn law_cards_hold_their_covers(f: CardFrame, z: CardSizes, cw: u16, ch: u16)
    requires
        card_fits(f, z),
        cw <= CARD_THUMB_W,
        ch <= CARD_THUMB_H,
        f.w >= 2 * CARD_PAD + CARD_THUMB_W + z.gap,
    ensures
        ({
            let l = card_layout_of(f, z, Some((cw, ch)));
            &&& l.cover matches Some((x, y)) && f.x + CARD_PAD <= x && x + cw <= l.title.x && f.y
                + CARD_PAD <= y && y + ch <= f.y + CARD_H - CARD_PAD
            &&& l.title.x + l.title.w <= f.x + f.w - CARD_PAD
            &&& l.meta.y + l.meta.h <= f.y + CARD_H - CARD_PAD
        }),
{
}

// ── the screen ────────────────────────────────────────────────────

/// Length of the rule between the card and the list.
pub const RULE_W: u16 = 24;

/// Where the parts of the screen stand: the card and the sizes on it, the
/// height of the title of an empty card, and the line of the rule.
#[derive(Clone, Copy, Debug, PartialEq, Eq, Structural)]
pub struct HomeFrame {
    pub card: CardFrame,
    pub sizes: CardSizes,
    pub empty_title_h: u16,
    pub rule: Region,
}

/// A text of the card.
#[derive(Clone, Copy, Debug, PartialEq, Eq, Structural)]
pub enum CardText {
    Title,
    Author,
    /// where the book is
    Place,
    /// what is left of it
    Time,
    /// no book was opened yet
    Nothing,
    /// what the library holds
    Hint,
}

#[derive(Clone, Copy, Debug, PartialEq, Eq, Structural)]
pub enum TextAlign {
    TopLeft,
    Center,
    CenterRight,
}

/// Something to draw.
#[derive(Clone, Copy, Debug, PartialEq, Eq, Structural)]
pub enum HomeOp {
    Rule { x: u16, y: u16, w: u16 },
    /// the frame of the card; the selected one is filled
    Card { filled: bool },
    Cover { x: u16, y: u16 },
    Text { text: CardText, region: Region, align: TextAlign },
    /// the bar of the progress in percent, and how many of its pixels are filled
    Bar { region: Region, percent: u8, done: u16 },
    Row { slot: usize, selected: bool },
}

/// Pixels of a bar of `w` that are filled; no more than all of them.
pub open spec fn bar_fill(w: u16, percent: u8) -> int {
    w * (if percent < 100 {
        percent as int
    } else {
        100
    }) / 100
}

fn filled_part(w: u16, percent: u8) -> (n: u16)
    ensures
        n == bar_fill(w, percent),
        n <= w,
{
    let p: u32 = if percent < 100 {
        percent as u32
    } else {
        100
    };
    proof {
        assert(0 <= w * p <= w * 100) by (nonlinear_arith)
            requires
                0 <= p <= 100,
                w >= 0,
        ;
    }
    (w as u32 * p / 100) as u16
}

pub open spec fn frame_fits(f: HomeFrame) -> bool {
    &&& card_fits(f.card, f.sizes)
    &&& f.empty_title_h + f.sizes.line_h <= CARD_H
    &&& f.card.y + CARD_H + 2 <= 65535
    &&& f.rule.x + f.rule.w <= 65535
}

/// The rule over the list, if there is one.
pub open spec fn rule_ops(h: HomeApp, f: HomeFrame) -> Seq<HomeOp> {
    if h.rows@.len() > 0 {
        seq![
            HomeOp::Rule {
                x: (f.rule.x + ui::less(f.rule.w as int, RULE_W as int) / 2) as u16,
                y: f.rule.y,
                w: RULE_W,
            },
        ]
    } else {
        Seq::empty()
    }
}

/// What is on the card of a book. Without a cover its text is in the middle,
/// and what is left of the book is not shown.
pub open spec fn book_ops(c: CardBook, f: HomeFrame, cover: Option<(u16, u16)>) -> Seq<HomeOp> {
    let l = card_layout_of(f.card, f.sizes, cover);
    let align = if cover is Some {
        TextAlign::TopLeft
    } else {
        TextAlign::Center
    };
    let text = |text: CardText, region: Region, align: TextAlign|
        HomeOp::Text { text, region, align };
    (match l.cover {
        Some((x, y)) => seq![HomeOp::Cover { x, y }],
        None => Seq::empty(),
    }) + seq![text(CardText::Title, l.title, align)] + (if c.author@.len() > 0 {
        seq![text(CardText::Author, l.author, align)]
    } else {
        Seq::empty()
    }) + seq![
        HomeOp::Bar {
            region: l.bar,
            percent: c.progress,
            done: bar_fill(l.bar.w, c.progress) as u16,
        },
    ] + (if place_caption(c).len() > 0 {
        seq![text(CardText::Place, l.meta, align)]
    } else {
        Seq::empty()
    }) + (if time_caption(c).len() > 0 && cover is Some {
        seq![text(CardText::Time, l.meta, TextAlign::CenterRight)]
    } else {
        Seq::empty()
    })
}

/// What is on an empty card: that it is, and what the library holds.
pub open spec fn empty_ops(f: HomeFrame) -> Seq<HomeOp> {
    let x = (f.card.x + CARD_PAD) as u16;
    let w = (f.card.w - 2 * CARD_PAD) as u16;
    let top = f.card.y + (CARD_H - f.empty_title_h - f.sizes.line_h) / 2;
    seq![
        HomeOp::Text {
            text: CardText::Nothing,
            region: Region { x, y: top as u16, w, h: f.empty_title_h },
            align: TextAlign::Center,
        },
        HomeOp::Text {
            text: CardText::Hint,
            region: Region { x, y: (top + f.empty_title_h + 2) as u16, w, h: f.sizes.line_h },
            align: TextAlign::Center,
        },
    ]
}

/// The rows of the list.
pub open spec fn row_ops(h: HomeApp) -> Seq<HomeOp> {
    Seq::new(
        h.rows@.len(),
        |i: int| HomeOp::Row { slot: i as usize, selected: h.selected == i + 1 },
    )
}

/// The screen: the rule, the card and the list.
pub open spec fn home_ops(h: HomeApp, f: HomeFrame, cover: Option<(u16, u16)>) -> Seq<HomeOp> {
    rule_ops(h, f) + seq![HomeOp::Card { filled: h.selected == 0 }] + (if h.carries() {
        book_ops(h.card, f, cover)
    } else {
        empty_ops(f)
    }) + row_ops(h)
}

impl HomeApp {
    fn draw_book(&self, f: HomeFrame, cover: Option<(u16, u16)>, ops: &mut Vec<HomeOp>)
        requires
            frame_fits(f),
        ensures
            final(ops)@ == old(ops)@ + book_ops(self.card, f, cover),
    {
        let l: CardLayout = card_layout(f.card, f.sizes, cover);
        let align: TextAlign = if cover.is_some() {
            TextAlign::TopLeft
        } else {
            TextAlign::Center
        };
        if let Some((x, y)) = l.cover {
            ops.push(HomeOp::Cover { x, y });
        }
        ops.push(HomeOp::Text { text: CardText::Title, region: l.title, align });
        if self.card.author.len() > 0 {
            ops.push(HomeOp::Text { text: CardText::Author, region: l.author, align });
        }
        let percent: u8 = self.card.progress;
        ops.push(HomeOp::Bar { region: l.bar, percent, done: filled_part(l.bar.w, percent) });
        if !self.place_text().as_str().is_empty() {
            ops.push(HomeOp::Text { text: CardText::Place, region: l.meta, align });
        }
        if !self.time_text().as_str().is_empty() && cover.is_some() {
            ops.push(
                HomeOp::Text {
                    text: CardText::Time,
                    region: l.meta,
                    align: TextAlign::CenterRight,
                },
            );
        }
        proof {
            assert(ops@ =~= old(ops)@ + book_ops(self.card, f, cover));
        }
    }

    fn draw_empty(&self, f: HomeFrame, ops: &mut Vec<HomeOp>)
        requires
            frame_fits(f),
        ensures
            final(ops)@ == old(ops)@ + empty_ops(f),
    {
        let x: u16 = f.card.x + CARD_PAD;
        let w: u16 = f.card.w - 2 * CARD_PAD;
        let top: u16 = f.card.y + (CARD_H - f.empty_title_h - f.sizes.line_h) / 2;
        ops.push(
            HomeOp::Text {
                text: CardText::Nothing,
                region: Region { x, y: top, w, h: f.empty_title_h },
                align: TextAlign::Center,
            },
        );
        ops.push(
            HomeOp::Text {
                text: CardText::Hint,
                region: Region { x, y: top + f.empty_title_h + 2, w, h: f.sizes.line_h },
                align: TextAlign::Center,
            },
        );
        proof {
            assert(ops@ =~= old(ops)@ + empty_ops(f));
        }
    }

    /// What the screen shows, in the order in which it is drawn; `cover` is the
    /// size of the cover of the book on the card, if there is one.
    pub fn draw(&self, f: HomeFrame, cover: Option<(u16, u16)>) -> (ops: Vec<HomeOp>)
        requires
            frame_fits(f),
        ensures
            ops@ == home_ops(*self, f, cover),
    {
        let mut ops: Vec<HomeOp> = Vec::new();
        if self.rows.len() > 0 {
            ops.push(
                HomeOp::Rule {
                    x: f.rule.x + f.rule.w.saturating_sub(RULE_W) / 2,
                    y: f.rule.y,
                    w: RULE_W,
                },
            );
        }
        proof {
            assert(ops@ =~= rule_ops(*self, f));
        }
        ops.push(HomeOp::Card { filled: self.selected == 0 });
        if self.has_recent() {
            self.draw_book(f, cover, &mut ops);
        } else {
            self.draw_empty(f, &mut ops);
        }
        let ghost before = ops@;
        let mut i: usize = 0;
        while i < self.rows.len()
            invariant
                i <= self.rows@.len(),
                ops@ =~= before + row_ops(*self).take(i as int),
            decreases self.rows@.len() - i,
        {
            ops.push(HomeOp::Row { slot: i, selected: self.selected > 0 && self.selected - 1 == i });
            i = i + 1;
        }
        proof {
            assert(row_ops(*self).take(i as int) =~= row_ops(*self));
            assert(ops@ =~= home_ops(*self, f, cover));
        }
        ops
    }
}

// ── sleep ─────────────────────────────────────────────────────────

impl HomeApp {
    /// File of the book on the card.
    pub fn recent_filename(&self) -> (n: &[u8])
        ensures
            n@ == self.card.filename@,
    {
        self.card.filename.as_slice()
    }

    /// The name of the first book of the list.
    pub fn next_recent_title(&self) -> (r: Option<&Vec<u8>>)
        ensures
            r is Some == (self.rows@.len() > 0),
            r matches Some(n) ==> n@ == (if self.rows@[0].title@.len() > 0 {
                self.rows@[0].title@
            } else {
                self.rows@[0].filename@
            }),
    {
        if self.rows.len() > 0 {
            Some(self.rows[0].display_name())
        } else {
            None
        }
    }

    /// The progress and the chapter on the card while the device sleeps.
    pub open spec fn sleep_card(self) -> Option<(u8, Option<(u16, u16)>)> {
        if self.carries() {
            Some(
                (
                    self.card.progress,
                    if self.card.chapter_count > 0 && self.card.chapter > 0 {
                        Some((self.card.chapter, self.card.chapter_count))
                    } else {
                        None
                    },
                ),
            )
        } else {
            None
        }
    }

    /// What the card says of the book while the device sleeps: its progress,
    /// and its chapter where that is known.
    pub fn fill_sleep_card(&self) -> (r: Option<(u8, Option<(u16, u16)>)>)
        ensures
            r == self.sleep_card(),
    {
        if !self.has_recent() {
            return None;
        }
        let number: Option<(u16, u16)> = if self.card.chapter_count > 0 && self.card.chapter > 0 {
            Some((self.card.chapter, self.card.chapter_count))
        } else {
            None
        };
        Some((self.card.progress, number))
    }
}

} // verus!
