//! What holds of the home screen and the library, whatever is on the card.

use vstd::prelude::*;

use crate::book_record::{BookRecord, Position};
use crate::home::{
    self, CardBook, CardFrame, CardSizes, CardText, HomeApp, HomeFrame, HomeOp, HomePaint, Opens,
    TextAlign,
};
use crate::library::{self, LibraryApp, LibraryPaint, Load, WindowPlan};
use crate::nav::{Action, ActionEvent, AppId, Transition};
use crate::recent::Recent;
use crate::ui;

verus! {

// ── home ─────────────────────────────────────────────────────────

/// The selection goes to the next item and from the last one to the first; a
/// step back undoes it.
pub proof fn law_the_selection_goes_round(selected: int, n: int)
    requires
        0 <= selected < n,
    ensures
        selected < n - 1 ==> home::stepped(selected, n, true) == selected + 1,
        selected == n - 1 ==> home::stepped(selected, n, true) == 0,
        selected > 0 ==> home::stepped(selected, n, false) == selected - 1,
        selected == 0 ==> home::stepped(selected, n, false) == n - 1,
        home::stepped(home::stepped(selected, n, true), n, false) == selected,
        home::stepped(home::stepped(selected, n, false), n, true) == selected,
{
    if selected < n - 1 {
        vstd::arithmetic::div_mod::lemma_small_mod((selected + 1) as nat, n as nat);
    } else {
        vstd::arithmetic::div_mod::lemma_mod_self_0(n);
    }
    vstd::arithmetic::div_mod::lemma_small_mod(selected as nat, n as nat);
    if selected > 0 {
        vstd::arithmetic::div_mod::lemma_small_mod((selected - 1) as nat, n as nat);
    } else {
        assert(-1int % n == n - 1) by {
            vstd::arithmetic::div_mod::lemma_mod_add_multiples_vanish(-1, n);
            vstd::arithmetic::div_mod::lemma_small_mod((n - 1) as nat, n as nat);
        }
    }
    vstd::arithmetic::div_mod::lemma_small_mod((n - 1) as nat, n as nat);
    vstd::arithmetic::div_mod::lemma_mod_self_0(n);
    if selected == n - 1 {
        assert(home::stepped(selected, n, true) == 0);
        assert(-1int % n == n - 1) by {
            vstd::arithmetic::div_mod::lemma_mod_add_multiples_vanish(-1, n);
        }
    }
}

/// Next and Prev, pressed or held, move the selection by one and paint the two
/// items that changed. Nothing else moves it.
pub proof fn law_home_buttons(h: HomeApp, a: Action)
    requires
        h.wf(),
        h.selected < h.item_count,
    ensures
        h.pressed(ActionEvent::Press(a)).0 == (HomeApp {
            selected: h.pressed(ActionEvent::Press(a)).0.selected,
            ..h
        }),
        h.pressed(ActionEvent::Repeat(a)).0 == h.pressed(ActionEvent::Press(a)).0,
        h.pressed(ActionEvent::Release(a)).0 == h,
        h.pressed(ActionEvent::LongPress(a)).0 == h,
        ({
            let to = h.pressed(ActionEvent::Press(a)).0.selected;
            let last = (h.rows@.len()) as int;
            &&& a == Action::Next && h.selected < last ==> to == h.selected + 1
            &&& a == Action::Next && h.selected == last ==> to == 0
            &&& a == Action::Prev && h.selected > 0 ==> to == h.selected - 1
            &&& a == Action::Prev && h.selected == 0 ==> to == last
            &&& a != Action::Next && a != Action::Prev ==> to == h.selected
            &&& to != h.selected ==> h.pressed(ActionEvent::Press(a)).2 == HomePaint::Items(
                h.selected,
                to,
            )
            &&& to == h.selected ==> h.pressed(ActionEvent::Press(a)).2 == HomePaint::Nothing
        }),
{
    law_the_selection_goes_round(h.selected as int, h.item_count as int);
}

/// Select opens the reader: on the card with its book, on a row with the book
/// of that row. A card without a book leads to the library, and a row without
/// a file nowhere. No other button opens anything.
pub proof fn law_home_opens_what_is_selected(h: HomeApp, ev: ActionEvent)
    requires
        h.wf(),
    ensures
        ev != ActionEvent::Press(Action::Select) ==> h.pressed(ev).1.goes() == Transition::Stay,
        ({
            let o = h.pressed(ActionEvent::Press(Action::Select)).1;
            let r = h.selected - 1;
            &&& h.selected == 0 && h.card.filename@.len() > 0 ==> o == (Opens::Card { tag: 0 })
                && o.goes() == Transition::Push(AppId::Reader)
            &&& h.selected == 0 && h.card.filename@.len() == 0 ==> o.goes() == Transition::Replace(
                AppId::Library,
            )
            &&& 0 <= r < h.rows@.len() && h.rows@[r].filename@.len() > 0 ==> o == Opens::Row(
                r as usize,
            ) && o.goes() == Transition::Push(AppId::Reader)
            &&& 0 <= r < h.rows@.len() && h.rows@[r].filename@.len() == 0 ==> o.goes()
                == Transition::Stay
            &&& r >= h.rows@.len() ==> o.goes() == Transition::Stay
        }),
{
}

/// The two rows that home lends to the menu open its book, the second one at
/// the contents. Without a book they open nothing.
pub proof fn law_home_menu_rows(h: HomeApp, id: u8)
    ensures
        h.card.filename@.len() == 0 ==> h.row_opens(id) == Opens::Nothing,
        h.card.filename@.len() > 0 ==> h.row_opens(225) == (Opens::Card { tag: 0 }),
        h.card.filename@.len() > 0 ==> h.row_opens(226) == (Opens::Card { tag: 1 }),
        id != 225 && id != 226 ==> h.row_opens(id) == Opens::Nothing,
{
}

/// What is left of a book takes as long for each percent as what was read of
/// it. Too little was read below 5 percent or five minutes, and nothing is
/// left at 100.
pub proof fn law_the_rest_goes_at_the_pace_so_far(progress: u8, secs: u32)
    ensures
        home::time_left(progress, secs) is None <==> progress < 5 || progress >= 100 || secs < 300,
        home::time_left(progress, secs) matches Some(left) ==> {
            &&& left * progress <= secs * (100 - progress)
            &&& secs * (100 - progress) <= 4294967295 ==> secs * (100 - progress) < (left + 1)
                * progress
            &&& secs * (100 - progress) > 4294967295 ==> left * progress <= 4294967295 < (left + 1)
                * progress
        },
{
    if 5 <= progress < 100 && secs >= 300 {
        let p = progress as int;
        let d = 100 - p;
        let whole = secs * d;
        assert(0 <= whole) by (nonlinear_arith)
            requires
                whole == secs as int * d,
                secs >= 0,
                d >= 0,
        ;
        let part = if whole > u32::MAX {
            u32::MAX as int
        } else {
            whole
        };
        let left = part / p;
        assert(left * p <= part < (left + 1) * p && 0 <= left <= part) by (nonlinear_arith)
            requires
                left == part / p,
                p >= 5,
                part >= 0,
        ;
        assert(whole == secs * (100 - progress));
    }
}

/// A length of time is told in hours and minutes; what is less than a minute
/// is left out, and so are the hours where there are none.
pub proof fn law_times_are_hours_and_minutes(h: nat, m: nat, s: nat)
    requires
        m < 60,
        s < 60,
        3600 * h + 60 * m + s <= u32::MAX,
    ensures
        h > 0 ==> home::duration((3600 * h + 60 * m + s) as u32) == ui::num(h) + "h "@ + ui::num(m)
            + "m"@,
        h == 0 ==> home::duration((60 * m + s) as u32) == ui::num(m) + "m"@,
{
    let t = (3600 * h + 60 * m + s) as u32;
    assert(t / 3600 == h && (t % 3600) / 60 == m) by (nonlinear_arith)
        requires
            t == 3600 * h + 60 * m + s,
            m < 60,
            s < 60,
    ;
}

/// The card tells the chapter where its chapters are known, and the progress
/// where there is some; of neither there is nothing to tell.
pub proof fn law_the_card_tells_the_place(c: CardBook)
    ensures
        c.chapter_count == 0 && c.progress == 0 ==> home::place_caption(c).len() == 0,
        c.chapter_count > 0 && c.progress == 0 ==> home::place_caption(c) == "chapter "@ + ui::num(
            c.chapter as nat,
        ) + " of "@ + ui::num(c.chapter_count as nat),
        c.chapter_count == 0 && c.progress > 0 ==> home::place_caption(c) == ui::num(
            c.progress as nat,
        ) + "% read"@,
        c.chapter_count > 0 && c.progress > 0 ==> home::place_caption(c) == home::place_caption(
            (CardBook { progress: 0, ..c }),
        ) + (" \u{00B7} "@ + ui::num(c.progress as nat) + "%"@),
{
    if c.chapter_count > 0 {
        let head = "chapter "@ + ui::num(c.chapter as nat) + " of "@ + ui::num(
            c.chapter_count as nat,
        );
        assert(head + Seq::<char>::empty() =~= head);
    }
}

/// Where a pace can be told the card says what is left, and else how long the
/// book was read, if it was at all.
pub proof fn law_the_card_tells_the_time(c: CardBook)
    ensures
        c.stats_time == 0 ==> home::time_caption(c).len() == 0,
        (c.progress < 5 || c.progress >= 100 || c.stats_time < 300) && c.stats_time > 0
            ==> home::time_caption(c) == home::duration(c.stats_time),
        5 <= c.progress < 100 && c.stats_time >= 300 ==> exists|left: u32|
            home::time_left(c.progress, c.stats_time) == Some(left) && home::time_caption(c)
                == #[trigger] home::duration(left) + " left"@,
{
    if 5 <= c.progress < 100 && c.stats_time >= 300 {
        let left = home::time_left(c.progress, c.stats_time)->0;
        assert(home::time_caption(c) == home::duration(left) + " left"@);
    }
}

/// The progress on the card is that of the last book's record, or else that of
/// the book's own; a card without a file has nothing else on it.
pub proof fn law_cards_take_the_progress_that_is_known(
    c: CardBook,
    r: Recent,
    rec: BookRecord,
    p: Position,
    has_cover: bool,
)
    requires
        home::card_is(c, r, rec, has_cover),
        rec.pos == Some(p),
        r.filename.len() > 0,
    ensures
        r.progress > 0 ==> c.progress == r.progress,
        r.progress == 0 ==> c.progress == p.progress_pct,
        c.chapter == p.chapter_no,
        c.chapter_count == p.chapter_count,
        c.stats_time == rec.stats.time_secs,
        c.has_cover == has_cover,
        r.filename.len() <= 32 ==> c.filename@ == r.filename,
        r.filename.len() > 32 ==> c.filename@ == r.filename.take(32),
        r.title.len() <= 64 ==> c.title@ == r.title,
        r.author.len() <= 64 ==> c.author@ == r.author,
{
    assert(r.filename.len() == 32 ==> r.filename.take(32) =~= r.filename);
    assert(r.title.len() == 64 ==> r.title.take(64) =~= r.title);
    assert(r.author.len() == 64 ==> r.author.take(64) =~= r.author);
}

/// A row tells its chapter where the number of chapters is known.
pub proof fn law_rows_tell_known_chapters(p: Position)
    ensures
        home::row_position(None) is None,
        p.chapter_count == 0 ==> home::row_position(Some(p)) is None,
        p.chapter_count > 0 ==> home::row_position(Some(p)) == Some(
            (p.chapter_no as u32, p.chapter_count as u32),
        ),
{
}

/// While the device sleeps, a card with a book tells its progress, and its
/// chapter where both numbers are known.
pub proof fn law_the_sleeping_card(h: HomeApp)
    ensures
        h.card.filename@.len() == 0 <==> h.sleep_card() is None,
        h.sleep_card() matches Some((pct, chapter)) ==> {
            &&& pct == h.card.progress
            &&& h.card.chapter >= 1 && h.card.chapter_count >= 1 ==> chapter == Some(
                (h.card.chapter, h.card.chapter_count),
            )
            &&& h.card.chapter == 0 || h.card.chapter_count == 0 ==> chapter is None
        },
{
}

/// A bar is filled in proportion: empty at nothing, full at 100 percent and
/// above, and never less for more.
pub proof fn law_bars_fill_in_proportion(w: u16, p: u8, q: u8)
    requires
        p <= q,
    ensures
        home::bar_fill(w, 0) == 0,
        p >= 100 ==> home::bar_fill(w, p) == w,
        p < 100 ==> 100 * home::bar_fill(w, p) <= w * p < 100 * home::bar_fill(w, p) + 100,
        home::bar_fill(w, p) <= home::bar_fill(w, q) <= w,
{
    let c = |x: u8|
        if x < 100 {
            x as int
        } else {
            100
        };
    let a = w as int * c(p);
    let b = w as int * c(q);
    assert(0 <= a <= b <= w * 100) by (nonlinear_arith)
        requires
            a == w as int * c(p),
            b == w as int * c(q),
            0 <= c(p) <= c(q) <= 100,
            w >= 0,
    ;
    assert(a / 100 <= b / 100 <= w);
    assert(w as int * 0 == 0);
}

/// Text beside a cover starts behind the cover's column, text without one at
/// the padding; both end at the padding. The title is under the top, the bar
/// and the line behind it over the bottom.
pub proof fn law_cards_are_padded(f: CardFrame, z: CardSizes, cover: Option<(u16, u16)>)
    requires
        home::card_fits(f, z),
        f.w >= 24 + 112 + z.gap,
    ensures
        ({
            let l = home::card_layout_of(f, z, cover);
            &&& cover is None ==> l.title.x == f.x + 12
            &&& cover is Some ==> l.title.x == f.x + 12 + 112 + z.gap
            &&& l.title.x + l.title.w == f.x + f.w - 12
            &&& l.author.x == l.title.x && l.author.w == l.title.w
            &&& l.bar.x == l.title.x && l.bar.w == l.title.w
            &&& l.meta.x == l.title.x && l.meta.w == l.title.w
            &&& l.title.y == f.y + 28
            &&& l.author.y == l.title.y + z.title_h + 6
            &&& l.meta.y + z.line_h + 14 == f.y + 184
            &&& l.meta.y == l.bar.y + z.bar_h + 4
            &&& cover matches Some((w, h)) ==> {
                &&& w <= 112 && h <= 160 ==> l.cover == Some(
                    ((f.x + 12 + (112 - w) / 2) as u16, (f.y + 12 + (160 - h) / 2) as u16),
                )
                &&& w > 112 && h > 160 ==> l.cover == Some(((f.x + 12) as u16, (f.y + 12) as u16))
            }
            &&& cover is None ==> l.cover is None
        }),
{
}

/// Of the card and the rows one is marked as selected at most, the one that
/// is; every row is drawn in its turn, behind all else. The card is filled
/// where it is selected itself.
pub proof fn law_home_marks_the_selection(h: HomeApp, f: HomeFrame, cover: Option<(u16, u16)>, slot: int)
    requires
        h.wf(),
        0 <= slot < h.rows@.len(),
    ensures
        ({
            let ops = home::home_ops(h, f, cover);
            let at = ops.len() - h.rows@.len() + slot;
            &&& ops[0] is Rule
            &&& ops[1] == (HomeOp::Card { filled: h.selected == 0 })
            &&& ops[at] == (HomeOp::Row { slot: slot as usize, selected: h.selected == slot + 1 })
        }),
{
}

// ── the library ──────────────────────────────────────────────────

/// The selected book is among the six that are seen, and no scroll that shows
/// it is nearer to the old one.
pub proof fn law_the_list_scrolls_least(selected: int, scroll: int, other: int)
    requires
        other <= selected < other + 6,
    ensures
        ({
            let to = library::in_view(selected, scroll);
            &&& to <= selected < to + 6
            &&& scroll <= selected < scroll + 6 ==> to == scroll
            &&& to >= scroll ==> to - scroll <= other - scroll || other < to
            &&& to > scroll ==> other >= to
            &&& to < scroll ==> other <= to
        }),
{
}

/// A book that is already seen is selected in place: the two rows are painted,
/// if the window is loaded. For any other the window is loaded first.
pub proof fn law_moves_load_what_is_not_seen(a: LibraryApp, to: int)
    requires
        a.wf(),
        0 <= to < usize::MAX,
        to != a.selected,
    ensures
        ({
            let (b, paint) = a.moved_to(to);
            let seen = a.scroll <= to < a.scroll + 6;
            &&& b.selected == to
            &&& b.scroll <= to < b.scroll + 6
            &&& b.total == a.total && b.window_start == a.window_start && b.window_count
                == a.window_count
            &&& seen ==> b.scroll == a.scroll && b.load == a.load
            &&& !seen ==> b.load == Load::Window && paint == LibraryPaint::Nothing
            &&& seen && a.load == Load::Idle ==> paint == LibraryPaint::Rows(
                (a.selected - a.scroll) as usize,
                (to - a.scroll) as usize,
            )
            &&& a.load != Load::Idle ==> paint == LibraryPaint::Nothing
        }),
{
}

/// Next and Prev, pressed or held, move by one book and stop at the ends.
/// Nothing else moves the selection.
pub proof fn law_library_buttons(a: LibraryApp, ev: ActionEvent)
    requires
        a.wf(),
        a.total < usize::MAX - 6,
    ensures
        ({
            let b = a.pressed(ev).0;
            let next = ev == ActionEvent::Press(Action::Next) || ev == ActionEvent::Repeat(
                Action::Next,
            );
            let prev = ev == ActionEvent::Press(Action::Prev) || ev == ActionEvent::Repeat(
                Action::Prev,
            );
            &&& next && a.selected + 1 < a.total ==> b.selected == a.selected + 1
            &&& next && a.selected + 1 >= a.total ==> b == a
            &&& prev && a.selected > 0 ==> b.selected == a.selected - 1
            &&& prev && a.selected == 0 ==> b == a
            &&& !next && !prev ==> b == a
        }),
{
}

/// Select opens the book that is selected, of the rows that are loaded for
/// where the list stands. Before they are, and by any other button, nothing is
/// opened.
pub proof fn law_select_opens_the_selected_book(a: LibraryApp, ev: ActionEvent)
    requires
        a.wf(),
    ensures
        ev != ActionEvent::Press(Action::Select) ==> a.pressed(ev).1 is None,
        a.load != Load::Idle ==> a.pressed(ev).1 is None,
        a.pressed(ev).1 matches Some(row) ==> a.window_start + row == a.selected && row
            < a.window_count,
        a.load == Load::Idle && a.selected < a.window_start + a.window_count ==> a.pressed(
            ActionEvent::Press(Action::Select),
        ).1 is Some,
{
}

/// With `total` books the selection stays where it is or goes to the last one.
/// The list does not scroll past its end, and a list that can be seen whole
/// does not scroll.
pub proof fn law_lists_end_with_their_last_book(a: LibraryApp, total: int)
    requires
        0 <= total < usize::MAX - 6,
        a.scroll <= a.selected < a.scroll + 6,
    ensures
        ({
            let b = a.with_total(total);
            &&& b.total == total
            &&& a.selected < total ==> b.selected == a.selected
            &&& a.selected >= total > 0 ==> b.selected == total - 1
            &&& total == 0 ==> b.selected == 0
            &&& total <= 6 ==> b.scroll == 0
            &&& total > 6 ==> b.scroll + 6 <= total
            &&& a.scroll + 6 <= total ==> b.scroll == a.scroll
            &&& b.load == a.load
        }),
{
}

/// A window that moved by one row needs one row read, one that did not move
/// none; all six are read where it moved farther, and where all was asked for.
pub proof fn law_windows_read_what_is_new(delta: int)
    ensures
        ({
            let rows = |p: WindowPlan| p.last - p.first;
            &&& rows(library::window_plan(Load::Window, 1)) == 1
            &&& rows(library::window_plan(Load::Window, -1)) == 1
            &&& rows(library::window_plan(Load::Window, 0)) == 0
            &&& delta < -1 || delta > 1 ==> rows(library::window_plan(Load::Window, delta)) == 6
            &&& rows(library::window_plan(Load::Full, delta)) == 6
        }),
        library::window_plan(Load::Window, 1).first == 5,
        library::window_plan(Load::Window, -1).first == 0,
{
}

/// Once the rows are read the window stands where the list does, and its rows
/// are the books from there on, six at most.
pub proof fn law_read_rows_are_those_seen(a: LibraryApp)
    requires
        a.scroll < usize::MAX - 6,
    ensures
        ({
            let b = a.with_rows_read();
            &&& b.load == Load::Idle
            &&& b.window_start == a.scroll && b.scroll == a.scroll && b.selected == a.selected
            &&& a.scroll + 6 <= a.total ==> b.window_count == 6
            &&& a.scroll <= a.total < a.scroll + 6 ==> b.window_start + b.window_count == a.total
            &&& a.total < a.scroll ==> b.window_count == 0
        }),
{
}

/// One is told in the singular, every other number in the plural.
pub proof fn law_one_is_singular(n: int, one: Seq<char>, many: Seq<char>)
    requires
        0 <= n,
    ensures
        library::counted(1, one, many) == one,
        n != 1 ==> library::counted(n, one, many) == ui::num(n as nat) + many,
{
}

/// An empty card tells how many books wait: none, one, or their number.
pub proof fn law_empty_cards_tell_of_the_library(books: u16)
    ensures
        home::hint_caption(0) == "No books on the card"@,
        home::hint_caption(1) == "One book is waiting in the library"@,
        books >= 2 ==> home::hint_caption(books) == ui::num(books as nat)
            + " books are waiting in the library"@,
{
}

/// The card of a book has its title and its bar, and its author where it has one.
/// What is left is told beside a cover only; text without a cover is centred.
pub proof fn law_cards_show_their_book(c: CardBook, f: HomeFrame, cover: Option<(u16, u16)>)
    ensures
        ({
            let ops = home::book_ops(c, f, cover);
            let l = home::card_layout_of(f.card, f.sizes, cover);
            let align = if cover is Some {
                TextAlign::TopLeft
            } else {
                TextAlign::Center
            };
            let title = HomeOp::Text { text: CardText::Title, region: l.title, align };
            let author = HomeOp::Text { text: CardText::Author, region: l.author, align };
            let at: int = if cover is Some {
                1
            } else {
                0
            };
            &&& cover is Some ==> ops[0] is Cover
            &&& ops[at] == title
            &&& c.author@.len() > 0 ==> ops[at + 1] == author && ops[at + 2] is Bar
            &&& c.author@.len() == 0 ==> ops[at + 1] is Bar
            &&& c.progress == 0 && c.chapter_count == 0 && c.stats_time == 0 ==> ops.last() is Bar
            &&& cover is Some && c.stats_time > 0 && c.progress >= 100 ==> ops.last() == (
            HomeOp::Text { text: CardText::Time, region: l.meta, align: TextAlign::CenterRight })
        }),
{
    let l = home::card_layout_of(f.card, f.sizes, cover);
    assert(l.cover is Some == cover is Some);
    if c.stats_time > 0 && c.progress >= 100 {
        assert(home::time_caption(c) == home::duration(c.stats_time));
        reveal_strlit("m");
        reveal_strlit("h ");
        assert(home::duration(c.stats_time).len() > 0);
    }
}

} // verus!
