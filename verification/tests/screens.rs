use plump_apps::book_record::{BookRecord, Position, ReadingStats};
use plump_apps::cover::{draw_cover, placeholder, Figure, ShapeKind, Tone};
use plump_apps::cover_cache::{
    has_cover_variant, load_cover_granted, load_cover_variant, load_library_entry, pick,
    save_cover_variants, CoverError, CoverKind, CoverStore, CoverVariant, CoverVariantBlob,
    DecodedImage, SectionUse,
};
use plump_apps::home::{
    card_layout, is_resume_action, write_duration, CardFrame, CardSizes, CardText, HomeAction,
    HomeApp, HomeFrame, HomeOp, HomePaint, Opens, TextAlign,
    QA_CONTENTS, QA_CONTINUE,
};
use plump_apps::library::{LibraryApp, LibraryPaint, Load, Shift};
use plump_apps::manager::{
    appid_to_modal, appid_to_tab, flush_deferred_persistence, horizontal_from_event,
    nav_state_from_launcher, tab_to_appid, AppManager, Change, Enter, FrameWishes, GrayscaleMode,
    HDir, Leave, MenuTap, NavEvent, QuickMenuResult, Repaint, Route, SleepSource, Trigger,
};
use plump_apps::nav::{Action, ActionEvent, AppId, BgOutcome, Modal, Tab, Transition};
use plump_apps::reader::clock::LoadingClock;
use plump_apps::reader::state::{FontMetrics, LoadingReason, ReaderApp};
use plump_apps::recent::{RecentRecord, BUF_LEN};
use plump_apps::sleep::{NavCodes, Session, Wake, WakeInputs};
use plump_apps::text::{draw_truncated, split_title_line, truncated_text};
use plump_apps::ui::{push_num, Region};

#[test]
fn stand_ins_follow_the_hash() {
    assert_eq!(placeholder(0), (ShapeKind::Disc, Tone::Dark));
    assert_eq!(placeholder(5), (ShapeKind::Dash, Tone::Dark));
    assert_eq!(placeholder(128), (ShapeKind::Line, Tone::Tan));
    let r = Region::new(10, 20, 112, 160);
    assert_eq!(
        draw_cover(r, 0),
        (Figure::Circle { x: 38, y: 72, d: 56, filled: true }, Tone::Dark)
    );
    assert_eq!(draw_cover(r, 3).0, Figure::Circle { x: 38, y: 72, d: 56, filled: false });
    assert_eq!(draw_cover(r, 1).0, Figure::Box { x: 58, y: 52, w: 16, h: 96 });
    assert_eq!(draw_cover(r, 2).0, Figure::Box { x: 38, y: 95, w: 56, h: 11 });
    assert_eq!(draw_cover(r, 4).0, Figure::Diamond { cx: 66, cy: 100, r: 22 });
    assert_eq!(draw_cover(r, 5).0, Figure::Box { x: 33, y: 92, w: 67, h: 16 });
}

fn variant(kind: CoverKind, data_offset: u32) -> CoverVariant {
    CoverVariant { kind, width: 8, height: 8, stride: 1, data_offset, data_size: 8 }
}

#[test]
fn the_preferred_cover_is_picked() {
    let card = variant(CoverKind::Card, 44);
    let mini = variant(CoverKind::Mini, 60);
    assert_eq!(pick(&[card, mini], CoverKind::Mini), Some(mini));
    assert_eq!(pick(&[card], CoverKind::Mini), Some(card));
    assert_eq!(pick(&[], CoverKind::Mini), None);
}

fn image(width: u16, data: &[u8]) -> DecodedImage {
    DecodedImage { width, height: 8, stride: 1, data: data.to_vec() }
}

#[test]
fn stored_covers_come_back() {
    let (card, mini) = (image(8, &[1, 2, 3]), image(5, &[9, 8]));
    let mut store = CoverStore::new();
    assert!(load_cover_variant(&store, CoverKind::Card).is_none());
    let blobs = [
        CoverVariantBlob { kind: CoverKind::Card, image: &card },
        CoverVariantBlob { kind: CoverKind::Mini, image: &mini },
    ];
    assert_eq!(save_cover_variants(&mut store, &blobs), Ok(SectionUse::Allocate));
    let section = store.section.clone().unwrap();
    assert_eq!(section.len(), 12 + 2 * 16 + 5);
    assert_eq!(&section[44..], &[1, 2, 3, 9, 8]);
    assert_eq!(store.entries()[1].data_offset, 47);
    let got = load_cover_variant(&store, CoverKind::Mini).unwrap();
    assert_eq!((got.width, got.height, got.stride, got.data), (5, 8, 1, vec![9, 8]));
    assert!(has_cover_variant(&store, CoverKind::Mini));
    assert!(load_cover_granted(&store, CoverKind::Mini, false).is_none());
    let e = load_library_entry(Some((&store, Some(120))));
    assert_eq!((e.cover.unwrap().data, e.total_pages), (vec![9, 8], Some(120)));
    let e = load_library_entry(None);
    assert!(e.cover.is_none() && e.total_pages.is_none());
    // a smaller one goes over the old ones
    let only = [CoverVariantBlob { kind: CoverKind::Card, image: &mini }];
    assert_eq!(save_cover_variants(&mut store, &only), Ok(SectionUse::Reuse));
    assert_eq!(store.section.as_ref().unwrap().len(), 49);
    assert_eq!(load_cover_variant(&store, CoverKind::Mini).unwrap().data, vec![9, 8]);
    assert!(!has_cover_variant(&store, CoverKind::Mini));
    let large = image(8, &[7; 100]);
    let one = [CoverVariantBlob { kind: CoverKind::Card, image: &large }];
    assert_eq!(save_cover_variants(&mut store, &one), Ok(SectionUse::Replace));
    assert_eq!(store.section.as_ref().unwrap().len(), 128);
}

#[test]
fn broken_covers_are_not_shown() {
    let card = image(8, &[1, 2, 3]);
    let blobs = [CoverVariantBlob { kind: CoverKind::Card, image: &card }];
    let mut store = CoverStore::new();
    assert_eq!(save_cover_variants(&mut store, &[]), Err(CoverError::NoVariants));
    let many: Vec<CoverVariantBlob> =
        (0..256).map(|_| CoverVariantBlob { kind: CoverKind::Card, image: &card }).collect();
    assert_eq!(save_cover_variants(&mut store, &many), Err(CoverError::TooManyVariants));
    assert!(store.section.is_none());
    save_cover_variants(&mut store, &blobs).unwrap();
    store.section.as_mut().unwrap().pop();
    assert!(load_cover_variant(&store, CoverKind::Card).is_none());
    store.section.as_mut().unwrap().truncate(27);
    assert!(store.entries().is_empty());
    save_cover_variants(&mut store, &blobs).unwrap();
    store.ready = false;
    assert!(load_cover_variant(&store, CoverKind::Card).is_none());
    store.ready = true;
    // an unknown kind
    store.section.as_mut().unwrap()[12] = 9;
    assert!(store.entries().is_empty());
    let flat = image(0, &[1]);
    let none = [CoverVariantBlob { kind: CoverKind::Card, image: &flat }];
    save_cover_variants(&mut store, &none).unwrap();
    assert!(load_cover_variant(&store, CoverKind::Card).is_none());
}

#[test]
fn titles_split_at_a_space() {
    assert_eq!(split_title_line(b"The Long Title", 14), (14, 14));
    assert_eq!(split_title_line(b"The Long Title", 10), (8, 9));
    assert_eq!(split_title_line(b"Unbreakable", 5), (5, 5));
    assert_eq!(split_title_line("aé b".as_bytes(), 2), (1, 1));
    assert_eq!(split_title_line("a  \u{A0}b".as_bytes(), 3), (2, 5));
}

#[test]
fn long_text_gets_an_ellipsis() {
    assert_eq!(truncated_text(b"short", 5, 93), b"short");
    assert_eq!(truncated_text(b"too long", 3, 93), "too…".as_bytes());
    assert_eq!(truncated_text(b"too long", 7, 4), "too …".as_bytes());
    assert_eq!(truncated_text("éé".as_bytes(), 3, 93), "é…".as_bytes());
    assert_eq!(draw_truncated(b"too long", 3), "too…".as_bytes());
    assert_eq!(draw_truncated("éé".as_bytes(), 3), "éé".as_bytes());
    let long = [b'x'; 100];
    assert_eq!(draw_truncated(&long, 80).len(), 67);
    assert_eq!(draw_truncated(&long, 100), long);
}

#[test]
fn regions_intersect() {
    let a = Region::new(0, 0, 10, 10);
    assert!(a.intersects(Region::new(9, 9, 5, 5)));
    assert!(!a.intersects(Region::new(10, 0, 5, 5)));
    assert!(!a.intersects(Region::new(5, 5, 0, 5)));
    assert_eq!(Region::screen(), Region::new(0, 0, 480, 800));
    let mut s = String::new();
    push_num(&mut s, 10203);
    assert_eq!(s, "10203");
}

fn recent_bytes(filename: &[u8], progress: u8) -> Vec<u8> {
    let mut buf = [0u8; BUF_LEN];
    let n = RecentRecord { filename, title: b"Title", author: b"Author", progress }.encode(&mut buf);
    buf[..n].to_vec()
}

fn position() -> Position {
    Position {
        archive_size: 1,
        chapter: 4,
        byte_offset: 0,
        content_fmt: 0,
        para: 0,
        word: 0,
        layout_key: 0,
        page: 0,
        chapter_no: 5,
        chapter_count: 12,
        progress_pct: 33,
        font_idx: 0,
    }
}

fn home_with(progress: u8, secs: u32) -> HomeApp {
    let mut h = HomeApp::new();
    let rec = BookRecord {
        stats: ReadingStats { pages: 1, time_secs: secs, sessions: 1 },
        pos: Some(position()),
        seq: 1,
    };
    h.load_card(&recent_bytes(b"A.EPB", progress), Some(rec), Some(160));
    h
}

#[test]
fn the_card_shows_the_last_book() {
    let h = home_with(0, 4000);
    assert_eq!(h.card.filename, b"A.EPB");
    assert_eq!(h.card.progress, 33);
    assert!(h.card.has_cover);
    assert_eq!(h.place_text(), "chapter 5 of 12 \u{00B7} 33%");
    assert_eq!(h.menu_meta("Author"), "Author \u{00B7} 33% read");
    assert_eq!(h.fill_sleep_card(), Some((33, Some((5, 12)))));
    let mut h = home_with(40, 4000);
    assert_eq!(h.card.progress, 40);
    h.load_card(&recent_bytes(b"A.EPB", 40), None, Some(161));
    assert!(!h.card.has_cover);
    assert_eq!(h.place_text(), "40% read");
    h.load_card(b"", None, None);
    assert!(!h.has_recent());
    assert_eq!(h.menu_meta("x"), "");
    assert_eq!(h.fill_sleep_card(), None);
}

#[test]
fn the_rest_of_a_book_takes_time() {
    assert_eq!(home_with(50, 3600).time_left_secs(), Some(3600));
    assert_eq!(home_with(25, 4000).time_left_secs(), Some(12000));
    assert_eq!(home_with(4, 4000).time_left_secs(), None);
    assert_eq!(home_with(50, 299).time_left_secs(), None);
    assert_eq!(home_with(100, 4000).time_left_secs(), None);
    assert_eq!(home_with(25, 4000).time_text(), "3h 20m left");
    assert_eq!(home_with(100, 119).time_text(), "1m");
    let mut s = String::new();
    write_duration(&mut s, 34320);
    assert_eq!(s, "9h 32m");
}

fn rows(n: usize) -> Vec<plump_apps::home::RecentRow> {
    (0..n)
        .map(|i| {
            HomeApp::make_row(format!("B{}.EPB", i).into_bytes(), Vec::new(), Vec::new(), Some(position()))
        })
        .collect()
}

#[test]
fn the_selection_goes_round() {
    let mut h = home_with(40, 0);
    h.set_rows(rows(2));
    let next = ActionEvent::Press(Action::Next);
    let prev = ActionEvent::Repeat(Action::Prev);
    assert_eq!(h.on_event(next).1, HomePaint::Items(0, 1));
    assert_eq!(h.on_event(next).1, HomePaint::Items(1, 2));
    assert_eq!(h.on_event(next).1, HomePaint::Items(2, 0));
    assert_eq!(h.on_event(prev).1, HomePaint::Items(0, 2));
    let (o, _) = h.on_event(ActionEvent::Press(Action::Select));
    assert_eq!(o, Opens::Row(1));
    assert_eq!(o.transition(), Transition::Push(AppId::Reader));
    h.set_rows(rows(0));
    assert_eq!(h.selected(), 0);
    assert_eq!(h.move_selection(true), HomePaint::Nothing);
    assert_eq!(h.open_book(), Opens::Card { tag: 0 });
    h.restore_state(0, 9, 0, 0);
    assert_eq!(h.selected(), 3);
    assert_eq!(h.open_book(), Opens::Nothing);
}

#[test]
fn an_empty_card_points_to_the_library() {
    let mut h = HomeApp::new();
    assert_eq!(h.open_book(), Opens::Library);
    assert_eq!(h.open_book().transition(), Transition::Replace(AppId::Library));
    assert_eq!(h.on_quick_trigger(QA_CONTINUE), Opens::Nothing);
    assert_eq!(h.hint_text(), "No books on the card");
    h.library_count = 1;
    assert_eq!(h.hint_text(), "One book is waiting in the library");
    h.library_count = 30;
    assert_eq!(h.hint_text(), "30 books are waiting in the library");
    let h = home_with(40, 0);
    assert_eq!(h.on_quick_trigger(QA_CONTENTS), Opens::Card { tag: 1 });
    assert_eq!(
        h.quick_actions(),
        vec![
            HomeAction { id: QA_CONTINUE, percent: Some(40) },
            HomeAction { id: QA_CONTENTS, percent: None },
        ]
    );
    assert_eq!(h.menu_title().unwrap(), b"Title");
    assert!(HomeApp::new().quick_actions().is_empty() && HomeApp::new().menu_title().is_none());
    assert!(is_resume_action(QA_CONTINUE) && !is_resume_action(5));
}

#[test]
fn the_list_leaves_out_the_card() {
    let h = home_with(40, 0);
    let names: Vec<Vec<u8>> =
        ["X", "A.EPB", "Y", "Z", "W"].iter().map(|s| s.as_bytes().to_vec()).collect();
    assert_eq!(h.choose_rows(&names), vec![0, 2, 3]);
    let r = &rows(1)[0];
    assert_eq!(r.position, Some((5, 12)));
    assert_eq!(r.value_text(), "5 / 12");
    assert_eq!(r.display_name(), b"B0.EPB");
    let mut h = home_with(40, 0);
    assert_eq!(h.next_recent_title(), None);
    h.set_rows(rows(2));
    assert_eq!(h.next_recent_title().unwrap(), b"B0.EPB");
    assert_eq!(h.loaded(1), (BgOutcome::Progress { more: false }, HomePaint::Full));
    assert_eq!(h.loaded(3).1, HomePaint::Content);
    assert_eq!(h.on_enter(55), HomePaint::Content);
    assert!(h.needs_load);
}

#[test]
fn the_card_holds_its_cover() {
    let f = CardFrame { x: 16, y: 50, w: 448 };
    let z = CardSizes { title_h: 30, line_h: 20, bar_h: 8, gap: 14 };
    let l = card_layout(f, z, Some((100, 150)));
    assert_eq!(l.cover, Some((34, 67)));
    assert_eq!(l.title, Region::new(154, 78, 298, 30));
    assert_eq!(l.bar, Region::new(154, 188, 298, 8));
    assert_eq!(l.meta, Region::new(154, 200, 298, 20));
    let l = card_layout(f, z, None);
    assert_eq!(l.author, Region::new(28, 114, 424, 20));
}

fn home_frame() -> HomeFrame {
    HomeFrame {
        card: CardFrame { x: 16, y: 50, w: 448 },
        sizes: CardSizes { title_h: 30, line_h: 20, bar_h: 8, gap: 14 },
        empty_title_h: 34,
        rule: Region::new(16, 247, 448, 1),
    }
}

#[test]
fn the_home_screen_is_drawn() {
    let mut h = home_with(40, 4000);
    h.set_rows(rows(2));
    let ops = h.draw(home_frame(), Some((100, 150)));
    let text = |text, region, align| HomeOp::Text { text, region, align };
    let meta = Region::new(154, 200, 298, 20);
    assert_eq!(
        ops,
        vec![
            HomeOp::Rule { x: 228, y: 247, w: 24 },
            HomeOp::Card { filled: true },
            HomeOp::Cover { x: 34, y: 67 },
            text(CardText::Title, Region::new(154, 78, 298, 30), TextAlign::TopLeft),
            text(CardText::Author, Region::new(154, 114, 298, 20), TextAlign::TopLeft),
            HomeOp::Bar { region: Region::new(154, 188, 298, 8), percent: 40, done: 119 },
            text(CardText::Place, meta, TextAlign::TopLeft),
            text(CardText::Time, meta, TextAlign::CenterRight),
            HomeOp::Row { slot: 0, selected: false },
            HomeOp::Row { slot: 1, selected: false },
        ]
    );
    h.move_selection(true);
    let ops = h.draw(home_frame(), None);
    assert!(ops.contains(&HomeOp::Card { filled: false }));
    assert!(ops.contains(&HomeOp::Row { slot: 0, selected: true }));
    assert!(!ops.iter().any(|o| matches!(o, HomeOp::Text { text: CardText::Time, .. })));
    let ops = HomeApp::new().draw(home_frame(), None);
    assert_eq!(ops.len(), 3);
    assert_eq!(ops[1], text(CardText::Nothing, Region::new(28, 115, 424, 34), TextAlign::Center));
    assert_eq!(ops[2], text(CardText::Hint, Region::new(28, 151, 424, 20), TextAlign::Center));
}

#[test]
fn the_library_scrolls_by_rows() {
    let mut l = LibraryApp::new();
    assert_eq!(l.on_enter(), LibraryPaint::Content);
    let plan = l.load_window(10);
    assert_eq!((plan.first, plan.last), (0, 6));
    assert_eq!(l.window_loaded(), LibraryPaint::Content);
    let next = ActionEvent::Press(Action::Next);
    for i in 0..5 {
        assert_eq!(l.on_event(next).1, LibraryPaint::Rows(i, i + 1));
    }
    assert_eq!(l.on_event(next).1, LibraryPaint::Nothing);
    assert_eq!((l.selected, l.scroll, l.load), (6, 1, Load::Window));
    // nothing opens while the rows are those of another window
    assert_eq!(l.on_event(ActionEvent::Press(Action::Select)).0, None);
    let plan = l.load_window(10);
    assert_eq!((plan.shift, plan.first, plan.last), (Shift::Up, 5, 6));
    l.window_loaded();
    assert_eq!(l.on_event(ActionEvent::Press(Action::Select)).0, Some(5));
    assert_eq!(l.range_caption().unwrap(), "2\u{2013}7 of 10");
    assert_eq!(l.count_caption(), "10 books");
}

#[test]
fn the_library_follows_the_card() {
    let mut l = LibraryApp::new();
    l.load_window(10);
    l.window_loaded();
    for _ in 0..20 {
        l.move_down();
    }
    assert_eq!((l.selected, l.scroll), (9, 4));
    // books were removed
    l.on_resume();
    l.load_window(3);
    l.window_loaded();
    assert_eq!((l.selected, l.scroll, l.window_count), (2, 0, 3));
    for _ in 0..5 {
        l.move_up();
    }
    assert_eq!(l.selected, 0);
    l.load_window(0);
    l.window_loaded();
    assert_eq!((l.selected, l.window_count), (0, 0));
    assert_eq!(l.select(), None);
    assert_eq!(l.range_caption(), None);
    l.load_window(1);
    assert_eq!(l.count_caption(), "1 book");
    assert_eq!(LibraryApp::pages_caption(0), "");
    assert_eq!(LibraryApp::pages_caption(1), "1 page");
    assert_eq!(LibraryApp::pages_caption(300), "300 pages");
    assert_eq!(LibraryApp::row_region(2, 16, 80, 448, 104), Region::new(16, 296, 448, 104));
}

#[test]
fn tabs_and_apps_go_both_ways() {
    for t in [Tab::Home, Tab::Library, Tab::Stats, Tab::Settings, Tab::Upload] {
        assert_eq!(appid_to_tab(tab_to_appid(t)), Some(t));
    }
    assert_eq!(appid_to_tab(AppId::Reader), None);
    assert_eq!(appid_to_modal(AppId::Reader), Some(Modal::Reader));
    assert_eq!(appid_to_modal(AppId::Home), None);
    let stack = vec![AppId::Home, AppId::Library, AppId::Reader];
    assert_eq!(nav_state_from_launcher(&stack), (Tab::Library, Some(Modal::Reader)));
    assert_eq!(nav_state_from_launcher(&vec![AppId::Stats]), (Tab::Stats, None));
    assert_eq!(nav_state_from_launcher(&vec![AppId::Files]), (Tab::Home, None));
}

#[test]
fn events_are_routed() {
    let mut m = AppManager::new();
    let right = ActionEvent::Press(Action::NextJump);
    assert_eq!(horizontal_from_event(right), Some(HDir::Right));
    assert_eq!(horizontal_from_event(ActionEvent::LongPress(Action::NextJump)), None);
    assert_eq!(m.dispatch_event(right, false), Route::Along(HDir::Right));
    assert_eq!(m.dispatch_event(ActionEvent::Press(Action::Menu), false), Route::OpenMenu);
    assert_eq!(m.dispatch_event(ActionEvent::Press(Action::Menu), true), Route::MenuToApp);
    assert_eq!(m.dispatch_event(ActionEvent::Press(Action::Next), false), Route::App);
    assert_eq!(
        m.dispatch_horizontal(true, Some(Tab::Library)),
        Transition::Replace(AppId::Library)
    );
    assert_eq!(m.dispatch_horizontal(false, Some(Tab::Library)), Transition::Stay);
    let nav = NavEvent { from: AppId::Home, to: AppId::Reader, suspend: true, resume: false };
    let c = m.apply_transition(vec![AppId::Home, AppId::Reader], nav);
    assert_eq!(
        c,
        Change {
            save_and_flush: true,
            leave: Leave::Suspend,
            enter: Enter::Enter,
            repaint: Repaint::Nothing,
        }
    );
    assert_eq!(m.active_modal(), Some(Modal::Reader));
    assert_eq!(m.dispatch_event(right, false), Route::App);
    assert_eq!(m.grayscale_mode(true), GrayscaleMode::Immediate);
    m.menu_open = true;
    assert_eq!(m.dispatch_event(right, false), Route::QuickMenu);
    assert_eq!(m.grayscale_mode(true), GrayscaleMode::Disabled);
    assert_eq!(m.dispatch_semantic_input(true), MenuTap::Close);
    m.menu_open = false;
    assert_eq!(m.dispatch_semantic_input(true), MenuTap::ToApp);
    assert_eq!(m.dispatch_semantic_input(false), MenuTap::Open);
}

#[test]
fn the_menu_has_its_effects() {
    let mut m = AppManager::new();
    m.menu_open = true;
    let e = m.handle_quick_menu(QuickMenuResult::Consumed, false);
    assert!(!e.close && !e.paint && m.menu_open);
    assert!(m.handle_quick_menu(QuickMenuResult::Consumed, true).paint);
    let e = m.handle_quick_menu(QuickMenuResult::Sleep, false);
    assert!(e.close && e.sleep && m.take_sleep_request() && !m.take_sleep_request());
    assert_eq!(m.handle_quick_menu(QuickMenuResult::GoHome, false).to, Transition::Home);
    assert!(m.handle_quick_menu(QuickMenuResult::RefreshScreen, false).full_redraw);
    assert!(m.handle_quick_menu(QuickMenuResult::Close, false).close);
    let t = m.handle_quick_menu(QuickMenuResult::AppTrigger(QA_CONTINUE), false).trigger;
    assert_eq!(t, Trigger::Active(QA_CONTINUE));
    let nav = NavEvent { from: AppId::Home, to: AppId::Stats, suspend: false, resume: false };
    m.apply_transition(vec![AppId::Stats], nav);
    let t = m.handle_quick_menu(QuickMenuResult::AppTrigger(QA_CONTINUE), false).trigger;
    assert_eq!(t, Trigger::Home(QA_CONTINUE));
    assert!(m.borrows_home(true));
    let p = m.open_quick_menu(true, 2, 9, 8);
    assert!(p.borrow_home && m.menu_open && !p.on_home);
    assert_eq!((p.from_home, p.from_own), (2, 6));
    let p = m.open_quick_menu(false, 2, 3, 8);
    assert_eq!((p.borrow_home, p.from_home, p.from_own), (false, 0, 3));
    assert_eq!(m.sync_quick_menu(2, Some(3)), Some(3));
    assert_eq!(m.sync_quick_menu(3, Some(3)), None);
}

#[test]
fn an_open_menu_takes_presses_and_repeats() {
    let menu = Action::Menu;
    assert_eq!(AppManager::menu_input(ActionEvent::Press(menu)), Some(menu));
    assert_eq!(AppManager::menu_input(ActionEvent::Repeat(menu)), Some(menu));
    assert_eq!(AppManager::menu_input(ActionEvent::LongPress(menu)), None);
    assert_eq!(AppManager::menu_input(ActionEvent::Release(menu)), None);
}

#[test]
fn upload_goes_back_to_its_tab() {
    let mut m = AppManager::new();
    let to = NavEvent { from: AppId::Library, to: AppId::Upload, suspend: false, resume: false };
    let c = m.apply_transition(vec![AppId::Upload], to);
    assert_eq!((c.leave, c.enter, c.repaint), (Leave::Exit, Enter::Nobody, Repaint::Full));
    assert!(m.needs_special_mode());
    assert_eq!(m.upload_exit(None), AppId::Library);
    assert_eq!(m.upload_exit(Some(Tab::Stats)), AppId::Stats);
    let back = NavEvent { from: AppId::Upload, to: AppId::Home, suspend: false, resume: true };
    let c = m.apply_transition(vec![AppId::Home], back);
    assert!(!c.save_and_flush);
    assert_eq!((c.leave, c.enter, c.repaint), (Leave::Nobody, Enter::Resume, Repaint::Screen));
}

fn session(s: &Session, nav: NavCodes) -> Session {
    Session { nav, reader_name: s.reader_name.clone(), reader: s.reader, home: s.home }
}

#[test]
fn stacks_survive_sleep() {
    let mut m = AppManager::new();
    let nav = NavEvent { from: AppId::Home, to: AppId::Reader, suspend: true, resume: false };
    m.apply_transition(vec![AppId::Library, AppId::Reader], nav);
    let mut clock = LoadingClock::start();
    let metrics = Some(FontMetrics { native_h: 18, em_px: 16, ascent: 14 });
    let mut reader = ReaderApp::new();
    reader.on_enter(b"A.EPB".to_vec(), true, false, metrics, 130, 100, &mut clock);
    reader.look.chosen.font_size_idx = 3;
    reader.chapter = 7;
    let mut home = HomeApp::new();
    home.selected = 2;
    let s = m.collect_session(&reader, &home);
    assert_eq!(s.nav.depth, 2);
    assert_eq!(s.reader_name, b"A.EPB");
    assert_eq!((s.reader.is_epub, s.reader.chapter, s.reader.font_size), (true, 7, 3));
    assert_eq!((s.reader.page, s.reader.byte_offset, s.home.selected), (0, 0, 2));
    let mut woken = AppManager::new();
    let mut reader = ReaderApp::new();
    let mut home = HomeApp::new();
    let inputs = WakeInputs { battery_pct: 77, metrics, spacing_pct: 130, now: 900 };
    let w = woken.apply_session(&s, inputs, &mut home, &mut reader, &mut clock);
    assert_eq!(w, Wake { restored: true, prepare_loading: true, full_redraw: false });
    assert_eq!((reader.filename_bytes(), reader.font_size_idx()), (&b"A.EPB"[..], 3));
    assert_eq!((reader.chapter(), reader.loading.reason), (0, LoadingReason::Resume));
    assert_eq!((home.selected, home.bat_pct, home.needs_load), (2, 77, true));
    assert_eq!(woken.stack, vec![AppId::Library, AppId::Reader]);
    assert_eq!(woken.active_tab(), Tab::Library);
    assert_eq!(woken.fill_sleep_card(true, true), SleepSource::Reader);
    assert_eq!(woken.fill_sleep_card(false, true), SleepSource::Home);
    assert_eq!(AppManager::new().fill_sleep_card(true, false), SleepSource::Nothing);
    let mut other = ReaderApp::new();
    for depth in [0, 5] {
        let bad = session(&s, NavCodes { depth, ..s.nav });
        let w = woken.apply_session(&bad, inputs, &mut home, &mut other, &mut clock);
        assert_eq!(w, Wake { restored: false, prepare_loading: false, full_redraw: false });
    }
    assert!(!other.has_book());
    assert_eq!(woken.active(), AppId::Reader);
    // without the reader in the stack it is left alone
    let tabs = session(&s, NavCodes { depth: 1, nav0: 1, ..s.nav });
    let w = woken.apply_session(&tabs, inputs, &mut home, &mut other, &mut clock);
    assert_eq!(w, Wake { restored: true, prepare_loading: false, full_redraw: true });
    assert!(!other.has_book());
}

#[test]
fn frames_have_their_layers() {
    let mut m = AppManager::new();
    let w = FrameWishes { show_top: true, show_tabs: true, hide_buttons: false };
    let l = m.draw(w, true, true, true);
    assert!(l.top_bar && l.loading && !l.cache_sheet && !l.menu && !l.buttons);
    assert!(m.set_chrome_state(50, true));
    assert!(!m.set_chrome_state(50, true));
    assert!(!m.set_chrome_state(51, false));
    assert_eq!(m.ghost_clear_every(Some(7), 10), 7);
    assert_eq!(m.ghost_clear_every(None, 10), 10);
    assert_eq!(
        m.run_background_step(),
        vec![AppId::Library, AppId::Reader, AppId::Settings, AppId::Stats]
    );
    assert_eq!(flush_deferred_persistence(&[None, Some(4), Some(5)]), Some(4));
    assert_eq!(flush_deferred_persistence(&[None, None]), None);
}
