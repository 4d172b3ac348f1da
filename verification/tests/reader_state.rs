use plump_apps::book_record::{BookRecord, Position, ReadingStats};
use plump_apps::hash::fnv1a;
use plump_apps::markup::Anchor;
use plump_apps::nav::{Action, ActionEvent, BgOutcome, Transition};
use plump_apps::reader::clock::LoadingClock;
use plump_apps::reader::contents::SheetRows;
use plump_apps::reader::draw::Layers;
use plump_apps::reader::index::{PageIndex, TextSource};
use plump_apps::reader::labels::QuickAction;
use plump_apps::reader::lifecycle::Resumed;
use plump_apps::reader::loading::TypesetEnd;
use plump_apps::reader::look::inline_img_max_h;
use plump_apps::reader::opening::{Bookmark, OpfInfo, Work};
use plump_apps::reader::outcomes::ImageTick;
use plump_apps::reader::paging::{
    Ahead, AheadSource, IndexWork, LoadWork, PageLoad, Preindex,
};
use plump_apps::reader::persist::FlushPlan;
use plump_apps::reader::plate::{centred_in, footer_layout, plate_layout, stage_layout, PlateText};
use plump_apps::reader::session::BundleHead;
use plump_apps::reader::state::{
    footer_region, position_overlay, stage_region, BgCacheState, FontMetrics, Indicator,
    LoadingReason, Paint, PendingPositionChange, ReaderApp, ReadingTheme, State, TocEntry,
    NO_CHAPTER,
};
use plump_apps::reader::turning::{QA_FONT_SIZE, QA_NEXT_CHAPTER, QA_PREV_CHAPTER, QA_TOC};
use plump_apps::recent::{RecentRecord, BUF_LEN};
use plump_apps::ui::Region;

const ROWS: SheetRows = SheetRows { anchored: 4, full: 10 };

const MORE: Work = Work::Return(BgOutcome::Progress { more: true });

fn metrics() -> Option<FontMetrics> {
    Some(FontMetrics { native_h: 18, em_px: 16, ascent: 14 })
}

fn entry(spine_idx: u16, title: &str) -> TocEntry {
    TocEntry { spine_idx, title: title.to_string() }
}

fn entered(is_epub: bool) -> (ReaderApp, LoadingClock) {
    let mut clock = LoadingClock::start();
    let mut a = ReaderApp::new();
    let name = if is_epub { b"A.EPB".to_vec() } else { b"A.TXT".to_vec() };
    a.on_enter(name, is_epub, false, metrics(), 130, 100, &mut clock);
    (a, clock)
}

// a book of five chapters at chapter 2, page 1 of 3
fn reading() -> (ReaderApp, LoadingClock) {
    let (mut a, clock) = entered(true);
    a.book.spine_len = 5;
    a.book.file_size = 3000;
    a.chapter = 2;
    a.pg.offsets = vec![0, 1000, 2000];
    a.pg.fully_indexed = true;
    a.pg.page = 1;
    a.cache.ready = true;
    for i in 0..5 {
        a.cache.done[i] = true;
    }
    a.contents.toc = vec![entry(0, "One"), entry(2, "Two"), entry(NO_CHAPTER, "Part"), entry(4, "")];
    a.state = State::Ready;
    (a, clock)
}

fn position() -> Position {
    Position {
        archive_size: 77,
        chapter: 3,
        byte_offset: 1500,
        content_fmt: 0,
        para: 4,
        word: 5,
        layout_key: 9,
        page: 2,
        chapter_no: 4,
        chapter_count: 5,
        progress_pct: 60,
        font_idx: 0,
    }
}

fn opf(spine_len: usize) -> OpfInfo {
    OpfInfo { spine_len, archive_size: 77, has_cover: true, core_ready: true }
}

#[test]
fn a_book_opens_step_by_step() {
    let (mut a, _) = entered(true);
    assert_eq!(a.state, State::NeedBookmark);
    assert!(a.shows_loading_screen());
    assert_eq!(a.background_step(0, 9, true, false).work, Work::LoadRecord);
    let rec = BookRecord {
        stats: ReadingStats { pages: 10, time_secs: 100, sessions: 2 },
        pos: Some(position()),
        seq: 7,
    };
    let s = a.after_record(Some(rec), None, false);
    assert_eq!((s.work, s.stage, s.paint), (MORE, false, Paint::Nothing));
    assert_eq!(a.log.stats.sessions, 3);
    assert_eq!(a.background_step(0, 9, true, false).work, Work::OpenZip);
    assert_eq!(a.after_zip(Ok(()), 100).work, MORE);
    // the load takes long, so its screen goes up, with a clear
    let s = a.background_step(400, 9, true, false);
    assert_eq!((s.work, s.paint), (Work::ParseOpf, Paint::Full));
    let s = a.after_opf(Ok(opf(5)), 100);
    assert!(s.stage);
    assert_eq!((a.chapter, a.restore.offset, a.restore.page_hint), (3, Some(1500), Some(2)));
    assert_eq!(a.restore.anchor, Some(Anchor { para: 4, word: 5 }));
    assert_eq!(a.background_step(500, 9, true, false).work, Work::LoadToc);
    a.after_toc(Some(vec![entry(0, "One"), entry(3, "Four")]));
    assert_eq!(a.contents.toc.len(), 2);
    assert_eq!(a.background_step(500, 9, true, false).work, Work::CheckCache);
    assert_eq!(a.after_cache_check(Ok(false), 100).work, Work::CacheBegin);
    assert_eq!(a.after_cache_begin(Ok(()), 100).work, Work::CacheStep);
    assert_eq!(a.after_cache_step(Ok(false), 100).work, MORE);
    assert_eq!(a.after_cache_step(Ok(true), 100).work, Work::DispatchNearby);
    assert!(a.cache.ready && a.cache.done[3]);
    a.after_nearby(true);
    assert_eq!(a.cache.bg, BgCacheState::WaitNearbyImage);
    let s = a.background_step(500, 9, true, false);
    assert_eq!(s.work, Work::Index { fresh: true, last: false });
    a.after_index(false, false);
    a.pg.offsets = vec![0, 1000, 1400, 2000];
    a.pg.fully_indexed = true;
    let s = a.background_step(500, 9, true, false);
    assert_eq!(s.work, Work::LoadPage { seek: None });
    assert_eq!(a.pg.page, 2);
    let s = a.after_page(Ok(()), None, ROWS, 105);
    assert_eq!((s.paint, s.indicator), (Paint::Page, Indicator::Clear));
    assert_eq!(a.state, State::Ready);
    assert!(a.log.running);
    assert_eq!(a.log.flush_at, Some(135));
    // the cover waits until the page is on screen
    assert_eq!(a.background_step(500, 9, true, false).work, MORE);
    assert_eq!(a.background_step(500, 9, true, false).work, Work::RefreshPages);
    let stored = vec![7u16; 256];
    let s = a.after_pages(&stored, true, false);
    assert_eq!(s.work, Work::MakeCover);
    assert_eq!(&a.contents.pages[..6], &[7, 7, 7, 4, 7, 0]);
    let s = a.background_step(500, 9, true, false);
    assert_eq!((s.work, s.indicator), (Work::StepCache, Indicator::Caching));
}

#[test]
fn a_position_of_another_file_is_dropped() {
    let (mut a, _) = entered(true);
    let other = Position { archive_size: 78, ..position() };
    a.after_record(Some(BookRecord { pos: Some(other), ..BookRecord::empty() }), None, false);
    a.after_opf(Ok(opf(5)), 100);
    assert_eq!((a.chapter, a.restore.offset, a.restore.pending), (0, None, None));
    // a chapter that the book does not have
    let (mut a, _) = entered(true);
    a.after_record(Some(BookRecord { pos: Some(position()), ..BookRecord::empty() }), None, false);
    a.after_opf(Ok(opf(2)), 100);
    assert_eq!((a.chapter, a.restore.offset), (0, None));
    // an old bookmark is kept within the book
    let (mut a, _) = entered(true);
    a.after_record(None, Some(Bookmark { chapter: 9, byte_offset: 5, page_hint: 0 }), true);
    assert!(a.has_cover);
    a.after_opf(Ok(opf(2)), 100);
    assert_eq!((a.chapter, a.restore.offset, a.restore.page_hint), (1, Some(5), None));
}

#[test]
fn an_anchor_is_looked_up_when_the_text_changed() {
    let (mut a, _) = entered(true);
    a.after_record(Some(BookRecord { pos: Some(position()), ..BookRecord::empty() }), None, false);
    a.after_opf(Ok(opf(5)), 100);
    a.state = State::NeedPage;
    a.book.content_fmt = 3;
    a.pg.offsets = vec![0, 1000, 2000];
    a.pg.fully_indexed = true;
    let s = a.background_step(0, 9, true, false);
    assert_eq!(s.work, Work::ResolveAnchor(Anchor { para: 4, word: 5 }));
    let s = a.after_anchor(Some(2100), 9);
    assert_eq!((s.work, a.pg.page), (Work::LoadPage { seek: None }, 2));
}

#[test]
fn a_text_is_searched_page_by_page() {
    let (mut a, _) = entered(false);
    let p = Position { byte_offset: 250, ..position() };
    a.after_record(Some(BookRecord { pos: Some(p), ..BookRecord::empty() }), None, false);
    assert_eq!(a.state, State::NeedPage);
    let s = a.background_step(0, 9, true, false);
    assert_eq!(s.work, Work::LoadPage { seek: Some(250) });
    a.pg.note_filled(100, true, 1000);
    let s = a.after_page(Ok(()), Some(250), ROWS, 100);
    assert_eq!((s.work, a.pg.page), (Work::LoadPage { seek: Some(250) }, 1));
    a.pg.note_filled(200, true, 1000);
    let s = a.after_page(Ok(()), Some(250), ROWS, 100);
    assert_eq!((s.work, a.pg.page, a.state), (MORE, 1, State::Ready));
}

#[test]
fn errors_stop_the_load() {
    let works: [fn(&mut ReaderApp); 7] = [
        |a| {
            a.after_zip(Err(5), 110);
        },
        |a| {
            a.after_opf(Err(5), 110);
        },
        |a| {
            a.after_cache_check(Err(5), 110);
        },
        |a| {
            a.after_cache_begin(Err(5), 110);
        },
        |a| {
            a.after_cache_step(Err(5), 110);
        },
        |a| {
            a.after_scan(Err(5), ROWS, 110);
        },
        |a| {
            a.after_page(Err(5), None, ROWS, 110);
        },
    ];
    for f in works {
        let (mut a, _) = entered(true);
        f(&mut a);
        assert_eq!((a.state, a.error, a.pending_change), (State::Error, Some(5), None));
        let s = a.background_step(9999, 9, true, false);
        assert_eq!(s.work, Work::Return(BgOutcome::Idle));
        let (cap, val, pct) = a.loading_stage("LARGE", "no such file");
        assert_eq!((cap.as_str(), val.as_str(), pct), ("COULD NOT OPEN", "no such file", None));
        assert!(a.layers(false).loading);
    }
}

#[test]
fn a_chapter_waits_for_memory() {
    let (mut a, _) = reading();
    assert!(a.page_backward() && a.page() == 0);
    a.state = State::Ready;
    assert!(a.page_backward());
    assert_eq!((a.chapter(), a.goto_last_page, a.state), (1, true, State::NeedIndex));
    let s = a.background_step(0, 9, true, false);
    assert_eq!(s.work, Work::AskLayout);
    let s = a.after_layout(false);
    assert_eq!(s.work, Work::Index { fresh: true, last: true });
    assert_ne!(s.paint, Paint::Nothing);
    a.typesetting.waits = 1;
    let s = a.after_index(true, true);
    assert_eq!(s.work, Work::TakeImage);
    let s = a.after_image(true);
    assert_eq!(s.work, Work::Return(BgOutcome::WaitingExternal));
    assert_eq!(a.cache.img_cached, 1);
    a.after_image(false);
    assert_eq!(a.cache.img_cached, 1);
    assert_eq!(a.loading_stage("", "").0, "WAITING FOR IMAGES");
    let s = a.background_step(0, 9, true, false);
    assert_eq!(s.work, Work::Index { fresh: false, last: true });
    assert_eq!(a.after_index(false, true).work, Work::ScanToEnd);
    a.after_scan(Ok(()), ROWS, 120);
    assert_eq!(a.state, State::Ready);
}

#[test]
fn a_missing_chapter_is_cached_first() {
    let (mut a, _) = reading();
    a.cache.done[3] = false;
    a.pg.page = 2;
    assert!(a.page_forward());
    let s = a.background_step(0, 9, true, false);
    assert_eq!(s.work, Work::CacheBegin);
    a.after_cache_begin(Ok(()), 100);
    let s = a.after_cache_step(Ok(true), 100);
    assert_eq!(s.work, Work::Index { fresh: true, last: false });
}

#[test]
fn buttons_turn_pages() {
    let (mut a, mut c) = reading();
    let press = |x| ActionEvent::Press(x);
    assert_eq!(a.on_event(press(Action::Next), ROWS, 0, &mut c), (Transition::Stay, Paint::Nothing));
    assert_eq!((a.pg.page, a.state), (2, State::NeedPage));
    assert_eq!(a.loading.reason, LoadingReason::Chapter);
    // nothing moves before the page is there
    a.on_event(press(Action::Next), ROWS, 0, &mut c);
    assert_eq!((a.pg.page, a.chapter), (2, 2));
    a.state = State::Ready;
    a.on_event(press(Action::Next), ROWS, 0, &mut c);
    assert_eq!((a.chapter, a.state), (3, State::NeedIndex));
    a.state = State::Ready;
    a.on_event(press(Action::NextJump), ROWS, 0, &mut c);
    assert_eq!(a.chapter, 4);
    a.state = State::Ready;
    a.on_event(press(Action::NextJump), ROWS, 0, &mut c);
    assert_eq!((a.chapter, a.state), (4, State::Ready));
    a.on_event(press(Action::PrevJump), ROWS, 0, &mut c);
    assert_eq!((a.chapter, a.goto_last_page), (3, false));
    a.state = State::Ready;
    let (t, _) = a.on_event(press(Action::Back), ROWS, 0, &mut c);
    assert_eq!(t, Transition::Pop);
    let (t, _) = a.on_event(ActionEvent::LongPress(Action::Back), ROWS, 0, &mut c);
    assert_eq!(t, Transition::Home);
    let (_, p) = a.on_event(ActionEvent::LongPress(Action::NextJump), ROWS, 50, &mut c);
    assert_eq!((p, a.pg.page, a.state, a.log.flush_at), (Paint::Page, 2, State::Ready, Some(80)));
    let (_, p) = a.on_event(ActionEvent::LongPress(Action::PrevJump), ROWS, 50, &mut c);
    assert_eq!((p, a.pg.page), (Paint::Page, 0));
    a.on_event(ActionEvent::LongPress(Action::Next), ROWS, 50, &mut c);
    assert!(a.show_position);
    let (_, p) = a.on_event(ActionEvent::Release(Action::Next), ROWS, 50, &mut c);
    assert_eq!((p, a.show_position), (Paint::Overlay, false));
}

#[test]
fn texts_jump_by_ten_pages() {
    let (mut a, _) = entered(false);
    a.pg.offsets = (0..25).map(|i| i * 100).collect();
    a.state = State::Ready;
    a.pg.page = 8;
    assert!(a.jump_forward());
    assert_eq!(a.pg.page, 18);
    a.state = State::Ready;
    assert!(a.jump_forward());
    assert_eq!(a.pg.page, 24);
    a.state = State::Ready;
    assert!(!a.jump_forward());
    a.pg.page = 3;
    assert!(a.jump_backward());
    assert_eq!(a.pg.page, 0);
    a.state = State::Ready;
    assert!(!a.jump_backward());
    // turning back undoes turning forward
    assert!(a.page_forward());
    a.state = State::Ready;
    assert!(a.page_backward());
    assert_eq!(a.pg.page, 0);
}

#[test]
fn the_contents_sheet_opens_and_closes() {
    let (mut a, mut c) = reading();
    assert_eq!(a.on_quick_trigger(QA_TOC, ROWS, &mut c), Paint::Page);
    assert_eq!((a.state, a.contents.selected), (State::ShowToc, 1));
    assert!(a.captures_menu());
    let press = |x| ActionEvent::Press(x);
    let (_, p) = a.on_event(press(Action::Next), ROWS, 0, &mut c);
    assert_eq!((p, a.contents.selected), (Paint::Rows(1, 2), 2));
    // a part has no chapter
    let (_, p) = a.on_event(press(Action::Select), ROWS, 0, &mut c);
    assert_eq!((p, a.state, a.chapter), (Paint::Page, State::Ready, 2));
    a.open_contents(ROWS);
    let (_, p) = a.on_event(press(Action::NextJump), ROWS, 0, &mut c);
    assert_eq!((p, a.contents.expanded), (Paint::Page, true));
    a.on_event(press(Action::Prev), ROWS, 0, &mut c);
    a.on_event(press(Action::Prev), ROWS, 0, &mut c);
    assert_eq!(a.contents.selected, 3);
    a.on_event(press(Action::Select), ROWS, 0, &mut c);
    assert_eq!((a.chapter, a.pg.page, a.state), (4, 0, State::NeedIndex));
    a.state = State::ShowToc;
    let (t, p) = a.on_event(press(Action::Back), ROWS, 0, &mut c);
    assert_eq!((t, p, a.state), (Transition::Stay, Paint::Page, State::Ready));
}

#[test]
fn the_sheet_scrolls_with_its_selection() {
    let (mut a, _) = reading();
    a.contents.toc = (0..20).map(|i| entry(i, "x")).collect();
    a.chapter = 12;
    a.book.spine_len = 20;
    a.open_contents(ROWS);
    assert_eq!((a.contents.selected, a.contents.scroll), (12, 10));
    assert_eq!(a.contents.step(true, ROWS), Paint::Rows(2, 3));
    assert_eq!(a.contents.step(true, ROWS), Paint::Sheet);
    assert_eq!(a.contents.scroll, 11);
    for _ in 0..6 {
        a.contents.step(true, ROWS);
    }
    assert_eq!((a.contents.selected, a.contents.scroll), (0, 0));
    a.contents.step(false, ROWS);
    assert_eq!((a.contents.selected, a.contents.scroll), (19, 16));
    assert!(a.contents.resize(true, ROWS));
    assert_eq!(a.contents.scroll, 10);
    assert!(!a.contents.resize(true, ROWS));
}

#[test]
fn the_menu_changes_chapters() {
    let (mut a, mut c) = reading();
    a.on_quick_trigger(QA_NEXT_CHAPTER, ROWS, &mut c);
    assert_eq!((a.chapter, a.state), (3, State::NeedIndex));
    a.state = State::Ready;
    a.on_quick_trigger(QA_PREV_CHAPTER, ROWS, &mut c);
    assert_eq!(a.chapter, 2);
    let rows = a.quick_actions();
    assert_eq!(rows.len(), 2);
    assert!(matches!(rows[0], QuickAction::Contents { chapter: 3, chapters: 5 }));
    assert!(matches!(rows[1], QuickAction::FontSize { idx: 0 }));
    a.state = State::Ready;
    let p = a.on_quick_cycle_update(QA_FONT_SIZE, 2, metrics(), 130, &mut c);
    assert_ne!(p, Paint::Nothing);
    assert_eq!((a.font_size_idx(), a.state), (2, State::NeedIndex));
    assert_eq!(a.loading_stage("LARGE", "").0, "TYPESETTING \u{00B7} LARGE");
    let p = a.on_quick_cycle_update(QA_FONT_SIZE, 2, metrics(), 130, &mut c);
    assert_eq!(p, Paint::Nothing);
}

#[test]
fn the_loading_screen_goes_up_once() {
    let (mut a, mut c) = entered(true);
    assert_eq!(a.loading_tick_after(399), Paint::Nothing);
    assert_eq!(a.loading_tick_after(400), Paint::Full);
    assert_eq!(a.loading_tick_after(9999), Paint::Nothing);
    a.begin_loading(LoadingReason::Chapter, &mut c);
    assert_eq!(a.loading_tick_after(400), Paint::LoadingArea);
    a.begin_loading(LoadingReason::Resume, &mut c);
    assert_eq!(a.loading_tick_after(1499), Paint::Nothing);
    assert_eq!(a.loading_tick_after(1500), Paint::Page);
    a.begin_loading(LoadingReason::Open, &mut c);
    // no 400 ms have passed since
    assert_eq!(a.loading_tick(&c), Paint::Nothing);
    assert!(!a.layers(false).loading && !a.layers(false).page);
    a.state = State::Ready;
    assert_eq!(a.loading_tick_after(9999), Paint::Nothing);
    assert!(a.wants_grayscale());
    assert_eq!(
        a.layers(false),
        Layers { footer: true, loading: false, page: true, overlay: false, sheet: false }
    );
    assert!(!a.layers(true).footer);
    assert_eq!(a.loading_visual_region(), Region::new(8, 8, 464, 758));
}

#[test]
fn the_clock_runs() {
    let mut c = LoadingClock::start();
    let mut spins = 0u64;
    while c.elapsed_ms() < 20 {
        spins += 1;
    }
    assert!(spins > 0);
    c.restart();
    assert!(c.elapsed_ms() < 10_000);
}

#[test]
fn reading_time_is_counted() {
    let (mut a, _) = reading();
    a.log.commit_position_change(PendingPositionChange::OpenReady, 1000);
    a.log.commit_position_change(PendingPositionChange::PageTurn, 1060);
    assert_eq!((a.log.stats.pages, a.log.stats.time_secs), (1, 60));
    // a long pause does not count
    a.log.commit_position_change(PendingPositionChange::PageTurn, 1660);
    assert_eq!((a.log.stats.pages, a.log.stats.time_secs), (2, 60));
    assert!(a.log.stats_pause_clock(1670));
    assert!(!a.log.stats_pause_clock(1700));
    assert_eq!(a.reading_stats(), ReadingStats { pages: 2, time_secs: 70, sessions: 0 });
    assert_eq!(a.log.drain_day_stats(), (2, 70));
    assert_eq!(a.log.drain_day_stats(), (0, 0));
    a.log.stats_resume_clock(2000);
    a.log.suspend(2010);
    assert_eq!(a.log.stats.time_secs, 80);
}

#[test]
fn the_record_is_written_when_due() {
    let (mut a, _) = reading();
    a.log.record_load(Some(BookRecord { pos: Some(position()), seq: 7, ..BookRecord::empty() }));
    a.log.arm_persist_debounce(1000);
    assert_eq!(a.log.flush_deferred_persistence(false, 1029), None);
    let plan = a.log.flush_deferred_persistence(false, 1030);
    assert_eq!(plan, Some(FlushPlan { recent: false, record: true }));
    assert_eq!(a.log.record_flush(false, None, 1030), None);
    // outside of reading the last place is kept
    let rec = a.log.record_flush(true, None, 1030).unwrap();
    assert_eq!((rec.seq, rec.pos), (8, Some(position())));
    let here = a.current_position(9, Some(Anchor { para: 1, word: 2 }));
    let rec = a.log.record_flush(true, here, 1030).unwrap();
    let p = rec.pos.unwrap();
    assert_eq!((p.chapter, p.byte_offset, p.page, p.para, p.word), (2, 1000, 1, 1, 2));
    assert_eq!((p.chapter_no, p.chapter_count, p.progress_pct), (2, 4, 46));
    a.log.record_saved(&rec);
    assert!(!a.log.dirty);
    assert_eq!(a.log.record_flush(true, here, 1030), None);
    a.log.finish_flush(false, false, 1030);
    assert_eq!(a.log.flush_deferred_persistence(true, 1031), None);
    a.log.record_load(Some(BookRecord { seq: u32::MAX, ..BookRecord::empty() }));
    assert_eq!(a.log.record_flush(true, None, 0).unwrap().seq, 0);
}

#[test]
fn progress_goes_through_the_chapters() {
    let (mut a, _) = reading();
    assert_eq!(a.progress_pct(), 46);
    a.chapter = 4;
    assert_eq!(a.progress_pct(), 86);
    a.pg.page = 2;
    assert_eq!(a.progress_pct(), 100);
    assert_eq!(a.book_position(), None);
    for i in 0..5 {
        a.contents.pages[i] = 3;
    }
    assert_eq!(a.book_position(), Some((15, 15)));
    a.book.is_epub = false;
    a.pg.fully_indexed = false;
    assert_eq!(a.progress_pct(), 66);
    a.book.file_size = 0;
    assert_eq!(a.progress_pct(), 100);
}

#[test]
fn caching_makes_progress() {
    let (mut a, _) = reading();
    assert!(!a.has_bg_work());
    assert_eq!(a.footer_text(), "");
    a.cache.bg = BgCacheState::CacheChapter;
    a.cache.done[4] = false;
    a.cache.done[3] = false;
    assert!(a.has_bg_work() && a.in_chapter_phase());
    assert_eq!(a.cached_chapter_count(), 3);
    assert_eq!(a.cache_loading_pct(), 48);
    assert_eq!(a.footer_text(), "[3/5]");
    assert_eq!(a.set_cache_loading(), "Caching 3/5");
    let before = a.cache_mark();
    assert_eq!(a.after_step_cache(before, true), Indicator::Keep);
    a.cache.done[3] = true;
    a.cache.done[4] = true;
    assert_eq!(a.after_step_cache(before, true), Indicator::Caching);
    assert_eq!(a.footer_text(), "[img]");
    a.cache.img_found = 8;
    a.cache.img_cached = 2;
    assert_eq!(a.cache_loading_pct(), 85);
    assert_eq!(a.footer_text(), "[img 2/8]");
    assert_eq!(a.set_cache_loading(), "Caching images 2/8");
    // an indicator that could not be painted is caught up
    a.after_step_cache(before, false);
    assert!(a.cache.ui_stale);
    let s = a.background_step(0, 9, true, true);
    assert_eq!(s.indicator, Indicator::Caching);
    a.cache.bg = BgCacheState::WaitImage;
    a.bg_work_tick(ImageTick::Received { dispatched: false });
    assert_eq!((a.cache.bg, a.cache.img_cached), (BgCacheState::CacheImage, 3));
    a.cache.bg = BgCacheState::WaitNearbyImage;
    a.bg_work_tick(ImageTick::Nothing { at_rest: false });
    assert_eq!(a.cache.bg, BgCacheState::WaitNearbyImage);
    a.bg_work_tick(ImageTick::Failed);
    assert_eq!((a.cache.bg, a.cache.img_cached), (BgCacheState::CacheChapter, 3));
}

#[test]
fn captions_tell_where_the_reader_is() {
    let (mut a, _) = reading();
    assert_eq!(a.chapter_numbering(), (2, 4));
    assert_eq!(a.overlay_text(), "Ch 3/5  Page 2/3");
    assert_eq!(a.menu_meta(), "Two \u{00B7} 46% read");
    assert_eq!(a.sheet_text("Me"), "Me \u{00B7} 5 chapters \u{00B7} 5 not yet laid out");
    for i in 0..5 {
        a.contents.pages[i] = 4;
    }
    assert_eq!(a.sheet_text(""), "5 chapters \u{00B7} 20 pages");
    let rows = a.sheet_rows(8);
    let values: Vec<&str> = rows.iter().map(|r| r.value.as_str()).collect();
    assert_eq!(values, vec!["4", "2 / 3", "\u{00B7}", "4"]);
    assert!(rows[1].here && rows[1].progress == Some((2, 3)));
    a.chapter = 1;
    assert_eq!(a.chapter_numbering(), (0, 4));
    assert_eq!(a.menu_meta(), "Chapter 2 of 5 \u{00B7} 26% read");
    a.contents.toc = Vec::new();
    assert_eq!(a.chapter_numbering(), (2, 5));
    assert_eq!(a.save_position(), Some((1000, 1)));
    assert_eq!(a.loading_resume_line(), "Chapter 2 of 5 \u{00B7} 26% read");
    a.chapter = 0;
    assert_eq!(a.loading_resume_line(), "From the start \u{00B7} 5 chapters");
    a.book.spine_len = 0;
    a.book.spine_hint = 6;
    assert_eq!(a.loading_resume_line(), "6 chapters");
    let (mut t, _) = entered(false);
    t.book.file_size = 5000;
    assert_eq!(t.loading_resume_line(), "4 KB");
    assert_eq!(t.overlay_text(), "Page 1  (0%)");
    assert_eq!(t.loading_stage("", ""), ("OPENING".to_string(), "5%".to_string(), Some(5)));
}

#[test]
fn stages_rise() {
    let (mut a, _) = reading();
    let states = [
        State::NeedBookmark,
        State::NeedInit,
        State::NeedOpf,
        State::NeedToc,
        State::NeedCache,
        State::NeedIndex,
        State::NeedPage,
        State::Ready,
    ];
    let mut last = 0;
    for s in states {
        a.state = s;
        let pct = a.loading_stage("", "").2.unwrap();
        assert!(pct > last);
        last = pct;
    }
    a.state = State::NeedCache;
    assert_eq!(a.loading_stage("", "").0, "CACHING CHAPTER 3 OF 5");
    a.state = State::NeedIndex;
    assert_eq!(a.loading_stage("", "").0, "TYPESETTING CHAPTER 3 OF 5");
}

#[test]
fn lines_fit_the_text_area() {
    let mut a = ReaderApp::new();
    assert_eq!(a.look.area.h, 758);
    a.set_book_font_size(1, metrics(), 130);
    // 16 pixels at 130 percent
    assert_eq!((a.look.fit.line_h, a.look.fit.max_lines), (21, 36));
    assert!(a.look.typeset_stale);
    a.look.typeset_stale = false;
    a.set_line_spacing(2, metrics(), 200);
    assert_eq!((a.look.fit.line_h, a.look.fit.max_lines), (32, 23));
    a.set_line_spacing(0, metrics(), 50);
    assert_eq!(a.look.fit.line_h, 18);
    assert!(!a.look.typeset_stale && a.look.pagination_stale);
    a.set_reading_theme(1, ReadingTheme { margin_h: 40, margin_v: 20 }, metrics(), 130);
    assert_eq!((a.look.area.w, a.look.area.y, a.look.area.h), (400, 28, 738));
    assert!(a.look.typeset_stale);
    a.set_show_chrome(false, metrics(), 130);
    assert_eq!(a.look.area.h, 768);
    a.set_reader_font(3, None, 130);
    assert_eq!((a.look.fit.line_h, a.look.fit.max_lines), (20, 37));
    a.set_text_alignment(1);
    a.set_ui_font_size(2);
    assert_eq!((a.look.chosen.text_alignment, a.look.chosen.ui_font_idx), (1, 2));
    assert_eq!(inline_img_max_h(758), 303);
    let k = a.look.current_layout_key(3);
    assert_eq!(k, a.look.current_layout_key(3));
    assert_ne!(k, a.look.current_layout_key(4));
}

#[test]
fn a_new_layout_finds_the_place_again() {
    let (mut a, mut c) = reading();
    a.set_book_font_size(3, metrics(), 130);
    let r = a.on_resume(metrics(), 130, 500, &mut c);
    assert_eq!(r, Resumed { paint: Paint::Full, invalidate: true });
    assert_eq!((a.restore.offset, a.restore.page_hint), (Some(1000), Some(1)));
    assert_eq!((a.state, a.pg.total_pages()), (State::NeedIndex, 1));
    let (mut a, mut c) = reading();
    let r = a.on_resume(metrics(), 130, 500, &mut c);
    assert_eq!((r.paint, r.invalidate, a.state), (Paint::Page, false, State::Ready));
    a.set_line_spacing(1, metrics(), 200);
    let r = a.on_resume(metrics(), 200, 500, &mut c);
    assert!(!r.invalidate);
    assert_eq!(a.state, State::NeedIndex);
}

#[test]
fn leaving_and_waking() {
    let (mut a, mut c) = reading();
    a.log.stats_resume_clock(100);
    a.on_exit(150);
    assert_eq!(a.log.stats.time_secs, 50);
    assert!(a.contents.toc.is_empty() && !a.log.running && a.log.dirty);
    let (mut a, _) = reading();
    a.on_pre_sleep();
    assert!(a.contents.toc.is_empty());
    a.restore_state(b"B.EPB".to_vec(), true, 4, metrics(), 130, 900, &mut c);
    assert_eq!((a.state, a.loading.reason), (State::NeedBookmark, LoadingReason::Resume));
    assert_eq!(a.loading_stage("", "").0, "RESUMING");
    assert_eq!((a.filename_bytes(), a.font_size_idx()), (&b"B.EPB"[..], 4));
    assert_eq!(a.pending_change, Some(PendingPositionChange::RestoreReady));
    let o = a.background_suspended_step(ImageTick::Nothing { at_rest: true });
    assert_eq!(o, BgOutcome::Idle);
}

#[test]
fn the_book_has_a_name() {
    let (mut a, _) = entered(true);
    assert!(a.has_book() && a.is_epub() && a.filename_len() == 5);
    assert_eq!(a.display_name(), b"A.EPB");
    assert_eq!(a.placeholder_id(), fnv1a(b"A.EPB"));
    let head = |h: u32| BundleHead {
        name_hash: h,
        core_ready: true,
        title: b"Title".to_vec(),
        spine_count: 8,
    };
    a.prefill_title_from_bundle(head(1));
    assert_eq!(a.display_name(), b"A.EPB");
    assert!(!a.save_title_mapping(None));
    a.prefill_title_from_bundle(head(fnv1a(b"A.EPB")));
    assert_eq!((a.display_name(), a.book.spine_hint), (&b"Title"[..], 8));
    assert!(a.save_title_mapping(None) && !a.save_title_mapping(Some(b"Title")));
    assert!(a.wants_cover());
    a.has_cover = true;
    assert!(!a.wants_cover());
    a.book.name_hash = 42;
    assert_eq!(a.placeholder_id(), 42);
    let mut out = [0u8; BUF_LEN];
    let n = a.write_recent(b"Author", &mut out);
    let r = RecentRecord::decode(&out[..n]);
    assert_eq!(r.author, b"Author");
}

#[test]
fn the_sleep_card_tells_the_place() {
    let (mut a, _) = reading();
    let c = a.fill_sleep_card();
    assert_eq!((c.progress, c.chapter_pages, c.book_pages), (46, Some((2, 3)), None));
    assert_eq!((c.chapter_entry, c.chapter_number), (Some(1), Some((2, 4))));
    let stored = vec![6u16; 256];
    assert!(a.chapter_has_layout(&stored));
    assert_eq!(&a.contents.pages[..6], &[6, 6, 6, 6, 6, 0]);
    let (mut a, _) = reading();
    assert!(!a.chapter_has_layout(&vec![0u16; 256]));
}

#[test]
fn the_footer_parts_stand_apart() {
    let f = footer_layout(true, 779, 8, Some(60));
    assert_eq!(f.bar, Some(Region::new(376, 775, 96, 8)));
    assert_eq!(f.status, Some(Region::new(304, 770, 60, 18)));
    assert_eq!(f.title, Region::new(8, 770, 284, 18));
    let f = footer_layout(false, 779, 8, None);
    assert_eq!((f.bar, f.status, f.title.w), (None, None, 452));
    let (mut a, _) = entered(false);
    assert!(!a.is_measurable());
    a.book.file_size = 1;
    assert!(a.is_measurable());
    assert_eq!(footer_region(), Region::new(8, 770, 464, 18));
    assert_eq!(position_overlay(), Region::new(100, 380, 280, 40));
}

#[test]
fn the_plate_reads_downwards() {
    let s = stage_layout(50, 40);
    assert_eq!(stage_region(), Region::new(8, 712, 464, 34));
    assert_eq!(s.value_x, 432);
    assert_eq!(s.filled, Region::new(8, 738, 232, 2));
    let t = PlateText { title_h: 30, two_lines: true, author_h: Some(20), resume_h: Some(20) };
    let p = plate_layout(Region::new(8, 8, 464, 758), t);
    assert_eq!((p.cover.y, p.cover.x), (112, 8 + (464 - p.cover.w) / 2));
    assert_eq!(p.title.y, 112 + p.cover.h + 30);
    assert_eq!(p.second.unwrap().y, p.title.y + 30);
    assert_eq!(p.author.unwrap().y, p.title.y + 68);
    assert_eq!(p.rule.y, p.title.y + 110);
    assert_eq!(p.resume.unwrap().y, p.title.y + 130);
    assert_eq!(centred_in(Region::new(10, 20, 100, 50), 60, 60), (30, 20));
}

#[test]
fn a_chapter_is_indexed_step_by_step() {
    let (p, w) = Preindex::preindex_all_pages(3);
    assert_eq!(w, IndexWork::LoadStored);
    assert_eq!(p.after_stored(Some((40, 2))), IndexWork::Adopt);
    assert_eq!(p.after_stored(Some((40, 0))), IndexWork::Repaginate);
    assert_eq!(p.after_stored(Some((0, 2))), IndexWork::Typeset { shed: false });
    assert_eq!(p.after_stored(None), IndexWork::Typeset { shed: false });
    let mut q = p;
    assert_eq!((q.after_adopt(false), q.waits), (IndexWork::Typeset { shed: false }, 3));
    assert_eq!((q.after_adopt(true), q.waits), (IndexWork::Indexed, 0));
    let mut q = p;
    let oom = TypesetEnd::OutOfMemory;
    assert_eq!((q.after_typeset(oom, true, true), q.waits), (IndexWork::RetryLater, 4));
    assert_eq!(q.after_typeset(oom, false, true), IndexWork::Typeset { shed: true });
    assert_eq!((q.after_typeset(oom, true, true), q.waits), (IndexWork::Greedy, 0));
    let mut q = p;
    assert_eq!((q.after_typeset(TypesetEnd::Done, true, true), q.waits), (IndexWork::Store, 0));
    assert_eq!(q.after_typeset(TypesetEnd::Failed, true, true), IndexWork::Greedy);
    assert_eq!(q.after_done(), IndexWork::Indexed);
}

#[test]
fn a_text_page_is_loaded_and_the_next_read_ahead() {
    let mut pg = PageIndex::new();
    let none = Ahead { page: None, len: 0 };
    let (mut p, w) = PageLoad::load_and_prefetch(&pg, 0, none, None, 0);
    assert_eq!(w, LoadWork::Read(TextSource::FileStart));
    assert_eq!(p.after_read(&mut pg, Err(7)), LoadWork::Failed(7));
    assert_eq!(p.after_read(&mut pg, Ok((4000, 9000))), LoadWork::Prescan { len: 4000 });
    assert_eq!(p.after_prescan(), LoadWork::Wrap { len: 4000 });
    let w = p.after_wrap(&mut pg, 1500, true);
    let from = AheadSource::File { at: 1500 };
    assert_eq!(w, LoadWork::ReadAhead { page: 1, from });
    assert_eq!(p.after_ahead(1, Some(3900)), LoadWork::Decode);
    assert_eq!(p.after_decode(), LoadWork::Done);
    pg.page = 1;
    let (mut p, w) = PageLoad::load_and_prefetch(&pg, 0, p.ahead, None, p.file_size);
    assert_eq!(w, LoadWork::Read(TextSource::Prefetched));
    assert_eq!(p.ahead, none);
    p.after_read(&mut pg, Ok((3900, 0)));
    assert_eq!(p.after_wrap(&mut pg, 900, false), LoadWork::Decode);
    assert!(pg.fully_indexed);
    assert_eq!((p.after_ahead(2, None), p.ahead), (LoadWork::Decode, none));
}

#[test]
fn pages_of_an_empty_file_and_of_a_chapter_in_memory() {
    let mut pg = PageIndex::new();
    let ahead = Ahead { page: Some(4), len: 10 };
    let (mut p, _) = PageLoad::load_and_prefetch(&pg, 0, ahead, None, 0);
    assert_eq!((p.after_read(&mut pg, Ok((0, 0))), pg.fully_indexed), (LoadWork::Empty, true));
    let mut pg = PageIndex::new();
    let (mut p, w) = PageLoad::load_and_prefetch(&pg, 500, ahead, Some(64), 0);
    assert_eq!(w, LoadWork::Read(TextSource::Chapter { start: 0, len: 500 }));
    assert_eq!(p.ahead.page, None);
    p.after_read(&mut pg, Ok((500, 0)));
    assert_eq!((p.after_wrap(&mut pg, 300, true), pg.total_pages()), (LoadWork::Decode, 1));
    let (mut p, w) = PageLoad::load_and_prefetch(&pg, 0, ahead, Some(64), 900);
    assert_eq!(w, LoadWork::Read(TextSource::Bundle { at: 64 }));
    p.after_read(&mut pg, Ok((500, 0)));
    let from = AheadSource::Bundle { at: 364 };
    assert_eq!(p.after_wrap(&mut pg, 300, true), LoadWork::ReadAhead { page: 1, from });
}

#[test]
fn contents_that_cannot_be_read_stay() {
    let (mut a, _) = reading();
    let n = a.contents.toc.len();
    assert!(n > 0);
    a.after_toc(None);
    assert_eq!(a.contents.toc.len(), n);
    a.after_toc(Some(Vec::new()));
    assert!(a.contents.toc.is_empty());
}

#[test]
fn only_a_cached_book_is_indexed_by_chapters() {
    let (mut a, _) = entered(false);
    a.state = State::NeedIndex;
    a.chapter = 60000;
    let s = a.background_step(0, 9, true, false);
    assert!(!matches!(s.work, Work::CacheBegin | Work::CacheStep));
}
