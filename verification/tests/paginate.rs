use plump_apps::layout::paginate::{paginate, PageSpacing, PaginateError};
use plump_apps::layout::LineLayout;
use plump_apps::markup::{Align, Style};

const SP: PageSpacing = PageSpacing { em_px: 20, line_h: 28 };

fn line(start: u32, end: u32, flags: u8) -> LineLayout {
    LineLayout {
        start_byte: start,
        end_byte: end,
        flags,
        indent: 0,
        align: 0,
        extra: 0,
    }
}

#[test]
fn empty_chapter_returns_error() {
    let mut pages = Vec::new();
    assert_eq!(paginate(&[], 10, &[], SP, &mut pages), Err(PaginateError::EmptyChapter));
}

#[test]
fn fills_pages_to_max_lines() {
    let mut lines = Vec::new();
    for i in 0..25u32 {
        lines.push(line(i * 10, i * 10 + 5, LineLayout::FLAG_PARAGRAPH_END));
    }
    let img = vec![0u8; lines.len()];
    let mut pages = Vec::new();
    paginate(&lines, 10, &img, SP, &mut pages).unwrap();
    assert_eq!(pages.len(), 3);
    assert_eq!(pages[0].line_count, 10);
    assert_eq!(pages[2].line_count, 5);
}

#[test]
fn gaps_take_page_room_except_on_the_first_line() {
    let mut lines = Vec::new();
    for i in 0..12u32 {
        let mut l = line(i * 10, i * 10 + 5, LineLayout::FLAG_PARAGRAPH_END);
        l.align = LineLayout::pack_align(Align::Default, 4, Style::plain());
        lines.push(l);
    }
    let img = vec![0u8; lines.len()];
    let mut pages = Vec::new();
    paginate(&lines, 10, &img, SP, &mut pages).unwrap();
    assert_eq!(pages[0].line_count, 6);
    assert_eq!(pages[1].line_count, 6);
}

#[test]
fn forced_page_break_starts_new_page() {
    let mut lines = Vec::new();
    for i in 0..6u32 {
        lines.push(line(i * 10, i * 10 + 5, 0));
    }
    lines[3].flags |= LineLayout::FLAG_PAGE_BREAK_BEFORE;
    let img = vec![0u8; lines.len()];
    let mut pages = Vec::new();
    paginate(&lines, 10, &img, SP, &mut pages).unwrap();
    assert_eq!(pages.len(), 2);
    assert_eq!(pages[0].line_count, 3);
    assert_eq!(pages[1].first_line, 3);
}

#[test]
fn image_block_stays_together() {
    let mut lines = Vec::new();
    for i in 0..8u32 {
        lines.push(line(i * 10, i * 10 + 5, 0));
    }
    for i in 0..4u32 {
        lines.push(line(80 + i * 10, 80 + i * 10 + 5, LineLayout::FLAG_IMAGE));
    }
    let mut img = vec![0u8; lines.len()];
    img[8] = 4;
    let mut pages = Vec::new();
    paginate(&lines, 10, &img, SP, &mut pages).unwrap();
    assert_eq!(pages.len(), 2);
    assert_eq!(pages[0].line_count, 8);
    assert_eq!(pages[1].line_count, 4);
}

#[test]
fn widow_pulls_orphan_back() {
    let mut lines = Vec::new();
    for i in 0..8u32 {
        lines.push(line(i * 10, i * 10 + 5, 0));
    }
    lines[6].flags |= LineLayout::FLAG_PARAGRAPH_END;
    let img = vec![0u8; lines.len()];
    let mut pages = Vec::new();
    paginate(&lines, 6, &img, SP, &mut pages).unwrap();
    assert_eq!(pages.len(), 2);
    assert_eq!(pages[0].line_count, 5);
    assert_eq!(pages[1].first_line, 5);
}

#[test]
fn pages_go_behind_those_that_are_held() {
    let lines: Vec<LineLayout> = (0..4).map(|i| line(i * 10, i * 10 + 5, 0)).collect();
    let img = vec![0u8; 4];
    let mut pages = Vec::new();
    paginate(&lines, 2, &img, SP, &mut pages).unwrap();
    let once = pages.clone();
    paginate(&lines, 2, &img, SP, &mut pages).unwrap();
    assert_eq!(pages.len(), 4);
    assert_eq!(pages[..2], once[..]);
    assert_eq!(pages[2..], once[..]);
}

#[test]
fn a_block_past_the_end_ends_with_the_table() {
    let lines = vec![line(0, 5, 0), line(10, 15, LineLayout::FLAG_IMAGE)];
    let mut pages = Vec::new();
    paginate(&lines, 10, &[0, 4], SP, &mut pages).unwrap();
    assert_eq!(pages.len(), 1);
    assert_eq!((pages[0].line_count, pages[0].end_byte), (5, 15));
}

#[test]
fn pages_follow_without_a_gap() {
    let mut lines: Vec<LineLayout> = (0..23).map(|i| line(i * 10, i * 10 + 5, 0)).collect();
    let mut img = vec![0u8; 23];
    // an image block whose fillers are plain lines
    lines[4].flags = LineLayout::FLAG_IMAGE;
    img[4] = 5;
    let mut pages = Vec::new();
    paginate(&lines, 6, &img, SP, &mut pages).unwrap();
    let mut at = 0;
    for p in &pages {
        assert_eq!(p.first_line, at);
        assert!((1..=6).contains(&p.line_count));
        at += p.line_count as u16;
        assert_eq!(p.end_byte, lines[at as usize - 1].end_byte);
    }
    assert_eq!(at, 23);
}
