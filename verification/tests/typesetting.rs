use plump_apps::fonts;
use plump_apps::layout::breaker::{
    break_paragraph, break_paragraph_full_scan, break_paragraph_with_fallback, needs_second_pass,
    BreakChoice, BreakConfig, BreakError, BreakScratch,
};
use plump_apps::layout::chapter::typeset_chapter;
use plump_apps::layout::events::Events;
use plump_apps::layout::items::{Item, ParagraphBuilder, ParagraphEnd, ParagraphMeta};
use plump_apps::layout::pipeline::{
    ImageBudget, ImageHeightHint, LayoutPipeline, NoImageHint, Placing, StepOutcome, TypesetError,
};
use plump_apps::layout::scan::{ImageRef, IMG_REF, MARKER};
use plump_apps::layout::LineLayout;
use plump_apps::markup::{Align, BlockProps, Style};

fn ten(_prev: Option<char>, _ch: char, _face: fonts::Style) -> i16 {
    10
}

const BUDGET: ImageBudget = ImageBudget { text_w: 200, inline_cap: 100, line_h: 20 };

/// Remembers what it was asked, and answers one height.
struct Recorder {
    asked: Vec<Vec<u8>>,
    height: u16,
}

impl ImageHeightHint for Recorder {
    fn rendered_height(&mut self, src: &[u8]) -> Option<u16> {
        self.asked.push(src.to_vec());
        Some(self.height)
    }
}

fn image_record(path: &[u8], w: u8, h: u8) -> Vec<u8> {
    let mut v = vec![MARKER, IMG_REF, 0, w, 0, h, 0, 0, path.len() as u8];
    v.extend_from_slice(path);
    v
}

#[test]
fn an_image_without_size_is_asked_about_once_by_its_path() {
    let mut text = b"some words\n\n".to_vec();
    text.extend(image_record(b"art/p.png", 0, 0));
    text.extend(image_record(b"q.png", 50, 30));
    text.extend_from_slice(b"the end");
    let mut hint = Recorder { asked: Vec::new(), height: 45 };
    let mut p = LayoutPipeline::new();
    let c = typeset_chapter(&text, &ten, 16, BUDGET, &mut hint, 30, &mut p).unwrap();
    assert_eq!(hint.asked, vec![b"art/p.png".to_vec()]);
    // 45 pixels are three lines of 20, and 30 are two
    assert_eq!(c.blocks.iter().filter(|b| **b > 0).collect::<Vec<_>>(), vec![&3, &2]);
    assert_eq!(p.images, 2);
    assert_eq!(p.fallback_count, 0);
    assert!(p.items.is_empty() && p.choices.is_empty());
}

#[test]
fn a_step_counts_and_appends() {
    let mut text = b"some words\n\n".to_vec();
    text.extend(image_record(b"q.png", 50, 30));
    let mut events = Events::new(&text);
    let mut p = LayoutPipeline::new();
    let mut lines = Vec::new();
    let mut blocks = Vec::new();
    let mut hint = NoImageHint;
    let r = p.step(&mut events, &ten, 16, BUDGET, &mut hint, &mut lines, &mut blocks);
    assert_eq!(r, Ok(StepOutcome::More));
    assert_eq!((lines.len(), p.paragraphs, p.images), (1, 1, 0));
    let first = lines[0];
    while !events.is_eof() {
        p.step(&mut events, &ten, 16, BUDGET, &mut hint, &mut lines, &mut blocks).unwrap();
    }
    assert_eq!(lines[0], first);
    assert_eq!((blocks, p.images), (vec![0, 2, 0], 1));
}

#[test]
fn a_step_at_the_end_changes_nothing() {
    let mut events = Events::new(b"words");
    let mut p = LayoutPipeline::new();
    let mut lines = Vec::new();
    let mut blocks = Vec::new();
    let mut hint = Recorder { asked: Vec::new(), height: 1 };
    p.step(&mut events, &ten, 16, BUDGET, &mut hint, &mut lines, &mut blocks).unwrap();
    let (items, paragraphs, n) = (p.items.clone(), p.paragraphs, lines.len());
    for _ in 0..3 {
        let r = p.step(&mut events, &ten, 16, BUDGET, &mut hint, &mut lines, &mut blocks);
        assert_eq!(r, Ok(StepOutcome::Done));
    }
    assert_eq!((&p.items, p.paragraphs, lines.len()), (&items, paragraphs, n));
    assert!(hint.asked.is_empty());
}

fn meta(end_kind: ParagraphEnd) -> ParagraphMeta {
    let b = ParagraphBuilder::new(BlockProps::default(), Style::plain(), 0);
    ParagraphMeta { end_kind, ..b.end_of_buffer() }
}

#[test]
fn nothing_is_placed_without_memory() {
    let mut p = LayoutPipeline::new();
    p.items = vec![Item::boxed(30, 0), Item::glue(10, 5, 3, 3), Item::boxed(30, 4)];
    let mut lines = Vec::new();
    let mut blocks = Vec::new();
    let m = meta(ParagraphEnd::PageBreakAfter);
    let fit = Placing::FirstFit { line_width: 50 };
    let r = p.settle(&m, fit, false, &mut lines, &mut blocks);
    assert_eq!(r, Err(TypesetError::OutOfMemory));
    assert!(lines.is_empty() && !p.page_break_pending);
    let r = p.settle(&m, fit, true, &mut lines, &mut blocks);
    assert_eq!(r, Ok(StepOutcome::More));
    assert_eq!((lines.len(), blocks.clone()), (2, vec![0, 0]));
    assert!(p.page_break_pending);
    let picture = ImageRef {
        start: 0,
        alt_start: 0,
        path_start: 0,
        end: 9,
        flags: 0,
        attr_w: 0,
        attr_h: 0,
        alt_len: 0,
        path_len: 0,
    };
    let m = ParagraphMeta { image: Some(picture), ..meta(ParagraphEnd::ImageBlock) };
    let block = Placing::Image { lines: 3, reserved: 60 };
    p.settle(&m, block, true, &mut lines, &mut blocks).unwrap();
    assert_eq!(blocks, vec![0, 0, 3, 0, 0]);
    assert_eq!((p.images, p.page_break_pending), (1, false));
    assert!(lines[2].is_page_break_before());
    let filler = LineLayout { start_byte: 0, end_byte: 0, flags: 0, indent: 0, align: 0, extra: 0 };
    let mut lines = vec![filler; 4096];
    let mut blocks = Vec::new();
    let r = p.settle(&m, block, true, &mut lines, &mut blocks);
    assert_eq!((r, lines.len()), (Err(TypesetError::LineCapExceeded), 4099));
}

fn paragraph(words: usize, width: u16) -> Vec<Item> {
    let mut items = Vec::new();
    for i in 0..words as u32 {
        items.push(Item::boxed(width, 2 * i));
        items.push(Item::glue(5, 3, 1, 2 * i + 1));
    }
    items.push(Item::penalty(Item::PENALTY_FORCE, false, true, 2 * words as u32));
    items
}

#[test]
fn a_scratch_let_go_of_serves_as_a_fresh_one() {
    let items = paragraph(12, 20);
    let cfg = BreakConfig::default().with_line_width(90);
    let mut fresh = Vec::new();
    break_paragraph(&items, &cfg, &mut BreakScratch::new(), &mut fresh).unwrap();
    let mut scratch = BreakScratch::new();
    break_paragraph(&paragraph(40, 11), &cfg, &mut scratch, &mut Vec::new()).unwrap();
    scratch.release();
    let mut again = Vec::new();
    break_paragraph(&items, &cfg, &mut scratch, &mut again).unwrap();
    assert_eq!(fresh, again);
}

#[test]
fn the_second_pass_runs_by_itself() {
    let cfg = BreakConfig::default().with_line_width(50);
    let wide = vec![
        Item::boxed(200, 0),
        Item::penalty(Item::PENALTY_FORCE, false, true, 1),
    ];
    let second = BreakConfig { tolerance: 10000, line_penalty: 0, emergency_stretch: 10, ..cfg };
    // a box wider than the column, lines that cannot be justified, and a short line
    for (items, c) in [(wide, second), (paragraph(8, 20), second), (paragraph(1, 20), cfg)] {
        let mut both = Vec::new();
        let r = break_paragraph_with_fallback(&items, &cfg, &mut BreakScratch::new(), &mut both);
        let mut one = Vec::new();
        assert_eq!(r, break_paragraph(&items, &c, &mut BreakScratch::new(), &mut one));
        assert_eq!(both, one);
    }
}

fn both_searches(items: &[Item], line_width: u16) -> (Vec<u16>, Vec<u16>) {
    let cfg = BreakConfig::default().with_line_width(line_width);
    let mut near = Vec::new();
    let mut full = Vec::new();
    break_paragraph(items, &cfg, &mut BreakScratch::new(), &mut near).unwrap();
    break_paragraph_full_scan(items, &cfg, &mut BreakScratch::new(), &mut full).unwrap();
    let at = |lines: Vec<BreakChoice>| lines.iter().map(|c| c.item_idx).collect();
    (at(near), at(full))
}

fn closed(mut items: Vec<Item>) -> Vec<Item> {
    items.push(Item::penalty(Item::PENALTY_FORBIDDEN, false, false, 0));
    items.push(Item::glue(0, 65535, 0, 0));
    items.push(Item::penalty(Item::PENALTY_FORCE, false, true, 0));
    items
}

#[test]
fn the_window_misses_what_is_encouraged_outside_it() {
    let items = closed(vec![
        Item::boxed(60, 0),
        Item::glue(5, 3, 1, 0),
        Item::penalty(-9000, false, false, 0),
        Item::boxed(130, 0),
        Item::glue(5, 3, 1, 0),
    ]);
    assert_eq!(both_searches(&items, 65), (vec![7], vec![2, 7]));
    // without the encouragement both agree
    let mut plain = items;
    plain[2] = Item::penalty(50, false, false, 0);
    let (near, full) = both_searches(&plain, 65);
    assert_eq!(near, full);
}

#[test]
fn the_window_misses_what_all_but_fits() {
    let items = closed(vec![
        Item::boxed(130, 0),
        Item::glue(255, 0, 255, 0),
        Item::boxed(60, 0),
        Item::glue(255, 5, 255, 0),
        Item::boxed(130, 0),
        Item::glue(300, 5, 255, 0),
        Item::boxed(130, 0),
        Item::glue(255, 0, 255, 0),
    ]);
    assert_eq!(both_searches(&items, 304), (vec![10], vec![3, 10]));
}

#[test]
fn a_block_record_sets_indent_gap_and_width() {
    let props =
        BlockProps { align: Align::Left, left: 1, text_indent_qem: 8, space_above_qem: 6 };
    let mut text = b"first one\n\n".to_vec();
    text.extend_from_slice(&props.encode());
    text.extend_from_slice(b"one two six ten one two six ten");
    let mut p = LayoutPipeline::new();
    let c = typeset_chapter(&text, &ten, 16, BUDGET, &mut NoImageHint, 30, &mut p).unwrap();
    assert!(c.lines.len() >= 3);
    assert_eq!((c.lines[0].gap_qem(), c.lines[0].first_indent_qem()), (0, 0));
    let l = c.lines[1];
    assert_eq!((l.gap_qem(), l.first_indent_qem(), l.left_levels(), l.align()), (6, 8, 1, 1));
    let l = c.lines[2];
    assert_eq!((l.gap_qem(), l.first_indent_qem(), l.left_levels(), l.align()), (0, 0, 1, 1));
}

#[test]
fn the_first_pass_decides_on_the_second() {
    let mut line = Vec::new();
    let cfg = BreakConfig::default().with_line_width(50);
    break_paragraph(&paragraph(1, 20), &cfg, &mut BreakScratch::new(), &mut line).unwrap();
    let used = line[0].line_width_used;
    assert!(!needs_second_pass(&Ok(()), &line, used));
    assert!(needs_second_pass(&Ok(()), &line, used - 1));
    assert!(!needs_second_pass(&Ok(()), &[line[0], line[0]], used - 1));
    assert!(!needs_second_pass(&Ok(()), &[], 0));
    assert!(needs_second_pass(&Err(BreakError::NoFeasibleBreaks), &[], 50));
    assert!(!needs_second_pass(&Err(BreakError::ItemBudgetExceeded), &[], 50));
    assert!(!needs_second_pass(&Err(BreakError::EmptyParagraph), &[], 50));
}
