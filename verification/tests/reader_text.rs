use plump_apps::fonts;
use plump_apps::layout::chapter::typeset_chapter;
use plump_apps::layout::paginate::PageSpacing;
use plump_apps::layout::pipeline::{ImageBudget, LayoutPipeline, NoImageHint, TypesetError};
use plump_apps::layout::scan::{BOLD_OFF, BOLD_ON, IMG_REF, MARKER, UNDERLINE_ON};
use plump_apps::layout::{LineLayout, PageLayout};
use plump_apps::markup::BlockProps;
use plump_apps::reader::adopt::{
    adopt_lines_repaginate, adopt_loaded_chapter, repaginate_granted, restore_blocks,
};
use plump_apps::reader::draw::{draw_fullscreen, draw_page, PageImage, PageOp, PageView};
use plump_apps::reader::flow::{wrap_proportional, FlowPage};
use plump_apps::reader::index::{PageIndex, TextSource};
use plump_apps::reader::loading::{
    next_after_typeset, page_byte_range, spans_of_page, use_of_stored, ByteWindow, StoredLayout,
    TypesetEnd, TypesetNext, WindowAsk,
};
use plump_apps::reader::measure::{justify_params, measure_bytes, LineMeasure};
use plump_apps::reader::runs::{build_page_runs, fixed_rows, is_word_byte, Column};
use plump_apps::reader::span::{linelayout_to_span, LineSpan};
use plump_apps::reader::state::TextArea;
use plump_apps::reader::wrap::{trim_trailing_cr, wrap_monospace};
use plump_apps::ui::Region;
use plump_apps::utf8::decode_utf8;

fn ten(_prev: Option<char>, _ch: char, _face: fonts::Style) -> i16 {
    10
}

// bold is wider, and "AV" is kerned
fn kerned(prev: Option<char>, ch: char, face: fonts::Style) -> i16 {
    let w = if face == fonts::Style::Bold { 12 } else { 10 };
    if prev == Some('A') && ch == 'V' {
        w - 3
    } else {
        w
    }
}

#[test]
fn characters_are_decoded() {
    assert_eq!(decode_utf8("é".as_bytes(), 0), ('é', 2));
    assert_eq!(decode_utf8("€".as_bytes(), 0), ('€', 3));
    assert_eq!(decode_utf8("😀".as_bytes(), 0), ('😀', 4));
    assert_eq!(decode_utf8(&[0xED, 0xA0, 0x80], 0), ('\u{FFFD}', 3));
    assert_eq!(decode_utf8(&[0xE2, 0x82], 0), ('\u{FFFD}', 2));
    assert_eq!(decode_utf8(b"x", 0), ('x', 1));
}

#[test]
fn words_are_measured_with_kerning() {
    let f = kerned;
    assert_eq!(measure_bytes(b"AV", &f, fonts::Style::Regular), 17);
    assert_eq!(measure_bytes(b"A V", &f, fonts::Style::Regular), 30);
    assert_eq!(measure_bytes("A\u{AD}V".as_bytes(), &f, fonts::Style::Regular), 20);
    assert_eq!(measure_bytes(b"A\x02V", &f, fonts::Style::Bold), 24);
    let neg = |_p: Option<char>, _c: char, _s: fonts::Style| -> i16 { -5 };
    assert_eq!(measure_bytes(b"ab", &neg, fonts::Style::Regular), 0);
}

#[test]
fn carriage_returns_are_trimmed() {
    assert_eq!(trim_trailing_cr(b"ab\r\r", 0, 4), 2);
    assert_eq!(trim_trailing_cr(b"\r\r", 0, 2), 0);
    assert_eq!(trim_trailing_cr(b"a\rb", 0, 3), 3);
}

#[test]
fn fixed_width_text_wraps_at_51() {
    let text = [b'x'; 120];
    let (lines, next) = wrap_monospace(&text, 120, 37);
    assert_eq!(next, 120);
    let lens: Vec<u16> = lines.iter().map(|l| l.len).collect();
    assert_eq!(lens, vec![51, 51, 18]);
    let (lines, next) = wrap_monospace(&text, 120, 1);
    assert_eq!((lines.len(), next), (1, 51));
}

#[test]
fn fixed_width_text_skips_one_blank_line_at_the_top() {
    let (lines, next) = wrap_monospace(b"\r\n\nab\r\ncd", 9, 37);
    assert_eq!(next, 9);
    let got: Vec<(u16, u16)> = lines.iter().map(|l| (l.start, l.len)).collect();
    assert_eq!(got, vec![(2, 0), (3, 2), (7, 2)]);
}

fn page(max_lines: usize, max_width: u32) -> FlowPage {
    FlowPage { max_lines, max_width, line_h: 20, em_px: 16 }
}

fn texts<'a>(buf: &'a [u8], lines: &[LineSpan]) -> Vec<&'a [u8]> {
    lines.iter().map(|l| &buf[l.start as usize..(l.start + l.len) as usize]).collect()
}

#[test]
fn words_flow_onto_lines() {
    let buf = b"one two three four";
    let (lines, next) = wrap_proportional(buf, buf.len(), &ten, &page(10, 90), &[]);
    assert_eq!(next, buf.len());
    assert_eq!(texts(buf, &lines), vec![&b"one two"[..], b"three", b"four"]);
    assert!(lines[0].is_soft_wrap());
    assert!(!lines[2].is_soft_wrap());
    let (lines, next) = wrap_proportional(buf, buf.len(), &ten, &page(1, 90), &[]);
    assert_eq!((lines.len(), next), (1, 8));
}

#[test]
fn a_long_word_overflows_its_line() {
    let buf = b"abcdefghijklmnop x";
    let (lines, _) = wrap_proportional(buf, buf.len(), &ten, &page(10, 90), &[]);
    assert_eq!(texts(buf, &lines), vec![&b"abcdefghijklmnop"[..], b"x"]);
}

#[test]
fn paragraphs_leave_a_blank_line() {
    let buf = b"a\n\nb\nc";
    let (lines, _) = wrap_proportional(buf, buf.len(), &ten, &page(10, 90), &[]);
    assert_eq!(texts(buf, &lines), vec![&b"a"[..], b"", b"b", b"c"]);
    // not at the top of the page
    let buf = b"\n\nb";
    let (lines, _) = wrap_proportional(buf, buf.len(), &ten, &page(10, 90), &[]);
    assert_eq!(texts(buf, &lines), vec![&b"b"[..]]);
}

#[test]
fn a_block_record_indents_the_first_line() {
    let p = BlockProps { text_indent_qem: 8, ..BlockProps::default() };
    let mut buf = p.encode().to_vec();
    buf.extend_from_slice(b"one two three four");
    let (lines, next) = wrap_proportional(&buf, buf.len(), &ten, &page(10, 100), &[]);
    assert_eq!(next, buf.len());
    // 32 of the 100 pixels are the indent; the record is in front of its line
    assert_eq!(texts(&buf, &lines)[1..], [&b"two three"[..], b"four"]);
    assert_eq!(&texts(&buf, &lines)[0][5..], b"one");
    assert_eq!(lines[0].indent, LineLayout::pack_indent(0, 8));
    assert_eq!(lines[1].indent, 0);
}

#[test]
fn soft_hyphens_break_words() {
    let buf = "ab hyphen\u{AD}ation".as_bytes();
    let (lines, _) = wrap_proportional(buf, buf.len(), &ten, &page(10, 100), &[]);
    assert_eq!(texts(buf, &lines), vec!["ab hyphen\u{AD}".as_bytes(), b"ation"]);
}

fn image_record(path: &[u8]) -> Vec<u8> {
    let mut v = vec![MARKER, IMG_REF, 0, 0, 0, 0, 0, 0, path.len() as u8];
    v.extend_from_slice(path);
    v
}

#[test]
fn images_take_their_lines_or_the_next_page() {
    let mut buf = b"text ".to_vec();
    buf.extend(image_record(b"p.png"));
    buf.extend_from_slice(b"after");
    let (lines, next) = wrap_proportional(&buf, buf.len(), &ten, &page(10, 200), &[50]);
    assert_eq!(next, buf.len());
    assert_eq!(lines.len(), 1 + 3 + 1);
    assert!(lines[1].is_image_origin());
    assert!(lines[2].is_image() && !lines[2].is_image_origin());
    let (lines, next) = wrap_proportional(&buf, buf.len(), &ten, &page(3, 200), &[50]);
    assert_eq!((lines.len(), next), (1, 5));
    // on an empty page it is cut off
    let (lines, next) = wrap_proportional(&buf[5..], buf.len() - 5, &ten, &page(2, 200), &[50]);
    assert_eq!((lines.len(), next), (2, 14));
}

fn soft(len: u16) -> LineSpan {
    LineSpan { start: 0, len, flags: LineSpan::END_SOFT, indent: 0, align: 0, extra: 0 }
}

#[test]
fn justified_lines_fill_the_column() {
    let m = LineMeasure { width: 290, gaps: 4 };
    assert_eq!(justify_params(1, &soft(9), m, 301, 10), (2, 3));
    assert_eq!(justify_params(0, &soft(9), m, 301, 10), (0, 0));
    let m = LineMeasure { width: 310, gaps: 4 };
    let mut shrinking = soft(9);
    assert_eq!(justify_params(1, &shrinking, m, 301, 10), (0, 0));
    shrinking.extra = LineSpan::EXTRA_SIGN_SHRINK;
    assert_eq!(justify_params(0, &shrinking, m, 301, 10), (-2, -1));
    // too much to shrink, too much to stretch, too few gaps
    assert_eq!(justify_params(0, &shrinking, LineMeasure { width: 400, gaps: 4 }, 301, 10), (0, 0));
    assert_eq!(justify_params(1, &soft(9), LineMeasure { width: 100, gaps: 4 }, 301, 10), (0, 0));
    assert_eq!(justify_params(1, &soft(9), LineMeasure { width: 290, gaps: 1 }, 301, 10), (0, 0));
}

fn column(alignment: u8) -> Column {
    Column { margin: 8, text_w: 200, line_h: 20, em_px: 16, alignment }
}

#[test]
fn runs_follow_the_styles() {
    let mut buf = b"ab ".to_vec();
    buf.extend([MARKER, BOLD_ON]);
    buf.extend(b"cd");
    buf.extend([MARKER, BOLD_OFF]);
    buf.extend(b" ef");
    let line = soft(buf.len() as u16);
    let (places, runs) = build_page_runs(&buf, &[line], &kerned, &column(0));
    assert_eq!(runs.len(), 3);
    assert_eq!(places[0].run_len, 3);
    let xs: Vec<i16> = runs.iter().map(|r| r.x).collect();
    assert_eq!(xs, vec![8, 38, 62]);
    assert_eq!(places[0].x_end, 92);
    assert_eq!(runs[1].gap0, 1);
    assert!(!places[0].hyphen);
}

#[test]
fn justified_runs_reach_the_edge() {
    let buf = b"aaaa bbbb cccc ddd ee";
    let line = soft(18);
    let (places, runs) = build_page_runs(buf, &[line], &ten, &column(1));
    // 18 characters, 3 gaps, 20 pixels to spare
    assert_eq!((places[0].per_gap, places[0].odd_gaps), (6, 2));
    assert_eq!(runs.len(), 1);
    assert_eq!(places[0].x_end, 208);
}

#[test]
fn a_line_that_ends_in_a_word_gets_a_hyphen() {
    let buf = b"hyphenation";
    let (places, _) = build_page_runs(buf, &[soft(6)], &ten, &column(0));
    assert!(places[0].hyphen);
    let (places, _) = build_page_runs(b"well-known", &[soft(5)], &ten, &column(0));
    assert!(!places[0].hyphen);
    assert!(is_word_byte(b'a') && !is_word_byte(b' ') && !is_word_byte(MARKER));
}

#[test]
fn lines_are_spaced_by_their_gaps() {
    let gap = LineSpan { align: 4 << 4, ..soft(1) };
    let (places, _) = build_page_runs(b"abc", &[soft(1), soft(1), gap], &ten, &column(0));
    let ys: Vec<u16> = places.iter().map(|p| p.y).collect();
    assert_eq!(ys, vec![0, 20, 40 + 15]);
    let rows = fixed_rows(3, 20);
    assert_eq!(rows[2].y, 40);
}

#[test]
fn centred_and_right_lines_shift() {
    let centre = LineSpan { align: LineSpan::ALIGN_CENTER, ..soft(4) };
    let right = LineSpan { align: LineSpan::ALIGN_RIGHT, ..soft(4) };
    let (places, runs) = build_page_runs(b"abcd", &[centre, right], &ten, &column(1));
    assert_eq!(runs[0].x, 8 + 80);
    assert_eq!(runs[1].x, 8 + 160);
    assert_eq!(places[1].x_end, 208);
}

fn area() -> TextArea {
    TextArea { margin: 8, y: 10, w: 200, h: 400 }
}

#[test]
fn a_page_is_drawn_glyph_by_glyph() {
    let mut buf = vec![MARKER, UNDERLINE_ON];
    buf.extend(b"AV b");
    let line = soft(buf.len() as u16);
    let (places, runs) = build_page_runs(&buf, &[line], &kerned, &column(0));
    let view = PageView {
        buf: &buf,
        lines: &[line],
        places: &places,
        runs: &runs,
        image: None,
        area: area(),
        line_h: 20,
        ascent: 15,
    };
    let ops = draw_page(&kerned, &view, Region::new(0, 0, 480, 800));
    let glyphs: Vec<(char, i64)> = ops
        .iter()
        .filter_map(|o| match o {
            PageOp::Glyph { ch, x, .. } => Some((*ch, *x)),
            _ => None,
        })
        .collect();
    assert_eq!(glyphs, vec![('A', 8), ('V', 15), (' ', 25), ('b', 35)]);
    assert!(ops.contains(&PageOp::Stroke { x: 8, y: 26, w: 37 }));
    // a strip beside the text draws nothing
    let ops = draw_page(&kerned, &view, Region::new(400, 0, 40, 800));
    assert!(ops.is_empty());
}

#[test]
fn images_are_drawn_in_the_middle() {
    let mut buf = image_record(b"p.png");
    let n = buf.len() as u16;
    buf.extend_from_slice(b"x");
    let origin = LineSpan { flags: LineSpan::FLAG_IMAGE, ..soft(n) };
    let filler = LineSpan { len: 0, ..origin };
    let lines = [origin, filler, filler];
    let (places, runs) = build_page_runs(&buf, &lines, &ten, &column(0));
    let mut view = PageView {
        buf: &buf,
        lines: &lines,
        places: &places,
        runs: &runs,
        image: Some(PageImage { width: 100, height: 40 }),
        area: area(),
        line_h: 20,
        ascent: 15,
    };
    let win = Region::new(0, 0, 480, 800);
    let ops = draw_page(&ten, &view, win);
    assert_eq!(ops, vec![PageOp::Image { x: 58, y: 20, rows: 40 }]);
    view.image = None;
    let ops = draw_page(&ten, &view, win);
    assert_eq!(ops, vec![PageOp::NoAlt { x: 8 + 65, baseline: 25 }]);
    let ops = draw_fullscreen(area(), PageImage { width: 100, height: 200 }, win);
    assert_eq!(ops, vec![PageOp::Image { x: 58, y: 110, rows: 200 }]);
}

#[test]
fn the_page_of_a_byte() {
    let mut idx = PageIndex::new();
    let at = |start: u32| PageLayout { start_byte: start, ..PageLayout::empty() };
    idx.adopt(&[at(0), at(100), at(250), at(400)]);
    assert_eq!(idx.total_pages(), 4);
    assert!(idx.fully_indexed);
    for hint in [None, Some(0), Some(2), Some(99)] {
        assert_eq!(idx.locate_page_for_offset(0, hint), 0);
        assert_eq!(idx.locate_page_for_offset(99, hint), 0);
        assert_eq!(idx.locate_page_for_offset(250, hint), 2);
        assert_eq!(idx.locate_page_for_offset(9999, hint), 3);
    }
}

#[test]
fn pages_are_found_as_they_are_read() {
    let mut idx = PageIndex::new();
    idx.note_filled(120, true, 1000);
    assert_eq!((idx.total_pages(), idx.fully_indexed), (2, false));
    assert_eq!(idx.next_to_prefetch(), Some((1, 120)));
    assert!(idx.scan_on(130));
    assert!(!idx.scan_on(130));
    idx.note_filled(880, true, 1000);
    assert!(idx.fully_indexed);
    assert_eq!(idx.next_to_prefetch(), None);
    assert!(!idx.scan_to_end());
    assert_eq!(idx.byte_offset(), 120);
    let mut idx = PageIndex::new();
    assert_eq!(idx.greedy_next(0, 50, true, 120), Some(50));
    assert_eq!(idx.greedy_next(50, 60, true, 120), Some(110));
    assert_eq!(idx.greedy_next(110, 10, true, 120), None);
    assert_eq!(idx.offsets, vec![0, 50, 110]);
    idx.reset();
    assert_eq!(idx.total_pages(), 1);
}

#[test]
fn the_source_of_a_page() {
    let mut idx = PageIndex::new();
    idx.note_filled(9000, true, 20000);
    idx.page = 1;
    assert_eq!(
        idx.page_source(10000, None, None, 0),
        TextSource::Chapter { start: 9000, len: 1000 }
    );
    assert_eq!(idx.page_source(0, Some(1), Some(7), 0), TextSource::Prefetched);
    assert_eq!(idx.page_source(0, Some(0), Some(7), 0), TextSource::Bundle { at: 9007 });
    assert_eq!(idx.page_source(0, None, None, 0), TextSource::FileStart);
    assert_eq!(idx.page_source(0, None, None, 5), TextSource::File { at: 9000 });
}

fn line(start: u32, end: u32, flags: u8, extra: u8) -> LineLayout {
    LineLayout { start_byte: start, end_byte: end, flags, indent: 0, align: 0, extra }
}

#[test]
fn stored_pages_become_spans() {
    let lines = [
        line(100, 110, LineLayout::FLAG_BOLD, 0),
        line(111, 130, LineLayout::FLAG_PARAGRAPH_END, 0),
        line(130, 140, 0, 0),
    ];
    let p = PageLayout { first_line: 0, line_count: 2, flags: 0, start_byte: 100, end_byte: 130 };
    assert_eq!(page_byte_range(&p, 1000), (100, 30));
    assert_eq!(page_byte_range(&p, 110), (100, 10));
    let spans = spans_of_page(&lines, &p, 30);
    assert_eq!(spans.len(), 2);
    assert_eq!((spans[1].start, spans[1].len), (11, 19));
    assert!(spans[0].is_soft_wrap() && !spans[1].is_soft_wrap());
    let s = linelayout_to_span(&lines[0], 100, 4);
    assert_eq!((s.start, s.len), (0, 4));
    assert!(s.start_style().bold);
}

#[test]
fn block_tables_come_back() {
    let text = line(5, 9, 0, 0);
    let origin = line(10, 20, LineLayout::FLAG_IMAGE, 20);
    let filler = line(0, 0, LineLayout::FLAG_IMAGE, 0);
    let lines = vec![text, origin, filler, filler, origin, text];
    assert_eq!(restore_blocks(&lines), vec![0, 3, 0, 0, 1, 0]);
    let c = adopt_loaded_chapter(lines.clone(), vec![PageLayout::empty(); 2]);
    assert_eq!(c.blocks, vec![0, 3, 0, 0, 1, 0]);
    // 80 pixels are two lines of 40
    let spacing = PageSpacing { em_px: 16, line_h: 40 };
    let c = adopt_lines_repaginate(&lines, 10, spacing).unwrap();
    assert_eq!(c.blocks, vec![0, 2, 0, 2, 0, 0]);
    assert_eq!(c.lines.len(), 6);
    assert_eq!(c.pages.len(), 1);
    assert!(repaginate_granted(&lines, 10, spacing, false, true).is_none());
    assert!(repaginate_granted(&lines, 10, spacing, true, false).is_none());
    assert!(repaginate_granted(&lines, 0, spacing, true, true).is_none());
}

#[test]
fn a_typeset_chapter_gives_its_blocks_back() {
    let mut text = b"some words here\n\n".to_vec();
    text.extend(image_record(b"p.png"));
    text.extend_from_slice(b"and more of them\n\n");
    let budget = ImageBudget { text_w: 200, inline_cap: 100, line_h: 20 };
    let mut p = LayoutPipeline::new();
    let c = typeset_chapter(&text, &ten, 16, budget, &mut NoImageHint, 30, &mut p).unwrap();
    assert_eq!(restore_blocks(&c.lines), c.blocks);
    assert_eq!(c.blocks.iter().filter(|b| **b > 0).count(), 1);
    p.release();
}

#[test]
fn chapters_that_cannot_be_set() {
    let budget = ImageBudget { text_w: 200, inline_cap: 100, line_h: 20 };
    let set = |text: &[u8], max_lines: u8| {
        let mut p = LayoutPipeline::new();
        typeset_chapter(text, &ten, 16, budget, &mut NoImageHint, max_lines, &mut p)
    };
    assert!(matches!(set(b"", 30), Err(TypesetError::EmptyChapter)));
    assert!(matches!(set(b"words", 0), Err(TypesetError::EmptyChapter)));
    let many: Vec<u8> = b"x\n\n".iter().copied().cycle().take(3 * 5000).collect();
    assert!(matches!(set(&many, 30), Err(TypesetError::LineCapExceeded)));
    let blank = set(&[MARKER, BOLD_ON], 30).unwrap();
    assert_eq!((blank.lines.len(), blank.pages.len()), (0, 1));
    let some = set(b"one two three four five six seven", 1).unwrap();
    assert_eq!(some.pages.len(), some.lines.len());
}

#[test]
fn a_window_shows_the_text() {
    let text: Vec<u8> = (0..10000u32).map(|i| (i % 251) as u8).collect();
    let mut w = ByteWindow::new(10000);
    assert_eq!(w.ask(5000), WindowAsk::Read { at: 4096, len: 4096 });
    assert!(w.fill(4096, text[4096..8192].to_vec(), 5000));
    assert_eq!(w.ask(8191), WindowAsk::Inside);
    assert_eq!(w.byte_at(5000), Some(text[5000]));
    assert_eq!(w.byte_at(0), None);
    assert_eq!(w.ask(9000), WindowAsk::Read { at: 8192, len: 1808 });
    assert_eq!(w.ask(10000), WindowAsk::Beyond);
    let mut out = Vec::new();
    assert_eq!(w.copy_from(8190, 10, &mut out), 2);
    assert_eq!(out, &text[8190..8192]);
    assert!(!w.fill(0, Vec::new(), 0));
    assert_eq!(w.byte_at(5000), None);
}

#[test]
fn typesetting_waits_sheds_and_gives_up() {
    assert_eq!(next_after_typeset(TypesetEnd::Done, 5, true, true, false), (TypesetNext::Keep, 0));
    assert_eq!(
        next_after_typeset(TypesetEnd::OutOfMemory, 5, true, true, false),
        (TypesetNext::RetryLater, 6)
    );
    assert_eq!(
        next_after_typeset(TypesetEnd::OutOfMemory, 16, true, true, false),
        (TypesetNext::ShedAndRetry, 16)
    );
    assert_eq!(
        next_after_typeset(TypesetEnd::OutOfMemory, 16, true, false, false),
        (TypesetNext::Greedy, 0)
    );
    assert_eq!(next_after_typeset(TypesetEnd::OutOfMemory, 0, true, true, true), (TypesetNext::Greedy, 0));
    assert_eq!(next_after_typeset(TypesetEnd::Failed, 3, true, true, false), (TypesetNext::Greedy, 0));
    assert_eq!(use_of_stored(0, 3), StoredLayout::Typeset);
    assert_eq!(use_of_stored(9, 0), StoredLayout::Repaginate);
    assert_eq!(use_of_stored(9, 3), StoredLayout::Adopt);
}
