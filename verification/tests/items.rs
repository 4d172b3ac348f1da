use plump_apps::layout::events::{Event, Events};
use plump_apps::layout::items::{
    build_paragraph, Item, ItemKind, ParagraphBuilder, ParagraphEnd, ParagraphMeta, HYPHEN_PENALTY,
};
use plump_apps::layout::scan::{
    BOLD_OFF, BOLD_ON, IMG_REF, ITALIC_OFF, ITALIC_ON, MARKER, PAGE_BREAK,
};
use plump_apps::markup::{Align, BlockProps, Style};

fn unit_advance(_p: Option<char>, _c: char, _s: Style) -> i16 {
    1
}

fn build(bytes: &[u8]) -> (Vec<Item>, ParagraphMeta) {
    build_em(bytes, 16)
}

fn build_em(bytes: &[u8], em_px: u16) -> (Vec<Item>, ParagraphMeta) {
    let mut events = Events::new(bytes);
    let mut out: Vec<Item> = Vec::new();
    let meta = build_paragraph(&mut events, &unit_advance, em_px, &mut out);
    (out, meta)
}

#[test]
fn empty_buffer_yields_empty_paragraph() {
    let (items, meta) = build(b"");
    assert!(items.is_empty());
    assert_eq!(meta.end_kind, ParagraphEnd::EndOfBuffer);
}

#[test]
fn ascii_word_becomes_box_with_summed_advance() {
    let (items, meta) = build(b"hello");
    assert_eq!(items.len(), 1);
    assert_eq!(items[0].kind(), ItemKind::Box);
    assert_eq!(items[0].width, 5);
    assert_eq!(items[0].byte_offset, 0);
    assert_eq!(meta.end_kind, ParagraphEnd::EndOfBuffer);
}

#[test]
fn space_becomes_glue_with_stretch_and_shrink() {
    let (items, _) = build(b"a b");
    assert_eq!(items.len(), 3);
    assert_eq!(items[1].kind(), ItemKind::Glue);
    assert_eq!(items[1].width, 1);
}

#[test]
fn nbsp_becomes_unbreakable_box() {
    let (items, _) = build(b"a\xC2\xA0b");
    assert_eq!(items.len(), 3);
    assert_eq!(items[1].kind(), ItemKind::Box);
}

#[test]
fn soft_hyphen_becomes_flagged_penalty() {
    let (items, _) = build(b"ab\xC2\xADcd");
    assert_eq!(items.len(), 3);
    assert_eq!(items[1].kind(), ItemKind::Penalty);
    assert!(items[1].is_flagged());
    assert_eq!(items[1].penalty_value(), HYPHEN_PENALTY);
}

#[test]
fn paragraph_break_emits_forced_triple_and_returns() {
    let (items, meta) = build(b"a\n\nb");
    assert_eq!(items.len(), 4);
    assert!(items[3].is_forced());
    assert_eq!(meta.end_kind, ParagraphEnd::ParagraphBreak);
    assert_eq!(meta.byte_end, 3);
}

#[test]
fn page_break_at_chapter_start_emits_no_items() {
    let (items, meta) = build(&[MARKER, PAGE_BREAK, b'a']);
    assert!(items.is_empty());
    assert_eq!(meta.end_kind, ParagraphEnd::PageBreakAfter);
}

#[test]
fn block_record_sets_meta_and_adds_indent_box() {
    let props = BlockProps {
        align: Align::Right,
        left: 1,
        text_indent_qem: 6,
        space_above_qem: 4,
    };
    let mut bytes = Vec::new();
    bytes.extend_from_slice(&props.encode());
    bytes.extend_from_slice(b"ab cd");
    let (items, meta) = build_em(&bytes, 20);
    assert_eq!(meta.block, props);
    assert_eq!(items.len(), 4);
    assert_eq!(items[0].kind(), ItemKind::Box);
    assert_eq!(items[0].width, 30);
    assert_eq!(items[0].byte_offset, 5);
    assert_eq!(items[1].width, 2);
}

#[test]
fn no_indent_box_without_text_indent() {
    let (items, _) = build(b"ab");
    assert_eq!(items.len(), 1);
}

#[test]
fn bold_marker_propagates_to_word_style() {
    let mut bytes = Vec::new();
    bytes.extend_from_slice(&[MARKER, BOLD_ON]);
    bytes.extend_from_slice(b"x");
    bytes.extend_from_slice(&[MARKER, BOLD_OFF]);
    bytes.extend_from_slice(b" y");
    let (items, _) = build(&bytes);
    assert!(items[0].style().bold);
    assert!(!items[2].style().bold);
}

#[test]
fn nested_bold_italic_stamps_combined_style() {
    let mut bytes = Vec::new();
    bytes.extend_from_slice(&[MARKER, BOLD_ON, MARKER, ITALIC_ON]);
    bytes.extend_from_slice(b"x");
    bytes.extend_from_slice(&[MARKER, ITALIC_OFF, MARKER, BOLD_OFF]);
    let (items, _) = build(&bytes);
    let s = items[0].style();
    assert!(s.bold && s.italic);
}

#[test]
fn image_after_text_flushes_paragraph_with_image_meta() {
    let mut bytes = Vec::new();
    bytes.extend_from_slice(b"a\n\n");
    bytes.extend_from_slice(&[MARKER, IMG_REF, 0, 0, 0, 0, 0, 0, 3]);
    bytes.extend_from_slice(b"x.j");
    let mut events = Events::new(&bytes);
    let mut out = Vec::new();
    let first = build_paragraph(&mut events, &unit_advance, 16, &mut out);
    assert_eq!(first.end_kind, ParagraphEnd::ParagraphBreak);
    out.clear();
    let second = build_paragraph(&mut events, &unit_advance, 16, &mut out);
    assert!(out.is_empty());
    assert_eq!(second.end_kind, ParagraphEnd::ImageBlock);
    let img = second.image.unwrap();
    assert_eq!(img.start, 3);
    assert_eq!(img.path_len, 3);
}

#[test]
fn unknown_marker_is_skipped() {
    let (items, _) = build(&[b'a', MARKER, b'?', b'b']);
    assert_eq!(items.len(), 2);
}

#[test]
fn a_fed_block_record_sets_the_paragraph() {
    let props = BlockProps {
        align: Align::Right,
        left: 1,
        text_indent_qem: 6,
        space_above_qem: 4,
    };
    let plain = Style::plain();
    let mut builder = ParagraphBuilder::new(BlockProps::default(), plain, 0);
    let mut items = Vec::new();
    let stream = [
        (Event::Block { at: 5, block: props }, &b""[..]),
        (Event::Word { start: 5, end: 7, style: plain }, &b"ab"[..]),
    ];
    for (ev, word) in stream {
        assert!(builder.feed(ev, word, &unit_advance, 20, &mut items).is_none());
    }
    assert_eq!(builder.end_of_buffer().block, props);
    assert_eq!((items.len(), items[0].width, items[1].width), (2, 30, 2));
}

#[test]
fn a_block_record_holds_until_its_block_ends() {
    let props = BlockProps {
        align: Align::Center,
        left: 2,
        text_indent_qem: 8,
        space_above_qem: 3,
    };
    let continued = BlockProps { text_indent_qem: 0, space_above_qem: 0, ..props };
    let mut bytes = props.encode().to_vec();
    bytes.extend_from_slice(b"a\nb\n\nc ");
    bytes.extend_from_slice(&props.encode());
    bytes.extend_from_slice(b"d");
    let mut events = Events::new(&bytes);
    let mut blocks = Vec::new();
    let mut ends = Vec::new();
    while !events.is_eof() {
        let mut out = Vec::new();
        let m = build_paragraph(&mut events, &unit_advance, 16, &mut out);
        blocks.push(m.block);
        ends.push(m.end_kind);
    }
    assert_eq!(blocks, vec![props, continued, BlockProps::default(), props]);
    assert_eq!(
        ends,
        vec![
            ParagraphEnd::ParagraphBreak,
            ParagraphEnd::ParagraphBreak,
            ParagraphEnd::BlockChanged,
            ParagraphEnd::EndOfBuffer,
        ]
    );
}

#[test]
fn block_records_read_back_and_damaged_ones_do_not() {
    for align in [Align::Default, Align::Left, Align::Center, Align::Right] {
        let p = BlockProps { align, left: 31, text_indent_qem: 127, space_above_qem: 1 };
        assert_eq!(BlockProps::decode(&p.encode(), 0), Some(p));
        // no byte of what it says is a marker
        assert!(p.encode()[2..].iter().all(|b| *b >= 0x80));
    }
    let p = BlockProps { left: 200, text_indent_qem: 255, ..BlockProps::default() };
    let most = BlockProps { left: 31, text_indent_qem: 127, ..p };
    assert_eq!(BlockProps::decode(&p.encode(), 0), Some(most));
    let whole = p.encode();
    assert_eq!(BlockProps::decode(&whole[..4], 0), None);
    let mut bad = whole;
    bad[3] = 0x20;
    assert_eq!(BlockProps::decode(&bad, 0), None);
    // to the stream it is an unknown mark then
    let mut events = Events::new(&bad);
    assert_eq!(events.next_event(), Some(Event::Unknown { start: 0, end: 2 }));
    assert_eq!(events.block(), BlockProps::default());
}
