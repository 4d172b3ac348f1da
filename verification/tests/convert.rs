use plump_apps::layout::breaker::{break_paragraph, BreakConfig, BreakScratch};
use plump_apps::layout::convert::{append_greedy_fallback, append_lines};
use plump_apps::layout::items::{Item, ParagraphEnd, ParagraphMeta};
use plump_apps::layout::LineLayout;
use plump_apps::markup::{Align, BlockProps, Style};

fn meta() -> ParagraphMeta {
    ParagraphMeta {
        block: BlockProps::default(),
        style_at_start: Style::plain(),
        end_kind: ParagraphEnd::ParagraphBreak,
        byte_start: 0,
        byte_end: 0,
        image: None,
    }
}

fn forced_triple() -> [Item; 3] {
    [
        Item::penalty(Item::PENALTY_FORBIDDEN, false, false, 100),
        Item::glue(0, 65535, 0, 100),
        Item::penalty(Item::PENALTY_FORCE, false, true, 100),
    ]
}

#[test]
fn append_lines_marks_paragraph_end_on_last_line() {
    let mut items = vec![
        Item::boxed(10, 0),
        Item::glue(5, 2, 1, 10),
        Item::boxed(10, 11),
    ];
    items.extend(forced_triple());

    let cfg = BreakConfig {
        line_width: 100,
        ..BreakConfig::default()
    };
    let mut choices = Vec::new();
    break_paragraph(&items, &cfg, &mut BreakScratch::new(), &mut choices).unwrap();

    let mut out = Vec::new();
    let mut pending = false;
    append_lines(&items, &choices, &meta(), &mut pending, &mut out);
    assert!(out.last().unwrap().is_paragraph_end());
    assert_eq!(out.last().unwrap().extra, 0);
}

#[test]
fn first_line_carries_block_indent_and_gap() {
    let mut items = vec![Item::boxed(10, 0), Item::glue(5, 2, 1, 10), Item::boxed(10, 11)];
    items.extend(forced_triple());
    let mut m = meta();
    m.block = BlockProps {
        align: Align::Center,
        left: 2,
        text_indent_qem: 6,
        space_above_qem: 4,
    };
    let mut out = Vec::new();
    let mut pending = false;
    append_greedy_fallback(&items, &m, 12, &mut pending, &mut out);
    assert!(out.len() >= 2);
    assert_eq!(out[0].left_levels(), 2);
    assert_eq!(out[0].first_indent_qem(), 6);
    assert_eq!(out[0].gap_qem(), 4);
    assert_eq!(out[0].align(), LineLayout::ALIGN_CENTER);
    assert_eq!(out[1].first_indent_qem(), 0);
    assert_eq!(out[1].gap_qem(), 0);
    assert_eq!(out[1].left_levels(), 2);
}

#[test]
fn dropcap_first_line_flags_bold_and_underline() {
    let bold = Style {
        bold: true,
        underline: true,
        ..Style::plain()
    };
    let mut items = vec![
        Item::boxed(3, 0).with_style(bold),
        Item::boxed(15, 5),
        Item::glue(5, 2, 1, 20),
        Item::boxed(15, 21),
    ];
    items.extend(forced_triple());
    let cfg = BreakConfig {
        line_width: 100,
        ..BreakConfig::default()
    };
    let mut choices = Vec::new();
    break_paragraph(&items, &cfg, &mut BreakScratch::new(), &mut choices).unwrap();
    let mut out = Vec::new();
    let mut pending = false;
    append_lines(&items, &choices, &meta(), &mut pending, &mut out);
    let first = out[0];
    assert!(first.flags & LineLayout::FLAG_BOLD != 0);
    assert!(first.starts_underline());
    assert_eq!(first.start_style(), bold);
}

#[test]
fn heading_tiers_round_trip() {
    for lvl in 1..=6u8 {
        let s = Style {
            heading: lvl,
            ..Style::plain()
        };
        let ll = LineLayout {
            flags: LineLayout::style_flags(s),
            align: LineLayout::pack_align(Align::Default, 0, s),
            ..LineLayout::empty()
        };
        assert_eq!(ll.start_style().heading, lvl.min(4));
    }
}

#[test]
fn greedy_fallback_breaks_at_overflow() {
    let mut items = Vec::new();
    for k in 0..10 {
        items.push(Item::boxed(20, k as u32 * 100));
        items.push(Item::glue(5, 2, 1, k as u32 * 100 + 50));
    }
    let mut out = Vec::new();
    let mut pending = false;
    append_greedy_fallback(&items, &meta(), 50, &mut pending, &mut out);
    assert!(out.len() >= 4, "expected ≥4 lines, got {}", out.len());
    assert!(out.last().unwrap().is_paragraph_end());
}
