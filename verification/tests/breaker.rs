use plump_apps::layout::breaker::{
    break_paragraph, break_paragraph_full_scan, break_paragraph_with_fallback, Adjustment,
    BreakConfig, BreakError, BreakScratch, ChoiceFlags,
};
use plump_apps::layout::items::Item;

fn glue(w: u16, y: u16, z: u8) -> Item {
    Item::glue(w, y, z, 0)
}
fn boxed(w: u16) -> Item {
    Item::boxed(w, 0)
}
fn forced_triple() -> [Item; 3] {
    [
        Item::penalty(Item::PENALTY_FORBIDDEN, false, false, 0),
        Item::glue(0, 65535, 0, 0),
        Item::penalty(Item::PENALTY_FORCE, false, true, 0),
    ]
}

fn cfg(line_width: u16) -> BreakConfig {
    BreakConfig {
        line_width,
        ..BreakConfig::default()
    }
}

#[test]
fn empty_paragraph_returns_error() {
    let mut out = Vec::new();
    assert_eq!(break_paragraph(&[], &cfg(100), &mut BreakScratch::new(), &mut out), Err(BreakError::EmptyParagraph));
}

#[test]
fn single_word_fits_in_one_line() {
    let mut items = Vec::new();
    items.push(boxed(20));
    items.extend(forced_triple());
    let mut out = Vec::new();
    break_paragraph(&items, &cfg(100), &mut BreakScratch::new(), &mut out).unwrap();
    assert_eq!(out.len(), 1);
    assert!(out[0].flags.contains(ChoiceFlags::LAST_LINE));
    assert!(out[0].flags.contains(ChoiceFlags::FORCED_BREAK));
}

#[test]
fn two_words_fit_one_line_with_glue() {
    let mut items = Vec::new();
    items.push(boxed(10));
    items.push(glue(5, 2, 1));
    items.push(boxed(10));
    items.extend(forced_triple());
    let mut out = Vec::new();
    break_paragraph(&items, &cfg(100), &mut BreakScratch::new(), &mut out).unwrap();
    assert_eq!(out.len(), 1);
    assert_eq!(out[0].line_width_used, 25);
}

#[test]
fn long_paragraph_breaks_into_multiple_lines() {
    let mut items = Vec::new();
    for _ in 0..20 {
        items.push(boxed(10));
        items.push(glue(5, 12, 1));
    }
    items.extend(forced_triple());
    let mut out = Vec::new();
    break_paragraph(&items, &cfg(50), &mut BreakScratch::new(), &mut out).unwrap();
    assert!(out.len() >= 4, "expected ≥4 lines, got {}", out.len());
    assert!(out.last().unwrap().flags.contains(ChoiceFlags::LAST_LINE));
}

#[test]
fn unbreakable_box_wider_than_line_emits_overflow() {
    let mut items = Vec::new();
    items.push(boxed(200));
    items.extend(forced_triple());
    let mut out = Vec::new();
    break_paragraph_with_fallback(&items, &cfg(100), &mut BreakScratch::new(), &mut out).unwrap();
    assert_eq!(out.len(), 1);
    assert_eq!(out[0].adjustment(), Adjustment::Overflow);
}

#[test]
fn mid_forced_penalty_reaches_terminal() {
    let mut items = Vec::new();
    items.push(boxed(10));
    items.push(Item::penalty(Item::PENALTY_FORCE, false, true, 0));
    items.push(boxed(10));
    items.extend(forced_triple());
    let mut out = Vec::new();
    break_paragraph(&items, &cfg(100), &mut BreakScratch::new(), &mut out).unwrap();
    assert!(!out.is_empty());
    let last = out.last().unwrap();
    assert!(last.flags.contains(ChoiceFlags::LAST_LINE));
    assert!(last.flags.contains(ChoiceFlags::FORCED_BREAK));
}

#[test]
fn item_budget_exceeded_returns_error() {
    let mut items = Vec::new();
    for _ in 0..10 {
        items.push(boxed(10));
    }
    let mut out = Vec::new();
    let cfg = BreakConfig {
        line_width: 100,
        max_items: 5,
        ..BreakConfig::default()
    };
    assert_eq!(break_paragraph(&items, &cfg, &mut BreakScratch::new(), &mut out), Err(BreakError::ItemBudgetExceeded));
}

#[test]
fn fallback_loosens_tolerance_on_no_feasible() {
    let mut items = Vec::new();
    for _ in 0..5 {
        items.push(boxed(40));
        items.push(glue(2, 0, 0));
    }
    items.extend(forced_triple());
    let mut out = Vec::new();
    let _ = break_paragraph_with_fallback(&items, &cfg(42), &mut BreakScratch::new(), &mut out);
    assert!(!out.is_empty());
}

#[test]
fn fallback_loosens_tolerance_on_single_overflow() {
    let mut items = Vec::new();
    for _ in 0..6 {
        items.push(boxed(20));
        items.push(glue(2, 0, 0));
    }
    items.extend(forced_triple());

    let strict = BreakConfig {
        line_width: 80,
        tolerance: 1,
        ..BreakConfig::default()
    };
    let mut primary_out = Vec::new();
    break_paragraph(&items, &strict, &mut BreakScratch::new(), &mut primary_out).unwrap();
    assert_eq!(primary_out.len(), 1, "primary should collapse to one line");
    assert_eq!(primary_out[0].adjustment(), Adjustment::Overflow);

    let mut out = Vec::new();
    break_paragraph_with_fallback(&items, &strict, &mut BreakScratch::new(), &mut out).unwrap();
    assert!(out.len() > 1, "fallback should emit >1 line, got {}", out.len());
}

#[test]
fn last_line_carries_last_line_flag() {
    let mut items = Vec::new();
    items.push(boxed(10));
    items.extend(forced_triple());
    let mut out = Vec::new();
    break_paragraph(&items, &cfg(100), &mut BreakScratch::new(), &mut out).unwrap();
    assert!(out.last().unwrap().flags.contains(ChoiceFlags::LAST_LINE));
}

#[test]
fn adjustment_accessor_returns_typed_variant() {
    let mut items = Vec::new();
    items.push(boxed(50));
    items.extend(forced_triple());
    let mut out = Vec::new();
    break_paragraph(&items, &cfg(100), &mut BreakScratch::new(), &mut out).unwrap();
    assert_eq!(out[0].adjustment(), Adjustment::Perfect);
}

#[test]
fn emergency_stretch_helps_loose_line() {
    let mut items = Vec::new();
    for _ in 0..10 {
        items.push(boxed(10));
        items.push(glue(2, 1, 0));
    }
    items.extend(forced_triple());

    let mut pass1 = Vec::new();
    break_paragraph(&items, &cfg(40), &mut BreakScratch::new(), &mut pass1).unwrap();
    assert_eq!(pass1.len(), 1);
    assert_eq!(pass1[0].adjustment(), Adjustment::Overflow);

    let mut out = Vec::new();
    break_paragraph_with_fallback(&items, &cfg(40), &mut BreakScratch::new(), &mut out).unwrap();
    assert!(out.len() > 1, "expected multi-line, got {}", out.len());
}

#[test]
fn emergency_stretch_zero_is_no_op() {
    let mut items = Vec::new();
    for _ in 0..5 {
        items.push(boxed(10));
        items.push(glue(5, 3, 1));
    }
    items.extend(forced_triple());

    let cfg_default = cfg(60);
    let cfg_explicit_zero = BreakConfig {
        emergency_stretch: 0,
        ..cfg(60)
    };

    let mut a = Vec::new();
    let mut b = Vec::new();
    break_paragraph(&items, &cfg_default, &mut BreakScratch::new(), &mut a).unwrap();
    break_paragraph(&items, &cfg_explicit_zero, &mut BreakScratch::new(), &mut b).unwrap();
    assert_eq!(a, b);
}

#[test]
fn fallback_fires_on_forced_clamp_shrink() {
    let mut items = Vec::new();
    for _ in 0..5 {
        items.push(boxed(20));
        items.push(glue(2, 1, 1));
    }
    items.extend(forced_triple());

    let mut pass1 = Vec::new();
    break_paragraph(&items, &cfg(40), &mut BreakScratch::new(), &mut pass1).unwrap();
    assert_eq!(pass1.len(), 1);
    assert!(matches!(pass1[0].adjustment(), Adjustment::Shrink(_)));
    assert!(pass1[0].line_width_used > 40);

    let mut out = Vec::new();
    break_paragraph_with_fallback(&items, &cfg(40), &mut BreakScratch::new(), &mut out).unwrap();
    assert!(out.len() > 1, "expected multi-line, got {}", out.len());
}

fn lcg(state: &mut u32) -> u32 {
    *state = state.wrapping_mul(1664525).wrapping_add(1013904223);
    *state >> 16
}

#[test]
fn windowed_matches_full_scan_on_prose() {
    let mut seed = 0xC0FFEE;
    for case in 0..40 {
        let words = 5 + (lcg(&mut seed) % 60) as usize;
        let mut items = Vec::new();
        for _ in 0..words {
            items.push(boxed(8 + (lcg(&mut seed) % 32) as u16));
            items.push(glue(
                4 + (lcg(&mut seed) % 4) as u16,
                2 + (lcg(&mut seed) % 3) as u16,
                1 + (lcg(&mut seed) % 2) as u8,
            ));
        }
        items.extend(forced_triple());
        let line_width = 60 + (lcg(&mut seed) % 300) as u16;

        let mut windowed = Vec::new();
        let mut full = Vec::new();
        let r1 = break_paragraph(&items, &cfg(line_width), &mut BreakScratch::new(), &mut windowed);
        let r2 = break_paragraph_full_scan(&items, &cfg(line_width), &mut BreakScratch::new(), &mut full);
        assert_eq!(r1, r2, "case {} result mismatch", case);
        assert_eq!(windowed, full, "case {} (lw={}) output mismatch", case, line_width);
    }
}

#[test]
fn windowed_matches_full_scan_giant_url_mid_paragraph() {
    let mut items = Vec::new();
    for _ in 0..6 {
        items.push(boxed(20));
        items.push(glue(5, 12, 1));
    }
    items.push(boxed(400));
    items.push(glue(5, 12, 1));
    for _ in 0..6 {
        items.push(boxed(20));
        items.push(glue(5, 12, 1));
    }
    items.extend(forced_triple());

    let configs = [
        cfg(100),
        BreakConfig {
            tolerance: 10_000,
            line_penalty: 0,
            emergency_stretch: 100 / 5,
            ..cfg(100)
        },
    ];
    for (ci, c) in configs.iter().enumerate() {
        let mut windowed = Vec::new();
        let mut full = Vec::new();
        let r1 = break_paragraph(&items, c, &mut BreakScratch::new(), &mut windowed);
        let r2 = break_paragraph_full_scan(&items, c, &mut BreakScratch::new(), &mut full);
        assert_eq!(r1, r2, "cfg {} result mismatch", ci);
        assert_eq!(windowed, full, "cfg {} output mismatch", ci);
    }
}

#[test]
fn scratch_reuse_is_equivalent_to_fresh() {
    let mut items_a = Vec::new();
    for _ in 0..10 {
        items_a.push(boxed(12));
        items_a.push(glue(5, 3, 1));
    }
    items_a.extend(forced_triple());
    let mut items_b = Vec::new();
    for _ in 0..4 {
        items_b.push(boxed(30));
        items_b.push(glue(6, 2, 2));
    }
    items_b.extend(forced_triple());

    let mut shared = BreakScratch::new();
    let mut out_a1 = Vec::new();
    let mut out_b1 = Vec::new();
    break_paragraph(&items_a, &cfg(70), &mut shared, &mut out_a1).unwrap();
    break_paragraph(&items_b, &cfg(70), &mut shared, &mut out_b1).unwrap();

    let mut out_a2 = Vec::new();
    let mut out_b2 = Vec::new();
    break_paragraph(&items_a, &cfg(70), &mut BreakScratch::new(), &mut out_a2).unwrap();
    break_paragraph(&items_b, &cfg(70), &mut BreakScratch::new(), &mut out_b2).unwrap();

    assert_eq!(out_a1, out_a2);
    assert_eq!(out_b1, out_b2);
}

#[test]
fn pass_one_used_when_feasible() {
    let mut items = Vec::new();
    for _ in 0..6 {
        items.push(boxed(10));
        items.push(glue(5, 12, 1));
    }
    items.extend(forced_triple());

    let mut direct = Vec::new();
    break_paragraph(&items, &cfg(50), &mut BreakScratch::new(), &mut direct).unwrap();
    assert!(direct.len() > 1, "test paragraph should span multiple lines");

    let mut via_fallback = Vec::new();
    break_paragraph_with_fallback(&items, &cfg(50), &mut BreakScratch::new(), &mut via_fallback).unwrap();
    assert_eq!(direct, via_fallback);
}
