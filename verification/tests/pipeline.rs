use plump_apps::fonts::Style;
use plump_apps::layout::pipeline::{
    image_lines_for, ImageBudget, ImageHeightHint, NoImageHint, DEFAULT_IMG_H,
};
use plump_apps::layout::scan::ImageRef;

fn image(attr_w: u16, attr_h: u16) -> ImageRef {
    ImageRef {
        start: 0,
        alt_start: 0,
        path_start: 0,
        end: 0,
        flags: 0,
        attr_w,
        attr_h,
        alt_len: 0,
        path_len: 0,
    }
}

fn budget(text_w: u16, inline_cap: u16, line_h: u16) -> ImageBudget {
    ImageBudget { text_w, inline_cap, line_h }
}

struct FixedHint(u16);
impl ImageHeightHint for FixedHint {
    fn rendered_height(&mut self, _src: &[u8]) -> Option<u16> {
        Some(self.0)
    }
}

struct PanickingHint;
impl ImageHeightHint for PanickingHint {
    fn rendered_height(&mut self, _src: &[u8]) -> Option<u16> {
        panic!("hint must not be called when attrs are present");
    }
}

#[test]
fn image_lines_for_applies_decoder_scale() {
    let (lines, _) = image_lines_for(
        Some(image(1600, 2400)),
        budget(400, 288, 22),
        b"",
        &mut NoImageHint,
    );
    assert_eq!(lines, 13);
}

#[test]
fn image_lines_for_uses_default_when_no_hint() {
    let (lines, _) = image_lines_for(
        Some(image(0, 0)),
        budget(400, 288, 22),
        b"",
        &mut NoImageHint,
    );
    let expected = (DEFAULT_IMG_H.min(288)).div_ceil(22) as u8;
    assert_eq!(lines, expected);
}

#[test]
fn image_lines_for_height_only_hint_clamps_to_cap() {
    let (lines, _) = image_lines_for(
        Some(image(0, 2000)),
        budget(400, 200, 22),
        b"",
        &mut NoImageHint,
    );
    assert_eq!(lines, 10);
}

#[test]
fn image_lines_for_small_image_fits_natural_size() {
    let (lines, _) = image_lines_for(
        Some(image(100, 80)),
        budget(400, 288, 22),
        b"",
        &mut NoImageHint,
    );
    assert_eq!(lines, 4);
}

#[test]
fn image_lines_for_clamps_to_u8_max() {
    let (lines, _) = image_lines_for(
        Some(image(0, u16::MAX)),
        budget(400, u16::MAX, 1),
        b"",
        &mut NoImageHint,
    );
    assert_eq!(lines, u8::MAX);
}

#[test]
fn image_lines_for_consults_hint_when_attrs_missing() {
    let mut hint = FixedHint(120);
    let (lines, _) = image_lines_for(
        Some(image(0, 0)),
        budget(400, 288, 22),
        b"cover.jpg",
        &mut hint,
    );
    assert_eq!(lines, 6);
}

#[test]
fn image_lines_for_hint_clamped_to_inline_cap() {
    let mut hint = FixedHint(500);
    let (lines, _) = image_lines_for(
        Some(image(0, 0)),
        budget(400, 200, 22),
        b"x",
        &mut hint,
    );
    assert_eq!(lines, (200u16.div_ceil(22)) as u8);
}

#[test]
fn image_lines_for_hint_floor_is_one_line() {
    let mut hint = FixedHint(5);
    let (lines, _) = image_lines_for(
        Some(image(0, 0)),
        budget(400, 288, 22),
        b"x",
        &mut hint,
    );
    assert_eq!(lines, 1);
}

#[test]
fn image_lines_for_falls_back_when_hint_none() {
    struct NullHint;
    impl ImageHeightHint for NullHint {
        fn rendered_height(&mut self, _src: &[u8]) -> Option<u16> {
            None
        }
    }
    let (lines, _) = image_lines_for(
        Some(image(0, 0)),
        budget(400, 288, 22),
        b"x",
        &mut NullHint,
    );
    let expected = (DEFAULT_IMG_H.min(288)).div_ceil(22) as u8;
    assert_eq!(lines, expected);
}

#[test]
fn image_lines_for_with_both_attrs_skips_hint() {
    let (lines, _) = image_lines_for(
        Some(image(1600, 2400)),
        budget(400, 288, 22),
        b"x",
        &mut PanickingHint,
    );
    assert_eq!(lines, 13);
}

#[test]
fn style_from_flags_regular_when_no_flags() {
    assert_eq!(Style::from_flags(false, false, false, 0), Style::Regular);
}

#[test]
fn style_from_flags_bold_italic_picks_bold() {
    assert_eq!(Style::from_flags(true, true, false, 0), Style::Bold);
}

#[test]
fn style_from_flags_h1_to_h3_pick_heading() {
    assert_eq!(Style::from_flags(false, false, true, 1), Style::Heading);
    assert_eq!(Style::from_flags(false, false, true, 2), Style::Heading);
    assert_eq!(Style::from_flags(false, false, true, 3), Style::Heading);
}

#[test]
fn style_from_flags_h4_to_h6_pick_bold() {
    assert_eq!(Style::from_flags(false, false, true, 4), Style::Bold);
    assert_eq!(Style::from_flags(false, false, true, 5), Style::Bold);
    assert_eq!(Style::from_flags(false, false, true, 6), Style::Bold);
}

#[test]
fn style_from_flags_heading_beats_bold_at_h1() {
    assert_eq!(Style::from_flags(true, false, true, 1), Style::Heading);
}

#[test]
fn style_from_flags_italic_only_when_nothing_else() {
    assert_eq!(Style::from_flags(false, true, false, 0), Style::Italic);
    assert_eq!(Style::from_flags(true, true, false, 0), Style::Bold);
}
