use plump_apps::layout::scan::{
    BlockAlign, MarkupScanner, TextStyle, Token, ALIGN_CENTER, ALIGN_LEFT, ALIGN_RESET, BOLD_ON,
    BREAK, FIGCAPTION_OFF, FIGCAPTION_ON, H1_ON, H2_ON, H3_ON, H4_ON, H5_ON, H6_ON, HEADING_ON,
    IMG_HEADER_LEN, IMG_REF, MARKER, PAGE_BREAK, QUOTE_OFF, QUOTE_ON,
};

fn drain(bytes: &[u8]) -> Vec<Token> {
    let mut s = MarkupScanner::new(bytes);
    let mut out = Vec::new();
    while let Some(t) = s.next() {
        out.push(t);
    }
    out
}

fn marker(tag: u8) -> [u8; 2] {
    [MARKER, tag]
}

#[test]
fn plain_ascii_words_and_spaces() {
    let toks = drain(b"hello world");
    assert_eq!(
        toks,
        vec![
            Token::Word {
                start: 0,
                end: 5,
                style: TextStyle::default()
            },
            Token::Space {
                start: 5,
                end: 6,
                style: TextStyle::default()
            },
            Token::Word {
                start: 6,
                end: 11,
                style: TextStyle::default()
            },
        ]
    );
}

#[test]
fn hard_break_vs_paragraph_break() {
    let single = drain(b"a\nb");
    assert!(matches!(single[1], Token::HardBreak { .. }));

    let paragraph = drain(b"a\n\nb");
    assert!(matches!(paragraph[1], Token::ParagraphBreak { start: 1, end: 3 }));

    let triple = drain(b"a\n\n\nb");
    match triple[1] {
        Token::ParagraphBreak { start, end } => {
            assert_eq!(start, 1);
            assert_eq!(end, 4);
        }
        _ => panic!("expected ParagraphBreak"),
    }
}

#[test]
fn nbsp_splits_word() {
    let bytes = b"a\xC2\xA0b";
    let toks = drain(bytes);
    assert!(matches!(toks[0], Token::Word { start: 0, end: 1, .. }));
    assert!(matches!(toks[1], Token::Nbsp { start: 1, end: 3, .. }));
    assert!(matches!(toks[2], Token::Word { start: 3, end: 4, .. }));
}

#[test]
fn soft_hyphen_splits_word() {
    let bytes = b"ab\xC2\xADcd";
    let toks = drain(bytes);
    assert!(matches!(toks[0], Token::Word { start: 0, end: 2, .. }));
    assert!(matches!(toks[1], Token::SoftHyphen { start: 2, end: 4, .. }));
    assert!(matches!(toks[2], Token::Word { start: 4, end: 6, .. }));
}

#[test]
fn bold_marker_splits_word_and_propagates_style() {
    let mut bytes = Vec::new();
    bytes.extend_from_slice(b"h");
    bytes.extend_from_slice(&marker(BOLD_ON));
    bytes.extend_from_slice(b"i");
    let toks = drain(&bytes);
    assert_eq!(toks.len(), 2);
    match toks[0] {
        Token::Word { style, .. } => assert!(!style.bold),
        _ => panic!(),
    }
    match toks[1] {
        Token::Word { style, .. } => assert!(style.bold),
        _ => panic!(),
    }
}

#[test]
fn heading_levels() {
    let pairs = [
        (H1_ON, 1u8),
        (H2_ON, 2),
        (H3_ON, 3),
        (H4_ON, 4),
        (H5_ON, 5),
        (H6_ON, 6),
    ];
    for (on, level) in pairs {
        let mut bytes = Vec::new();
        bytes.extend_from_slice(&marker(on));
        bytes.extend_from_slice(b"x");
        let toks = drain(&bytes);
        match toks[0] {
            Token::Word { style, .. } => {
                assert!(style.heading);
                assert_eq!(style.hlevel, level);
            }
            _ => panic!(),
        }
    }
}

#[test]
fn legacy_heading_is_h2_tier() {
    let mut bytes = Vec::new();
    bytes.extend_from_slice(&marker(HEADING_ON));
    bytes.extend_from_slice(b"x");
    let toks = drain(&bytes);
    match toks[0] {
        Token::Word { style, .. } => {
            assert!(style.heading);
            assert_eq!(style.hlevel, 2);
        }
        _ => panic!(),
    }
}

#[test]
fn align_emits_block_changed_only_on_transition() {
    let mut bytes = Vec::new();
    bytes.extend_from_slice(&marker(ALIGN_CENTER));
    bytes.extend_from_slice(b"a");
    bytes.extend_from_slice(&marker(ALIGN_CENTER));
    bytes.extend_from_slice(b"b");
    let toks = drain(&bytes);
    let bc_count = toks
        .iter()
        .filter(|t| matches!(t, Token::BlockChanged { .. }))
        .count();
    assert_eq!(bc_count, 1, "second identical align should not emit");
}

#[test]
fn quote_indent_stack() {
    let mut bytes = Vec::new();
    bytes.extend_from_slice(&marker(QUOTE_ON));
    bytes.extend_from_slice(&marker(QUOTE_ON));
    bytes.extend_from_slice(b"x");
    bytes.extend_from_slice(&marker(QUOTE_OFF));
    bytes.extend_from_slice(b"y");
    let toks = drain(&bytes);
    let depths: Vec<u8> = toks
        .iter()
        .filter_map(|t| match t {
            Token::BlockChanged { block, .. } => Some(block.indent),
            _ => None,
        })
        .collect();
    assert_eq!(depths, vec![1, 2, 1]);
}

#[test]
fn page_and_thematic_break() {
    let mut bytes = Vec::new();
    bytes.extend_from_slice(&marker(PAGE_BREAK));
    bytes.extend_from_slice(&marker(BREAK));
    let toks = drain(&bytes);
    assert!(matches!(toks[0], Token::PageBreak { .. }));
    assert!(matches!(toks[1], Token::ThematicBreak { .. }));
}

#[test]
fn img_ref_payload_advances_correctly() {
    let alt = b"alt-text";
    let path = b"images/cover.jpg";
    let mut bytes = Vec::new();
    bytes.push(MARKER);
    bytes.push(IMG_REF);
    bytes.push(0x42);
    bytes.extend_from_slice(&100u16.to_le_bytes());
    bytes.extend_from_slice(&200u16.to_le_bytes());
    bytes.push(alt.len() as u8);
    bytes.push(path.len() as u8);
    bytes.extend_from_slice(alt);
    bytes.extend_from_slice(path);
    bytes.push(b'X');

    let toks = drain(&bytes);
    match toks[0] {
        Token::Image(img) => {
            assert_eq!(img.start, 0);
            assert_eq!(img.flags, 0x42);
            assert_eq!(img.attr_w, 100);
            assert_eq!(img.attr_h, 200);
            assert_eq!(img.alt_len as usize, alt.len());
            assert_eq!(img.path_len as usize, path.len());
            assert_eq!(img.alt_start as usize, IMG_HEADER_LEN);
            assert_eq!(img.path_start as usize, IMG_HEADER_LEN + alt.len());
            assert_eq!(img.end as usize, IMG_HEADER_LEN + alt.len() + path.len());
        }
        _ => panic!("expected Image token, got {:?}", toks[0]),
    }
    match toks[1] {
        Token::Word { start, end, .. } => {
            assert_eq!(start as usize, IMG_HEADER_LEN + alt.len() + path.len());
            assert_eq!(end as usize, IMG_HEADER_LEN + alt.len() + path.len() + 1);
        }
        _ => panic!("expected trailing Word, got {:?}", toks[1]),
    }
}

#[test]
fn truncated_img_ref_yields_unknown_marker_and_does_not_panic() {
    let bytes = vec![MARKER, IMG_REF, 0x00];
    let toks = drain(&bytes);
    assert_eq!(toks.len(), 1);
    match toks[0] {
        Token::UnknownMarker { tag, .. } => assert_eq!(tag, IMG_REF),
        _ => panic!(),
    }
}

#[test]
fn img_ref_with_zero_path_len_is_unknown() {
    let mut bytes = vec![MARKER, IMG_REF, 0, 0, 0, 0, 0, 0, 0];
    bytes.push(b'X');
    let toks = drain(&bytes);
    match toks[0] {
        Token::UnknownMarker { tag, end, .. } => {
            assert_eq!(tag, IMG_REF);
            assert_eq!(end, 2);
        }
        _ => panic!("expected UnknownMarker, got {:?}", toks[0]),
    }
}

#[test]
fn unknown_marker_tag_consumes_two_bytes() {
    let bytes = [MARKER, b'?', b'a'];
    let toks = drain(&bytes);
    assert!(matches!(toks[0], Token::UnknownMarker { tag: b'?', start: 0, end: 2 }));
    assert!(matches!(toks[1], Token::Word { start: 2, end: 3, .. }));
}

#[test]
fn dangling_marker_at_eof_does_not_panic() {
    let bytes = [b'a', MARKER];
    let toks = drain(&bytes);
    assert_eq!(toks.len(), 1);
    assert!(matches!(toks[0], Token::Word { start: 0, end: 1, .. }));
}

#[test]
fn cr_is_silently_skipped() {
    let toks = drain(b"a\r\nb");
    assert!(matches!(toks[0], Token::Word { start: 0, end: 1, .. }));
    assert!(matches!(toks[1], Token::HardBreak { start: 2, end: 3 }));
    assert!(matches!(toks[2], Token::Word { start: 3, end: 4, .. }));
}

#[test]
fn empty_buffer_yields_nothing() {
    let toks = drain(b"");
    assert!(toks.is_empty());
}

#[test]
fn next_returns_none_after_exhaustion() {
    let mut s = MarkupScanner::new(b"a");
    assert!(s.next().is_some());
    assert!(s.next().is_none());
    assert!(s.next().is_none());
}

#[test]
fn align_left_then_reset_round_trips_block_state() {
    let mut bytes = Vec::new();
    bytes.extend_from_slice(&marker(ALIGN_LEFT));
    bytes.extend_from_slice(b"x");
    bytes.extend_from_slice(&marker(ALIGN_RESET));
    bytes.extend_from_slice(b"y");
    let toks = drain(&bytes);
    let aligns: Vec<BlockAlign> = toks
        .iter()
        .filter_map(|t| match t {
            Token::BlockChanged { block, .. } => Some(block.align),
            _ => None,
        })
        .collect();
    assert_eq!(aligns, vec![BlockAlign::Left, BlockAlign::Default]);
}

#[test]
fn figcaption_toggles_block_state() {
    let mut bytes = Vec::new();
    bytes.extend_from_slice(&marker(FIGCAPTION_ON));
    bytes.extend_from_slice(b"x");
    bytes.extend_from_slice(&marker(FIGCAPTION_OFF));
    bytes.extend_from_slice(b"y");
    let toks = drain(&bytes);
    let figs: Vec<bool> = toks
        .iter()
        .filter_map(|t| match t {
            Token::BlockChanged { block, .. } => Some(block.figcaption),
            _ => None,
        })
        .collect();
    assert_eq!(figs, vec![true, false]);
}
