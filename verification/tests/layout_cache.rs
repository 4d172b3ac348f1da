use plump_apps::layout::cache::{
    invalidate_layoutidx, load_layoutidx, load_layoutidx_granted, save_layoutidx, Saved,
    ENTRY_SIZE, HEADER_SIZE,
};
use plump_apps::layout::{LayoutKey, LineLayout, PageLayout};

fn key(line_h: u16) -> LayoutKey {
    LayoutKey::current(2, 0, 3, 464, line_h, 30)
}

fn page(first: u16) -> PageLayout {
    PageLayout {
        first_line: first,
        line_count: 20,
        flags: 0,
        start_byte: 1000 * first as u32,
        end_byte: 70000,
    }
}

fn line(start: u32) -> LineLayout {
    LineLayout { start_byte: start, end_byte: start + 300, flags: 5, indent: 6, align: 7, extra: 8 }
}

fn empty_dir(chapters: usize) -> Vec<u8> {
    vec![0; HEADER_SIZE + chapters * ENTRY_SIZE]
}

#[test]
fn saved_layouts_come_back() {
    let mut dir = empty_dir(3);
    let mut data = Vec::new();
    let k = key(28);
    let pages = [page(0), page(20)];
    let lines = [line(0), line(300), line(66000)];
    let r = save_layoutidx(&mut dir, &mut data, true, 1, 3, &k, &pages, &lines, 999);
    assert_eq!(r, Saved::Yes);
    assert_eq!(data.len(), 5 * 12);
    let got = load_layoutidx(&dir, &data, true, 1, 3, &k).unwrap();
    assert_eq!(got.pages, pages);
    assert_eq!(got.lines, lines);
    assert_eq!(got.byte_size, 999);
    assert!(load_layoutidx(&dir, &data, true, 0, 3, &k).is_none());
    assert!(load_layoutidx(&dir, &data, false, 1, 3, &k).is_none());
    assert!(load_layoutidx(&dir, &data, true, 3, 3, &k).is_none());
    assert!(load_layoutidx_granted(&dir, &data, true, 1, 3, &k, false).is_none());
}

#[test]
fn other_chapters_stay() {
    let mut dir = empty_dir(3);
    let mut data = Vec::new();
    let k = key(28);
    save_layoutidx(&mut dir, &mut data, true, 0, 3, &k, &[page(0)], &[line(1)], 1);
    save_layoutidx(&mut dir, &mut data, true, 2, 3, &k, &[page(5)], &[], 2);
    let a = load_layoutidx(&dir, &data, true, 0, 3, &k).unwrap();
    assert_eq!(a.lines, [line(1)]);
    let b = load_layoutidx(&dir, &data, true, 2, 3, &k).unwrap();
    assert_eq!(b.pages, [page(5)]);
    assert!(b.lines.is_empty());
}

#[test]
fn another_spacing_finds_lines_without_pages() {
    let mut dir = empty_dir(1);
    let mut data = Vec::new();
    save_layoutidx(&mut dir, &mut data, true, 0, 1, &key(28), &[page(0)], &[line(1)], 1);
    let got = load_layoutidx(&dir, &data, true, 0, 1, &key(32)).unwrap();
    assert!(got.pages.is_empty());
    assert_eq!(got.lines, [line(1)]);
    let other = LayoutKey::current(3, 0, 3, 464, 28, 30);
    assert!(load_layoutidx(&dir, &data, true, 0, 1, &other).is_none());
}

#[test]
fn another_key_starts_the_directory_over() {
    let mut dir = empty_dir(2);
    let mut data = Vec::new();
    save_layoutidx(&mut dir, &mut data, true, 0, 2, &key(28), &[page(0)], &[line(1)], 1);
    save_layoutidx(&mut dir, &mut data, true, 1, 2, &key(32), &[page(0)], &[line(2)], 1);
    assert!(load_layoutidx(&dir, &data, true, 0, 2, &key(32)).is_none());
    assert!(load_layoutidx(&dir, &data, true, 1, 2, &key(32)).is_some());
}

#[test]
fn what_cannot_be_saved() {
    let mut dir = empty_dir(1);
    let mut data = Vec::new();
    let k = key(28);
    let p = [page(0)];
    assert_eq!(save_layoutidx(&mut dir, &mut data, false, 0, 1, &k, &p, &[], 1), Saved::No);
    assert_eq!(save_layoutidx(&mut dir, &mut data, true, 1, 1, &k, &p, &[], 1), Saved::No);
    let many = vec![page(0); 513];
    assert_eq!(save_layoutidx(&mut dir, &mut data, true, 0, 1, &k, &many, &[], 1), Saved::No);
    assert!(data.is_empty());
}

#[test]
fn a_chapter_without_a_place_leaves_its_records() {
    let mut dir = empty_dir(1);
    let mut data = Vec::new();
    let k = key(28);
    assert_eq!(save_layoutidx(&mut dir, &mut data, true, 0, 2, &k, &[page(0)], &[], 1), Saved::Yes);
    let stored = dir.clone();
    let r = save_layoutidx(&mut dir, &mut data, true, 1, 2, &k, &[page(3)], &[line(1)], 1);
    assert_eq!(r, Saved::Failed);
    assert_eq!(dir, stored);
    assert_eq!(data.len(), 36);
    assert_eq!(load_layoutidx(&dir, &data, true, 0, 2, &k).unwrap().pages, vec![page(0)]);
    // under another key the directory starts over first
    let r = save_layoutidx(&mut dir, &mut data, true, 1, 2, &key(32), &[page(3)], &[], 1);
    assert_eq!(r, Saved::Failed);
    assert!(load_layoutidx(&dir, &data, true, 0, 2, &k).is_none());
    assert_eq!(data.len(), 48);
}

#[test]
fn a_directory_too_short_for_its_stamp() {
    let mut dir = vec![7u8; 3];
    let mut data = Vec::new();
    let r = save_layoutidx(&mut dir, &mut data, true, 0, 1, &key(28), &[page(0)], &[], 1);
    assert_eq!((r, dir, data.len()), (Saved::Failed, vec![0u8; 3], 0));
}

#[test]
fn invalidation_drops_everything() {
    let mut dir = empty_dir(1);
    let mut data = Vec::new();
    let k = key(28);
    save_layoutidx(&mut dir, &mut data, true, 0, 1, &k, &[page(0)], &[line(1)], 1);
    assert!(invalidate_layoutidx(&mut dir, &k));
    assert!(load_layoutidx(&dir, &data, true, 0, 1, &k).is_none());
    assert!(!invalidate_layoutidx(&mut vec![0; 3], &k));
}

#[test]
fn a_damaged_entry_is_not_followed() {
    let mut dir = empty_dir(1);
    let mut data = Vec::new();
    let k = key(28);
    save_layoutidx(&mut dir, &mut data, true, 0, 1, &k, &[page(0)], &[line(1)], 1);
    assert!(load_layoutidx(&dir, &data[..23], true, 0, 1, &k).is_none());
    dir[HEADER_SIZE + 8] = 13;
    assert!(load_layoutidx(&dir, &data, true, 0, 1, &k).is_none());
}
