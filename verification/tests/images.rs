use plump_apps::hash::fnv1a;
use plump_apps::layout::scan::{IMG_REF, MARKER};
use plump_apps::reader::image_scan::{
    nearby_chapters, scan_chapter_for_image, CursorNext, ImageCounts, ImageCursor, ImageScan,
    PeekCache, ScanResult, ScanWork,
};
use plump_apps::reader::images::{
    find_image, image_format, img_budget, img_cache_name, is_fullscreen,
    is_image_ext_jpeg, is_image_ext_png, load_cached_image, page_image, page_image_format, page_image_budget,
    page_images, peek_cached_image_size, peek_source_dimensions, prescan_image_heights,
    save_cached_image, Format, ImageFileError, ImageSize, ImgRetry, Ladder, Peeked,
    Retry,
};
use plump_apps::reader::page_image::{DecodeEnd, ImageWork, PageDecode};
use plump_apps::reader::span::LineSpan;

fn record(alt: &[u8], path: &[u8]) -> Vec<u8> {
    let mut v = vec![MARKER, IMG_REF, 0, 0, 0, 0, 0, alt.len() as u8, path.len() as u8];
    v.extend_from_slice(alt);
    v.extend_from_slice(path);
    v
}

#[test]
fn finds_records_with_a_path() {
    let mut buf = b"text ".to_vec();
    buf.extend(record(b"", b""));
    buf.extend(record(b"alt", b"a.png"));
    let img = find_image(&buf, 0).unwrap();
    assert_eq!(img.start, 14);
    assert_eq!(&buf[img.path_start as usize..img.end as usize], b"a.png");
    assert!(find_image(&buf, 15).is_none());
    assert_eq!(page_images(&buf).len(), 1);
}

#[test]
fn looks_at_eight_images_of_a_page() {
    let mut buf = Vec::new();
    for _ in 0..10 {
        buf.extend(record(b"", b"x"));
    }
    assert_eq!(page_images(&buf).len(), 8);
}

#[test]
fn reserves_known_heights_up_to_the_inline_limit() {
    let h = prescan_image_heights(
        &[Peeked::Height(100), Peeked::Height(900), Peeked::Unknown, Peeked::BadPath],
        700,
    );
    assert_eq!(h, vec![100, 280, 280, 350]);
}

#[test]
fn cache_names_are_hashes() {
    assert_eq!(img_cache_name(0xDEAD_BEEF), b"DEADBEEF.BIN");
    assert_eq!(img_cache_name(0x2A), b"0000002A.BIN");
}

#[test]
fn extensions_in_either_case() {
    assert!(is_image_ext_jpeg(b"a.jpg") && is_image_ext_jpeg(b"a.JPEG"));
    assert!(is_image_ext_png(b"a.Png"));
    assert!(!is_image_ext_png(b"png") && !is_image_ext_jpeg(b"a.gif"));
}

#[test]
fn format_by_name_or_first_bytes() {
    assert_eq!(image_format(b"a.jpg", None), Some(Format::Jpeg));
    assert_eq!(image_format(b"a.png", Some(&[0xFF, 0xD8])), Some(Format::Png));
    assert_eq!(image_format(b"a", Some(&[0xFF, 0xD8])), Some(Format::Jpeg));
    let png = [137, 80, 78, 71, 13, 10, 26, 10];
    assert_eq!(image_format(b"a", Some(&png)), Some(Format::Png));
    assert_eq!(image_format(b"a", Some(&png[..7])), None);
    assert_eq!(image_format(b"a", None), None);
}

#[test]
fn cached_images_come_back() {
    let size = ImageSize { width: 300, height: 7 };
    let head = save_cached_image(size);
    assert_eq!(head, [44, 1, 7, 0]);
    let bytes = 38 * 7;
    assert_eq!(load_cached_image(4 + bytes as u32, &head), Ok((size, bytes)));
    assert_eq!(load_cached_image(5 + bytes as u32, &head), Err(ImageFileError::SizeMismatch));
    assert_eq!(load_cached_image(4, &head), Err(ImageFileError::TooSmall));
    assert_eq!(load_cached_image(9, &[0, 0, 7, 0]), Err(ImageFileError::ZeroDimensions));
    assert_eq!(peek_cached_image_size(9, &head), Some(size));
    assert_eq!(peek_cached_image_size(4, &head), None);
    assert_eq!(peek_cached_image_size(9, &[1, 0, 0, 0]), None);
}

#[test]
fn decoded_height_fits() {
    let size = |width, height| ImageSize { width, height };
    assert_eq!(peek_source_dimensions(size(1600, 2400), 400, 700), Some(600));
    assert_eq!(peek_source_dimensions(size(100, 100), 400, 700), Some(100));
    assert_eq!(peek_source_dimensions(size(0, 100), 400, 700), None);
    assert_eq!(peek_source_dimensions(size(401, 700), 400, 700), Some(350));
}

#[test]
fn budget_halves_for_each_retry() {
    let r = |steps| Some(ImgRetry { path_hash: 5, steps });
    assert_eq!(img_budget(None, 5, 464, 700), (464, 700));
    assert_eq!(img_budget(r(1), 5, 464, 700), (232, 350));
    assert_eq!(img_budget(r(2), 5, 464, 700), (116, 175));
    assert_eq!(img_budget(r(4), 5, 464, 700), (464, 700));
    assert_eq!(img_budget(r(1), 6, 464, 700), (464, 700));
}

#[test]
fn decode_gives_way_to_memory() {
    let mut l = Ladder::new(464, 700);
    assert_eq!(l.oom_retry(true, true), Retry::Shed);
    assert_eq!((l.w, l.h), (464, 700));
    assert_eq!(l.oom_retry(true, false), Retry::Smaller);
    assert_eq!((l.w, l.h), (232, 350));
    assert_eq!(l.oom_retry(true, true), Retry::Smaller);
    assert_eq!((l.w, l.h), (116, 175));
    assert_eq!(l.oom_retry(true, false), Retry::GiveUp);
    let mut l = Ladder::new(464, 700);
    assert_eq!(l.oom_retry(false, true), Retry::GiveUp);
    let mut l = Ladder::new(90, 700);
    assert_eq!(l.oom_retry(true, false), Retry::GiveUp);
}

fn span(start: u16, len: u16, flags: u8) -> LineSpan {
    LineSpan { start, len, flags, indent: 0, align: 0, extra: 0 }
}

#[test]
fn an_image_alone_takes_the_page() {
    let img = span(0, 12, LineSpan::FLAG_IMAGE);
    let fill = span(0, 0, LineSpan::FLAG_IMAGE);
    let text = span(12, 4, 0);
    assert!(is_fullscreen(&[img, fill]));
    assert!(!is_fullscreen(&[img, text]));
    assert!(!is_fullscreen(&[fill]));
    assert!(is_fullscreen(&[img, span(0, 0, 0)]));
    assert_eq!(page_image_budget(true, 700), 700);
    assert_eq!(page_image_budget(false, 700), 280);
}

#[test]
fn the_first_origin_names_the_image() {
    let mut buf = b"hi ".to_vec();
    buf.extend(record(b"", b"pic.jpg"));
    let lines = [span(0, 2, 0), span(3, 16, LineSpan::FLAG_IMAGE)];
    let img = page_image(&lines, &buf).unwrap();
    assert_eq!(&buf[img.path_start as usize..img.end as usize], b"pic.jpg");
    assert!(page_image(&lines, &buf[..10]).is_none());
    assert!(page_image(&lines[..1], &buf).is_none());
}

fn page_with(path: &[u8]) -> (Vec<u8>, [LineSpan; 2]) {
    let mut buf = b"hi ".to_vec();
    buf.extend(record(b"", path));
    let n = buf.len() as u16 - 3;
    (buf, [span(0, 2, 0), span(3, n, LineSpan::FLAG_IMAGE)])
}

#[test]
fn a_cached_image_is_shown_if_it_fits() {
    let (buf, lines) = page_with(b"pic.jpg");
    let (mut d, w) = PageDecode::decode_page_images(true, &lines, &buf, 464, 700, true);
    assert_eq!(w, ImageWork::Resolve { start: 12, len: 7 });
    assert_eq!((d.fullscreen, d.budget_h), (false, 280));
    let w = d.after_resolve(Some(b"OPS/pic.jpg".to_vec()));
    assert_eq!(w, ImageWork::LookUp { hash: fnv1a(b"OPS/pic.jpg") });
    assert_eq!(d.after_lookup(Some(280)), ImageWork::ShowCached);
    // a page that is to be shown at once does not wait
    assert_eq!(d.after_lookup(Some(281)), ImageWork::Nothing);
    d.defer = false;
    assert_eq!(d.after_lookup(Some(281)), ImageWork::Find);
    let (_, w) = PageDecode::decode_page_images(false, &lines, &buf, 464, 700, true);
    assert_eq!(w, ImageWork::Nothing);
    let (buf, lines) = page_with(b"");
    let (mut d, w) = PageDecode::decode_page_images(true, &lines, &buf, 464, 700, true);
    assert_eq!(w, ImageWork::Nothing);
    assert_eq!(d.after_resolve(None), ImageWork::Nothing);
}

#[test]
fn no_more_than_128_bytes_of_a_path_are_read() {
    for (n, len) in [(127, 127), (128, 128), (129, 128), (255, 128)] {
        let (buf, lines) = page_with(&vec![b'p'; n]);
        let (_, w) = PageDecode::decode_page_images(true, &lines, &buf, 464, 700, true);
        assert_eq!(w, ImageWork::Resolve { start: 12, len });
    }
}

#[test]
fn the_path_of_a_page_image_ends_in_one_case() {
    for path in [&b"a.jpg"[..], b"a.jpeg", b"a.JPG", b"a.JPEG", b".jpg"] {
        assert_eq!(page_image_format(path, None), Some(Format::Jpeg));
    }
    for path in [&b"a.png"[..], b"a.PNG"] {
        assert_eq!(page_image_format(path, None), Some(Format::Png));
    }
    for path in [&b"a.Jpg"[..], b"a.Png", b"png", b"", b"a.pngx"] {
        assert_eq!(page_image_format(path, None), None);
        assert_eq!(page_image_format(path, Some(&[0xFF, 0xD8])), Some(Format::Jpeg));
    }
}

#[test]
fn a_page_image_is_decoded_as_memory_allows() {
    let (buf, lines) = page_with(b"pic.jpg");
    let (mut d, _) = PageDecode::decode_page_images(true, &lines[1..], &buf, 464, 700, false);
    assert!(d.fullscreen);
    d.after_resolve(Some(b"pic.jpg".to_vec()));
    let decode = |w, h, shed| ImageWork::Decode { format: Format::Jpeg, w, h, shed };
    assert_eq!(d.after_find(None), ImageWork::Nothing);
    assert_eq!(d.after_find(Some(false)), decode(464, 700, false));
    assert_eq!(d.after_decode(DecodeEnd::OutOfMemory, true), decode(464, 700, true));
    assert_eq!(d.after_decode(DecodeEnd::OutOfMemory, false), decode(232, 350, false));
    assert_eq!(d.after_decode(DecodeEnd::OutOfMemory, false), decode(116, 175, false));
    assert_eq!(d.after_decode(DecodeEnd::OutOfMemory, false), ImageWork::Nothing);
    assert_eq!(d.after_decode(DecodeEnd::Failed, true), ImageWork::Nothing);
    assert_eq!(d.after_decode(DecodeEnd::Done, true), ImageWork::ShowDecoded);
}

#[test]
fn the_format_of_a_nameless_image_is_read() {
    let (buf, lines) = page_with(b"pic");
    let (mut d, _) = PageDecode::decode_page_images(true, &lines, &buf, 464, 700, false);
    d.after_resolve(Some(b"pic".to_vec()));
    assert_eq!(d.after_find(Some(false)), ImageWork::Nothing);
    assert_eq!(d.after_find(Some(true)), ImageWork::ReadHead);
    assert_eq!(d.after_head(b"GIF89a"), ImageWork::Nothing);
    let w = d.after_head(&[137, 80, 78, 71, 13, 10, 26, 10]);
    assert_eq!(w, ImageWork::Decode { format: Format::Png, w: 464, h: 280, shed: false });
}

fn counts() -> ImageCounts {
    ImageCounts { found: 0, cached: 0, skip_large: false, large_fails: 0 }
}

#[test]
fn scan_walks_from_read_to_dispatch() {
    let mut chunk = b"abc".to_vec();
    chunk.extend(record(b"", b"pic.png"));
    chunk.extend_from_slice(b"tail");
    let size = chunk.len() as u32;
    let done = vec![true];
    let (mut s, w) = scan_chapter_for_image(0, 1, &done, size, 0);
    assert_eq!(w, ScanWork::Read { at: 0, len: size });
    assert_eq!(s.after_read(&chunk), ScanWork::Resolve { start: 12, len: 7 });
    let path = b"OEBPS/pic.png";
    assert_eq!(
        s.after_resolve(&chunk, Some(path)),
        ScanWork::CheckCache { path_hash: fnv1a(path) }
    );
    let mut c = counts();
    let step = s.after_cache_check(&chunk, &mut c, path, false);
    assert_eq!(step.work, ScanWork::FindInZip { format: Format::Png });
    assert_eq!(s.after_zip(&chunk, &mut c, Some(100)).work, ScanWork::AskWorker);
    assert_eq!(s.after_ask(true), ScanWork::Extract);
    assert_eq!(s.after_extract(&chunk, &mut c, true).work, ScanWork::Submit);
    assert_eq!(
        s.after_submit(&mut c, true),
        ScanWork::Done(ScanResult::Dispatched { resume_offset: 19 })
    );
    assert_eq!((c.found, c.cached), (1, 0));
    assert_eq!(
        s.after_submit(&mut c, false),
        ScanWork::Done(ScanResult::Dispatched { resume_offset: 3 })
    );
    assert_eq!(
        s.after_ask(false),
        ScanWork::Done(ScanResult::Dispatched { resume_offset: 3 })
    );
}

#[test]
fn scan_passes_what_needs_no_work() {
    let chunk = record(b"", b"pic.gif");
    let n = chunk.len() as u32;
    let none = ScanWork::Done(ScanResult::NoneFound);
    let start = || {
        let (mut s, _) = ImageScan::new(n, 0);
        s.after_read(&chunk);
        s
    };
    let mut c = counts();
    let mut s = start();
    let step = s.after_cache_check(&chunk, &mut c, b"pic.gif", false);
    assert!(step.mark);
    assert_eq!(step.work, none);
    assert_eq!((c.found, c.cached), (1, 1));
    let mut s = start();
    let step = s.after_cache_check(&chunk, &mut c, b"pic.gif", true);
    assert!(!step.mark);
    assert_eq!((c.found, c.cached), (2, 2));
    let mut s = start();
    assert_eq!(s.after_zip(&chunk, &mut c, None).work, none);
    let mut s = start();
    assert_eq!(s.after_resolve(&chunk, None), none);
    let mut s = start();
    assert!(s.after_extract(&chunk, &mut c, false).mark);
}

#[test]
fn large_images_are_given_up_after_two_failures() {
    let chunk = record(b"", b"pic.jpg");
    let n = chunk.len() as u32;
    let (mut s, _) = ImageScan::new(n, 0);
    s.after_read(&chunk);
    let mut c = counts();
    assert_eq!(s.after_zip(&chunk, &mut c, Some(40000)).work, ScanWork::DecodeStreaming);
    let step = s.after_decode(&mut c, false);
    assert!(step.mark && !c.skip_large);
    assert_eq!(step.work, ScanWork::Done(ScanResult::DecodedInline { resume_offset: n }));
    s.after_decode(&mut c, true);
    s.after_decode(&mut c, false);
    assert!(!c.skip_large);
    s.after_decode(&mut c, false);
    assert!(c.skip_large);
    let step = s.after_zip(&chunk, &mut c, Some(40000));
    assert!(step.mark);
}

#[test]
fn chunks_overlap() {
    let chunk = vec![b'x'; 8192];
    let (mut s, w) = ImageScan::new(20000, 0);
    assert_eq!(w, ScanWork::Read { at: 0, len: 8192 });
    assert_eq!(s.after_read(&chunk), ScanWork::Read { at: 7936, len: 8192 });
    assert_eq!(s.after_read(&chunk), ScanWork::Read { at: 15872, len: 4128 });
    assert_eq!(s.after_read(&chunk[..4128]), ScanWork::Done(ScanResult::NoneFound));
    let (mut s, _) = ImageScan::new(20000, 0);
    assert_eq!(s.after_read(&[]), ScanWork::Done(ScanResult::NoneFound));
}

#[test]
fn only_cached_chapters_are_scanned() {
    let done = vec![true, false];
    let none = ScanWork::Done(ScanResult::NoneFound);
    assert_eq!(scan_chapter_for_image(1, 2, &done, 10, 0).1, none);
    assert_eq!(scan_chapter_for_image(2, 2, &done, 10, 0).1, none);
    assert_eq!(scan_chapter_for_image(0, 2, &done, 0, 0).1, none);
    assert_eq!(nearby_chapters(0, 2, &done), vec![0, 0, 0]);
    let all = vec![true; 6];
    assert_eq!(nearby_chapters(3, 6, &all), vec![3, 4, 2, 5, 1]);
    assert_eq!(nearby_chapters(5, 6, &all), vec![5, 4, 3]);
}

#[test]
fn the_search_goes_round_once() {
    let mut c = ImageCursor { ch: 2, offset: 0, wrapped: false };
    let mut seen = Vec::new();
    loop {
        match c.find_next(4, 2) {
            CursorNext::Scan { ch, .. } => {
                seen.push(ch);
                c.after_scan(ScanResult::NoneFound);
            }
            CursorNext::Wrapped => {}
            CursorNext::AllScanned => break,
        }
    }
    assert_eq!(seen, vec![2, 3, 0, 1]);
    let mut c = ImageCursor { ch: 0, offset: 0, wrapped: false };
    c.after_scan(ScanResult::Dispatched { resume_offset: 9 });
    assert_eq!(c.find_next(1, 0), CursorNext::Scan { ch: 0, start: 9 });
    c.after_scan(ScanResult::DecodedInline { resume_offset: 12 });
    assert_eq!(c.offset, 12);
}

#[test]
fn peeked_heights_are_kept() {
    let mut c = PeekCache::new();
    assert_eq!(c.lookup(1), None);
    c.insert(1, 50);
    c.insert(2, 60);
    assert_eq!(c.lookup(1), Some(50));
    for k in 3..40 {
        c.insert(k, 1);
    }
    assert_eq!(c.lookup(24), Some(1));
    assert_eq!(c.lookup(25), None);
    assert_eq!(c.lookup(2), Some(60));
}
