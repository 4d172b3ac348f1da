use plump_apps::book_record::{BookRecord, Position, ReadingStats, BUF_LEN, NO_ANCHOR};
use plump_apps::digits::{decimal_digits, parse_hex, parse_u32, push_hex};
use plump_apps::hash::fnv1a;
use plump_apps::markup::Anchor;
use plump_apps::recent::{self, RecentRecord};

fn encode_recent(rec: &RecentRecord<'_>) -> Vec<u8> {
    let mut buf = [0u8; recent::BUF_LEN];
    let n = rec.encode(&mut buf);
    buf[..n].to_vec()
}

#[test]
fn recent_golden_bytes() {
    let rec = RecentRecord {
        filename: b"BOOK.EPB",
        title: b"Moby Dick",
        author: b"Melville",
        progress: 42,
    };
    assert_eq!(encode_recent(&rec), b"BOOK.EPB\0Moby Dick\0Melville\0\x2a");
    assert_eq!(encode_recent(&RecentRecord::empty()), b"\0\0\0\0");
    let rec = RecentRecord { filename: b"A.TXT", title: b"A", author: b"", progress: 100 };
    assert_eq!(encode_recent(&rec), b"A.TXT\0A\0\0\x64");
}

#[test]
fn recent_fields_are_cut_at_their_caps() {
    let rec = RecentRecord {
        filename: b"0123456789012345678901234567890123456789",
        title: b"",
        author: b"",
        progress: 0,
    };
    assert_eq!(encode_recent(&rec), b"01234567890123456789012345678901\0\0\0\0");
    let long = [b'x'; 100];
    let rec = RecentRecord { filename: &long, title: &long, author: &long, progress: 7 };
    let bytes = encode_recent(&rec);
    assert_eq!(bytes.len(), 32 + 64 + 64 + 3 + 1);
    assert_eq!(*bytes.last().unwrap(), 7);
}

#[test]
fn recent_reads_back_what_was_written() {
    let rec = RecentRecord {
        filename: b"BOOK.EPB",
        title: b"Moby Dick",
        author: b"Melville",
        progress: 42,
    };
    let bytes = encode_recent(&rec);
    let back = RecentRecord::decode(&bytes);
    assert_eq!(back.filename, b"BOOK.EPB");
    assert_eq!(back.title, b"Moby Dick");
    assert_eq!(back.author, b"Melville");
    assert_eq!(back.progress, 42);
}

#[test]
fn recent_tolerates_a_cut_tail() {
    let back = RecentRecord::decode(b"A.TXT\0Tit");
    assert_eq!(back.filename, b"A.TXT");
    assert_eq!(back.title, b"Tit");
    assert_eq!(back.author, b"");
    assert_eq!(back.progress, 0);
    let back = RecentRecord::decode(b"A.TXT\0T\0\0");
    assert_eq!(back.progress, 0);
    let back = RecentRecord::decode(b"");
    assert_eq!(back.filename, b"");
}

fn sample() -> BookRecord {
    BookRecord {
        stats: ReadingStats { pages: 12, time_secs: 3600, sessions: 4 },
        pos: Some(Position {
            archive_size: 123456,
            chapter: 7,
            byte_offset: 4096,
            content_fmt: 2,
            para: 31,
            word: 5,
            layout_key: 0xDEAD_BEEF,
            page: 9,
            chapter_no: 6,
            chapter_count: 40,
            progress_pct: 17,
            font_idx: 2,
        }),
        seq: 88,
    }
}

#[test]
fn book_record_text_is_pinned() {
    let rec = BookRecord {
        stats: ReadingStats { pages: 1, time_secs: 20, sessions: 300 },
        pos: None,
        seq: 4,
    };
    let body = b"pages=1\ntime=20\nsessions=300\nseq=4\n";
    let mut want = body.to_vec();
    want.extend_from_slice(format!("sum={:08X}\n", fnv1a(body)).as_bytes());
    assert_eq!(rec.save(), want);

    let full = String::from_utf8(sample().save()).unwrap();
    assert!(full.starts_with(
        "pages=12\ntime=3600\nsessions=4\nseq=88\nsize=123456\nch=7\noff=4096\nfmt=2\n\
         para=31\nword=5\nlkey=3735928559\npage=9\nchno=6\nchn=40\npct=17\nfont=2\nsum="
    ));
}

#[test]
fn book_record_reads_back_what_was_written() {
    let rec = sample();
    assert_eq!(BookRecord::parse(&rec.save()), rec);
    let mut buf = [0u8; BUF_LEN];
    let n = rec.encode(&mut buf);
    assert_eq!(BookRecord::parse(&buf[..n]), rec);
}

#[test]
fn book_record_without_a_whole_anchor_has_none() {
    let mut rec = sample();
    if let Some(p) = rec.pos.as_mut() {
        p.word = NO_ANCHOR;
    }
    assert_eq!(rec.pos.unwrap().anchor(), None);
    let back = BookRecord::parse(&rec.save());
    assert_eq!(back.pos.unwrap().para, NO_ANCHOR);
    assert_eq!(back.pos.unwrap().word, NO_ANCHOR);
    assert_eq!(sample().pos.unwrap().anchor(), Some(Anchor { para: 31, word: 5 }));
}

#[test]
fn book_record_loses_its_position_when_torn() {
    let rec = sample();
    let bytes = rec.save();
    for n in 0..bytes.len() - 1 {
        let got = BookRecord::parse(&bytes[..n]);
        assert!(got.pos.is_none() || got.pos == rec.pos, "cut at {}", n);
    }
    // the stats are there as soon as their lines are
    let got = BookRecord::parse(&bytes[..40]);
    assert_eq!(got.stats, rec.stats);
    assert_eq!(got.pos, None);
}

#[test]
fn book_record_with_a_wrong_sum_has_no_position() {
    let mut bytes = sample().save();
    let at = bytes.windows(4).position(|w| w == b"off=").unwrap();
    bytes[at + 4] = b'9';
    let got = BookRecord::parse(&bytes);
    assert_eq!(got.pos, None);
    assert_eq!(got.stats.pages, 12);
    assert_eq!(got.seq, 88);
}

#[test]
fn book_record_ignores_what_it_does_not_know() {
    let got = BookRecord::parse(b"pages=3 \r\nnothing\nzzz=9\ntime= 4x5\n");
    assert_eq!(got.stats.pages, 3);
    assert_eq!(got.stats.time_secs, 45);
    assert_eq!(got.pos, None);
}

#[test]
fn book_record_clamps_the_percentage() {
    let body = b"size=1\npct=250\nch=65537\n";
    let mut data = body.to_vec();
    data.extend_from_slice(format!("sum={:08x}\n", fnv1a(body)).as_bytes());
    let p = BookRecord::parse(&data).pos.unwrap();
    assert_eq!(p.progress_pct, 100);
    assert_eq!(p.chapter, 1);
    assert_eq!(p.para, NO_ANCHOR);
}

#[test]
fn book_record_load_needs_bytes() {
    assert_eq!(BookRecord::load(None), None);
    assert_eq!(BookRecord::load(Some(b"")), None);
    assert_eq!(BookRecord::load(Some(b"pages=2\n")).unwrap().stats.pages, 2);
}

#[test]
fn numbers_in_digits() {
    assert_eq!(decimal_digits(0), b"0");
    assert_eq!(decimal_digits(4294967295), b"4294967295");
    assert_eq!(parse_u32(b"007"), 7);
    assert_eq!(parse_u32(b"99999999999"), u32::MAX);
    assert_eq!(parse_hex(b"DEADbeef"), 0xDEAD_BEEF);
    assert_eq!(parse_hex(b"1DEADBEEF"), 0xDEAD_BEEF);
    let mut out = Vec::new();
    push_hex(&mut out, 0x2A, 8);
    assert_eq!(out, b"0000002A");
}

#[test]
fn fnv_known_values() {
    assert_eq!(fnv1a(b""), 0x811c9dc5);
    assert_eq!(fnv1a(b"a"), 0xe40c292c);
    assert_eq!(fnv1a(b"foobar"), 0xbf9cf968);
}
