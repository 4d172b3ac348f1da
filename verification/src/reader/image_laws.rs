//! What looking for images, naming them and choosing their size are for.

use crate::layout::scan;
use crate::reader::image_scan;
use crate::reader::image_scan::{
    CursorNext, ImageCounts, ImageCursor, ImageScan, ScanResult, ScanStep, ScanWork,
};
use crate::reader::images;
use crate::reader::images::{Format, ImageFileError, ImageSize, ImgRetry, Ladder, Peeked, Retry};
use crate::reader::page_image;
use crate::reader::page_image::{DecodeEnd, ImageWork, PageDecode};
use crate::reader::span::LineSpan;
use vstd::prelude::*;

verus! {

// ── sizes ─────────────────────────────────────────────────────────

/// An image among text is given no more than two fifths of the text area: its own
/// height if that is known and less, and 350 pixels if it is not.
pub proof fn law_inline_images_take_two_fifths(h: u16, text_area_h: u16)
    ensures
        ({
            let cap = images::height_of(Peeked::Height(65535), text_area_h);
            &&& 5 * cap <= 2 * text_area_h < 5 * cap + 5
            &&& h <= cap ==> images::height_of(Peeked::Height(h), text_area_h) == h
            &&& h > cap ==> images::height_of(Peeked::Height(h), text_area_h) == cap
            &&& cap >= 350 ==> images::height_of(Peeked::Unknown, text_area_h) == 350
            &&& cap < 350 ==> images::height_of(Peeked::Unknown, text_area_h) == cap
            &&& images::height_of(Peeked::BadPath, text_area_h) == 350
        }),
{
}

/// An image alone on its page may have all of the text area.
pub proof fn law_lone_images_take_the_page(text_area_h: u16)
    ensures
        page_image::height_for(true, text_area_h) == text_area_h,
        ({
            let h = page_image::height_for(false, text_area_h) as int;
            5 * h <= 2 * text_area_h < 5 * h + 5
        }),
{
}

/// A decoder divides the sides of an image by the smallest number that makes it fit:
/// one that fits is left as it is, and one at most twice as large is halved.
pub proof fn law_decoders_divide_evenly(src: ImageSize, max_w: u16, max_h: u16)
    requires
        0 < src.width,
        0 < src.height,
        0 < max_w,
        0 < max_h,
    ensures
        ({
            let h = images::scaled_height(src, max_w, max_h);
            &&& src.width <= max_w && src.height <= max_h ==> h == src.height
            &&& src.width <= 2 * max_w && src.height <= 2 * max_h && (src.width > max_w || src.height
                > max_h) ==> 2 * h <= src.height < 2 * h + 2
            &&& 0 <= h <= src.height
        }),
{
    let sw = (src.width + max_w - 1) / (max_w as int);
    let sh = (src.height + max_h - 1) / (max_h as int);
    lemma_ups(src.width as int, max_w as int);
    lemma_ups(src.height as int, max_h as int);
    let d = if sw >= sh {
        sw
    } else {
        sh
    };
    assert(d >= 1);
    let h = src.height as int / d;
    assert(0 <= h <= src.height && (d == 1 ==> h == src.height) && (d == 2 ==> 2 * h <= src.height
        < 2 * h + 2)) by (nonlinear_arith)
        requires
            h == src.height as int / d,
            d >= 1,
            src.height >= 0,
    ;
}

proof fn lemma_ups(a: int, b: int)
    requires
        0 < a,
        0 < b,
    ensures
        (a + b - 1) / b >= 1,
        a <= b ==> (a + b - 1) / b == 1,
        b < a <= 2 * b ==> (a + b - 1) / b == 2,
{
    let q = (a + b - 1) / b;
    assert(q >= 1 && (a <= b ==> q == 1) && (b < a <= 2 * b ==> q == 2)) by (nonlinear_arith)
        requires
            q == (a + b - 1) / b,
            0 < a,
            0 < b,
    ;
}

/// A decode that ran out of memory is tried again once the chapter's text is
/// released, and then at half the size, twice and no smaller than 48 pixels; any
/// other failure, and a failure behind all that, gives up.
pub proof fn law_decodes_give_way_to_memory(w: u16, h: u16)
    requires
        w >= 192,
        h >= 192,
    ensures
        ({
            let l0 = Ladder { w, h, steps: 0, shed: false };
            let (l1, r1) = images::after_failure(l0, true, true);
            let (l2, r2) = images::after_failure(l1, true, false);
            let (l3, r3) = images::after_failure(l2, true, false);
            let (_, r4) = images::after_failure(l3, true, false);
            &&& r1 == Retry::Shed && l1.w == w && l1.h == h
            &&& r2 == Retry::Smaller && l2.w == w / 2 && l2.h == h / 2
            &&& r3 == Retry::Smaller && l3.w == w / 4 && l3.h == h / 4
            &&& r4 == Retry::GiveUp
            &&& images::after_failure(l0, false, true).1 == Retry::GiveUp
            &&& images::after_failure(l0, true, false).1 == Retry::Smaller
        }),
        images::after_failure(Ladder { w: 95, h, steps: 0, shed: true }, true, false).1
            == Retry::GiveUp,
        images::after_failure(Ladder { w, h: 95, steps: 0, shed: true }, true, false).1
            == Retry::GiveUp,
{
}

/// The size that an image is asked for in the background is halved for each time it
/// failed, and only for the image that failed; it is never below 48 pixels.
pub proof fn law_failed_images_are_asked_for_smaller(hash: u32, other: u32, w: u16, h: u16)
    requires
        w >= 192,
        h >= 192,
        other != hash,
    ensures
        images::budget_of(None, hash, w, h) == (w, h),
        images::budget_of(Some(ImgRetry { path_hash: other, steps: 1 }), hash, w, h) == (w, h),
        images::budget_of(Some(ImgRetry { path_hash: hash, steps: 0 }), hash, w, h) == (w, h),
        images::budget_of(Some(ImgRetry { path_hash: hash, steps: 1 }), hash, w, h) == (
            (w / 2) as u16,
            (h / 2) as u16,
        ),
        images::budget_of(Some(ImgRetry { path_hash: hash, steps: 2 }), hash, w, h) == (
            (w / 4) as u16,
            (h / 4) as u16,
        ),
        images::budget_of(Some(ImgRetry { path_hash: hash, steps: 1 }), hash, 95, h) == (95u16, h),
{
    reveal_with_fuel(images::halved, 4);
}

// ── formats ───────────────────────────────────────────────────────

/// `path` ends in a dot and three letters.
pub open spec fn ends_dotted(path: Seq<u8>, a: u8, b: u8, c: u8) -> bool {
    let n = path.len() as int;
    n >= 4 && path[n - 4] == 0x2E && path[n - 3] == a && path[n - 2] == b && path[n - 1] == c
}

/// The end of a path tells the format, in lower and in upper case, whatever the
/// first bytes are; where it tells nothing the first bytes do.
pub proof fn law_formats_are_told(path: Seq<u8>, head: Option<Seq<u8>>)
    ensures
        ends_dotted(path, 0x6A, 0x70, 0x67) || ends_dotted(path, 0x4A, 0x50, 0x47) ==> images::format_of(
            path,
            head,
        ) == Some(Format::Jpeg) && images::page_format_of(path, head) == Some(Format::Jpeg),
        ends_dotted(path, 0x70, 0x6E, 0x67) || ends_dotted(path, 0x50, 0x4E, 0x47) ==> images::format_of(
            path,
            head,
        ) == Some(Format::Png) && images::page_format_of(path, head) == Some(Format::Png),
        path.len() < 4 ==> images::format_of(path, head) == images::format_by_head(head)
            && images::page_format_of(path, head) == images::format_by_head(head),
        head matches Some(h) && h.len() >= 2 && h[0] == 0xFF && h[1] == 0xD8 ==> images::format_by_head(
            head,
        ) == Some(Format::Jpeg),
        head matches Some(h) && h.len() >= 8 && h.take(8) == seq![
            137u8,
            80,
            78,
            71,
            13,
            10,
            26,
            10,
        ] ==> images::format_by_head(head) == Some(Format::Png),
        head is None || head->0.len() < 2 ==> images::format_by_head(head) is None,
{
    let n = path.len() as int;
    if ends_dotted(path, 0x6A, 0x70, 0x67) || ends_dotted(path, 0x4A, 0x50, 0x47) {
        assert(images::has_ext(path, images::jpg()));
        assert(path.skip(n - 4) =~= seq![0x2Eu8, 0x6A, 0x70, 0x67] || path.skip(n - 4) =~= seq![
            0x2Eu8,
            0x4A,
            0x50,
            0x47,
        ]);
    }
    if ends_dotted(path, 0x70, 0x6E, 0x67) || ends_dotted(path, 0x50, 0x4E, 0x47) {
        assert(images::has_ext(path, images::png()));
        assert(images::lower(path[n - 3]) == 0x70);
        if images::has_ext(path, images::jpg()) {
            assert(images::lower(path[path.len() - 3 + 0]) == images::jpg()[0]);
        }
        if images::has_ext(path, images::jpeg()) {
            assert(images::lower(path[path.len() - 4 + 0]) == images::jpeg()[0]);
        }
        assert(path.skip(n - 4) =~= seq![0x2Eu8, 0x70, 0x6E, 0x67] || path.skip(n - 4) =~= seq![
            0x2Eu8,
            0x50,
            0x4E,
            0x47,
        ]);
        lemma_tail(path, seq![0x2Eu8, 0x6A, 0x70, 0x67]);
        lemma_tail(path, seq![0x2Eu8, 0x6A, 0x70, 0x65, 0x67]);
        lemma_tail(path, seq![0x2Eu8, 0x4A, 0x50, 0x47]);
        lemma_tail(path, seq![0x2Eu8, 0x4A, 0x50, 0x45, 0x47]);
    }
    if path.len() < 4 {
        lemma_tail(path, seq![0x2Eu8, 0x6A, 0x70, 0x67]);
    }
    if let Some(h) = head {
        if h.len() >= 8 {
            let t = h.take(8);
            assert(t[0] == h[0] && t[1] == h[1] && t[2] == h[2] && t[3] == h[3] && t[4] == h[4]
                && t[5] == h[5] && t[6] == h[6] && t[7] == h[7]);
        }
    }
}

proof fn lemma_tail(path: Seq<u8>, tail: Seq<u8>)
    requires
        tail.len() >= 2,
    ensures
        images::ends_in(path, tail) ==> path.len() >= tail.len() && path[path.len() - 2]
            == tail[tail.len() - 2] && path[path.len() - 1] == tail[tail.len() - 1],
{
    if images::ends_in(path, tail) {
        let t = path.skip(path.len() - tail.len());
        assert(t[tail.len() - 2] == path[path.len() - 2]);
        assert(t[tail.len() - 1] == path[path.len() - 1]);
    }
}

// ── looking through chapters ──────────────────────────────────────

/// A chapter is read in chunks of 8192 bytes, or what is left of it, from where the
/// search stands to its end.
pub proof fn law_chapters_are_read_in_chunks(size: u32, at: int)
    requires
        0 <= at <= u32::MAX,
    ensures
        at >= size ==> image_scan::chunk_work(size, at) == ScanWork::Done(ScanResult::NoneFound),
        at < size ==> (image_scan::chunk_work(size, at) matches ScanWork::Read { at: from, len }
            && from == at && at + len <= size && (len == 8192 || at + len == size) && len <= 8192),
{
}

/// The next image of a chunk is the first record from where the search stands, and
/// its path is what its record says, up to 128 bytes.
pub proof fn law_the_first_image_is_looked_at(s: ImageScan, chunk: Seq<u8>, p: int)
    requires
        chunk.len() <= 8192,
        0 <= s.i <= p < chunk.len(),
        images::record_at(chunk, p),
        forall|q: int| s.i <= q < p ==> !(#[trigger] images::record_at(chunk, q)),
    ensures
        ({
            let (after, w) = image_scan::searched(s, chunk);
            let img = scan::image_at(chunk, p)->0;
            &&& after.img_start == p
            &&& after.img_end == img.end
            &&& w matches ScanWork::Resolve { start, len } && start == img.path_start && len == (if img.path_len
                < 128 {
                img.path_len as int
            } else {
                128
            })
            &&& image_scan::passed(after, chunk) == image_scan::searched(
                ImageScan { i: after.img_end, ..after },
                chunk,
            )
        }),
{
    lemma_next_record(chunk, s.i as int, p);
}

proof fn lemma_next_record(buf: Seq<u8>, i: int, p: int)
    requires
        0 <= i <= p < buf.len(),
        images::record_at(buf, p),
        forall|q: int| i <= q < p ==> !(#[trigger] images::record_at(buf, q)),
    ensures
        images::next_record(buf, i) == p,
    decreases p - i,
{
    if i < p {
        assert(!images::record_at(buf, i));
        lemma_next_record(buf, i + 1, p);
    }
}

/// An image that needs no more work is counted as found and as cached.
pub proof fn law_settled_images_are_counted(c: ImageCounts)
    requires
        c.found < 65535,
        c.cached < 65535,
    ensures
        image_scan::settled(c) == (ImageCounts {
            found: (c.found + 1) as u16,
            cached: (c.cached + 1) as u16,
            ..c
        }),
{
}

/// Large images are given up after two failures in a row, and not before; one that is
/// decoded starts the count again.
pub proof fn law_large_images_are_given_up_after_two(c: ImageCounts)
    requires
        c.large_fails == 0,
        !c.skip_large,
    ensures
        !image_scan::decoded(c, false).skip_large,
        image_scan::decoded(image_scan::decoded(c, false), false).skip_large,
        !image_scan::decoded(
            image_scan::decoded(image_scan::decoded(c, false), true),
            false,
        ).skip_large,
        image_scan::decoded(c, true) == c,
{
}

/// Chapters are looked through from the open one to the last, and then from the first
/// up to the open one; the search goes on behind the image that it found.
pub proof fn law_chapters_are_looked_through_in_order(
    c: ImageCursor,
    spine_len: int,
    reading: u16,
    at: u32,
)
    requires
        0 <= spine_len <= 65534,
        reading <= spine_len,
        c.ch < 65535,
    ensures
        !c.wrapped && c.ch < spine_len ==> image_scan::cursor_next(c, spine_len, reading) == (
            c,
            CursorNext::Scan { ch: c.ch, start: c.offset },
        ),
        !c.wrapped && c.ch >= spine_len && reading > 0 ==> image_scan::cursor_next(
            c,
            spine_len,
            reading,
        ) == (ImageCursor { ch: 0, offset: 0, wrapped: true }, CursorNext::Wrapped),
        !c.wrapped && c.ch >= spine_len && reading == 0 ==> image_scan::cursor_next(
            c,
            spine_len,
            reading,
        ).1 == CursorNext::AllScanned,
        c.wrapped && c.ch < reading ==> image_scan::cursor_next(c, spine_len, reading) == (
            c,
            CursorNext::Scan { ch: c.ch, start: c.offset },
        ),
        c.wrapped && c.ch >= reading ==> image_scan::cursor_next(c, spine_len, reading).1
            == CursorNext::AllScanned,
        image_scan::cursor_after(c, ScanResult::NoneFound) == (ImageCursor {
            ch: (c.ch + 1) as u16,
            offset: 0,
            ..c
        }),
        image_scan::cursor_after(c, ScanResult::Dispatched { resume_offset: at }) == (ImageCursor {
            offset: at,
            ..c
        }),
        image_scan::cursor_after(c, ScanResult::DecodedInline { resume_offset: at }) == (
        ImageCursor { offset: at, ..c }),
{
}

/// Around the open chapter the next one comes before the one before, and the nearer
/// before the farther; those that are not cached are left out.
pub proof fn law_nearby_chapters_come_in_order(reading: int, spine_len: int, done: Seq<bool>)
    requires
        2 <= reading,
        reading + 2 < spine_len <= done.len(),
        forall|i: int| 0 <= i < done.len() ==> #[trigger] done[i],
    ensures
        image_scan::nearby(reading, spine_len, done, 5) == seq![
            reading,
            reading + 1,
            reading - 1,
            reading + 2,
            reading - 2,
        ],
        image_scan::nearby(reading, spine_len, done.update(reading + 1, false), 5) == seq![
            reading,
            reading - 1,
            reading + 2,
            reading - 2,
        ],
{
    reveal_with_fuel(image_scan::nearby, 6);
    assert(done[reading] && done[reading + 1] && done[reading - 1] && done[reading + 2]
        && done[reading - 2]);
    assert(image_scan::nearby(reading, spine_len, done, 5) =~= seq![
        reading,
        reading + 1,
        reading - 1,
        reading + 2,
        reading - 2,
    ]);
    assert(image_scan::nearby(reading, spine_len, done.update(reading + 1, false), 5) =~= seq![
        reading,
        reading - 1,
        reading + 2,
        reading - 2,
    ]);
}

// ── the image of a page ───────────────────────────────────────────

proof fn lemma_origin(lines: Seq<LineSpan>, i: int, k: int)
    requires
        0 <= i <= k < lines.len(),
        lines[k].image() && lines[k].len > 0,
        forall|j: int| i <= j < k ==> !((#[trigger] lines[j]).image() && lines[j].len > 0),
    ensures
        images::first_origin(lines, i) == Some(k),
    decreases k - i,
{
    if i < k {
        assert(!(lines[i].image() && lines[i].len > 0));
        lemma_origin(lines, i + 1, k);
    }
}

/// A page shows the image of its first image line that has a record; the work on it
/// begins with the record's path, no more than 128 bytes of it.
pub proof fn law_pages_show_their_first_image(lines: Seq<LineSpan>, buf: Seq<u8>, k: int)
    requires
        0 <= k < lines.len(),
        lines[k].flags / 8 % 2 == 1,
        lines[k].len > 0,
        forall|j: int|
            0 <= j < k ==> !((#[trigger] lines[j]).flags / 8 % 2 == 1 && lines[j].len > 0),
        lines[k].start + lines[k].len <= buf.len(),
        scan::image_at(buf, lines[k].start as int) is Some,
    ensures
        ({
            let img = scan::image_at(buf, lines[k].start as int)->0;
            page_image::first_work(true, lines, buf) == (ImageWork::Resolve {
                start: img.path_start,
                len: if img.path_len < 128 {
                    img.path_len
                } else {
                    128
                },
            })
        }),
        page_image::first_work(false, lines, buf) == ImageWork::Nothing,
{
    assert forall|j: int| 0 <= j < k implies !((#[trigger] lines[j]).image() && lines[j].len
        > 0) by {
        assert(!(lines[j].flags / 8 % 2 == 1 && lines[j].len > 0));
    }
    lemma_origin(lines, 0, k);
}

/// A cached image is shown if it fits. Else it is looked for in the book, unless the
/// page is to be shown at once.
pub proof fn law_cached_images_are_shown(d: PageDecode, h: u16)
    ensures
        h <= d.budget_h ==> page_image::cache_work(d, Some(h)) == ImageWork::ShowCached,
        h > d.budget_h && !d.defer ==> page_image::cache_work(d, Some(h)) == ImageWork::Find,
        h > d.budget_h && d.defer ==> page_image::cache_work(d, Some(h)) == ImageWork::Nothing,
        !d.defer ==> page_image::cache_work(d, None) == ImageWork::Find,
        d.defer ==> page_image::cache_work(d, None) == ImageWork::Nothing,
{
}

/// What was decoded is shown; a decode that failed is tried again as memory allows.
pub proof fn law_decoded_images_are_shown(d: PageDecode, text_cached: bool)
    requires
        d.format is Some,
    ensures
        page_image::decoded(d, DecodeEnd::Done, text_cached) == (d.ladder, ImageWork::ShowDecoded),
        page_image::decoded(d, DecodeEnd::Failed, text_cached).1 == ImageWork::Nothing,
        ({
            let (l, r) = images::after_failure(d.ladder, true, text_cached);
            let w = page_image::decoded(d, DecodeEnd::OutOfMemory, text_cached).1;
            &&& r == Retry::GiveUp ==> w == ImageWork::Nothing
            &&& r != Retry::GiveUp ==> w == (ImageWork::Decode {
                format: d.format->0,
                w: l.w,
                h: l.h,
                shed: r == Retry::Shed,
            })
        }),
{
    assert(images::after_failure(d.ladder, false, text_cached).1 == Retry::GiveUp);
}

// ── one image of the search ───────────────────────────────────────

/// An image that is cached already needs nothing, and one of a format that cannot
/// be decoded is noted as skipped; both are counted and passed. Any other is
/// looked for in the archive.
pub proof fn law_cached_images_are_passed(
    s: ImageScan,
    c: ImageCounts,
    chunk: Seq<u8>,
    path: Seq<u8>,
)
    ensures
        ({
            let (z, d, step) = image_scan::cache_checked(s, c, chunk, path, true);
            &&& (z, step.work) == image_scan::passed(s, chunk)
            &&& !step.mark && d == image_scan::settled(c)
        }),
        ({
            let (z, d, step) = image_scan::cache_checked(s, c, chunk, path, false);
            let f = images::format_of(path, None);
            &&& f is None ==> step.mark && (z, step.work) == image_scan::passed(s, chunk) && d
                == image_scan::settled(c)
            &&& f matches Some(format) ==> step == (ScanStep {
                mark: false,
                work: ScanWork::FindInZip { format },
            }) && z == s && d == c
        }),
{
}

/// Images of up to 30720 bytes go to the decoder, larger ones are decoded from the
/// card as long as that is not given up. What is not in the archive is passed, and
/// what is given up is noted as skipped.
pub proof fn law_large_images_are_decoded_from_the_card(
    s: ImageScan,
    c: ImageCounts,
    chunk: Seq<u8>,
    size: u32,
)
    ensures
        ({
            let (z, d, step) = image_scan::zip_searched(s, c, chunk, None);
            (z, step.work) == image_scan::passed(s, chunk) && !step.mark && d
                == image_scan::settled(c)
        }),
        ({
            let (z, d, step) = image_scan::zip_searched(s, c, chunk, Some(size));
            &&& size <= 30720 ==> step.work == ScanWork::AskWorker && z == s && d == c
                && !step.mark
            &&& size > 30720 && !c.skip_large ==> step.work == ScanWork::DecodeStreaming && z == s
                && d == c && !step.mark
            &&& size > 30720 && c.skip_large ==> (z, step.work) == image_scan::passed(s, chunk)
                && step.mark && d == image_scan::settled(c)
        }),
{
}

/// A large image that was tried is done with, whether or not it was decoded: it
/// is counted, noted as skipped if it failed, and the search goes on behind it.
pub proof fn law_tried_images_are_done_with(s: ImageScan, c: ImageCounts, ok: bool)
    requires
        s.offset + s.img_end <= u32::MAX,
        c.found < 65535,
        c.cached < 65535,
    ensures
        ({
            let (d, step) = image_scan::large_tried(s, c, ok);
            &&& d.found == c.found + 1 && d.cached == c.cached + 1
            &&& step.mark == !ok
            &&& step.work == ScanWork::Done(
                ScanResult::DecodedInline { resume_offset: (s.offset + s.img_end) as u32 },
            )
            &&& ok ==> d.large_fails == 0
        }),
{
}

/// A decoder that is busy, and one whose queue filled up, get the same image
/// again: the search goes on before it. Once it is taken, the search goes on
/// behind it and it is counted as found. One that cannot be extracted is noted as
/// skipped.
pub proof fn law_busy_decoders_get_the_image_again(
    s: ImageScan,
    c: ImageCounts,
    chunk: Seq<u8>,
)
    requires
        s.img_start <= s.img_end,
        s.offset + s.img_end <= u32::MAX,
        c.found < 65535,
    ensures
        image_scan::worker_asked(s, true) == ScanWork::Extract,
        image_scan::worker_asked(s, false) == ScanWork::Done(
            ScanResult::Dispatched { resume_offset: (s.offset + s.img_start) as u32 },
        ),
        image_scan::small_extracted(s, c, chunk, true).2.work == ScanWork::Submit,
        image_scan::small_extracted(s, c, chunk, false).2.mark,
        image_scan::small_extracted(s, c, chunk, false).1 == image_scan::settled(c),
        image_scan::submitted(s, c, true).1 == ScanWork::Done(
            ScanResult::Dispatched { resume_offset: (s.offset + s.img_end) as u32 },
        ),
        image_scan::submitted(s, c, true).0.found == c.found + 1,
        image_scan::submitted(s, c, true).0.cached == c.cached,
        image_scan::submitted(s, c, false).1 == ScanWork::Done(
            ScanResult::Dispatched { resume_offset: (s.offset + s.img_start) as u32 },
        ),
        image_scan::submitted(s, c, false).0 == c,
{
}

/// The image of a page is decoded once its format is known: by its path, or by its
/// first bytes, which are read only where the archive holds them as they are. One
/// that is not in the archive is not shown.
pub proof fn law_page_images_need_a_format(d: PageDecode)
    ensures
        page_image::found_in_archive(d, None).1 == ImageWork::Nothing,
        ({
            let f = images::page_format_of(d.path@, None);
            &&& f is None ==> page_image::found_in_archive(d, Some(true)).1 == ImageWork::ReadHead
                && page_image::found_in_archive(d, Some(false)).1 == ImageWork::Nothing
            &&& f matches Some(format) ==> forall|plain: bool|
                (#[trigger] page_image::found_in_archive(d, Some(plain))).1 == (
                ImageWork::Decode { format, w: d.ladder.w, h: d.ladder.h, shed: false })
        }),
{
}

/// Chapters of the book that are cached can be looked through, and no others.
pub proof fn law_cached_chapters_are_looked_through(ch: int, n: int, done: Seq<bool>)
    ensures
        ch >= n || ch < 0 || ch >= done.len() ==> !image_scan::scannable(ch, n, done),
        0 <= ch < n && ch < done.len() ==> image_scan::scannable(ch, n, done) == done[ch],
{
}

// ── cached images ─────────────────────────────────────────────────

/// A cached image has a head of four bytes, its width and its height, and a bit
/// for each pixel, whole bytes to a row. A file of another size is none of it, nor
/// is one without pixels.
pub proof fn law_cached_images_have_their_size(size: u32, head: Seq<u8>)
    requires
        head.len() >= 4,
    ensures
        ({
            let w = head[0] + 256 * head[1];
            let h = head[2] + 256 * head[3];
            let e = images::image_file_error(size, head);
            &&& size <= 4 ==> e == Some(ImageFileError::TooSmall)
            &&& size > 4 && (w == 0 || h == 0) ==> e == Some(ImageFileError::ZeroDimensions)
            &&& size > 4 && w > 0 && h > 0 && size != 4 + ((w + 7) / 8) * h ==> e == Some(
                ImageFileError::SizeMismatch,
            )
            &&& size > 4 && w > 0 && h > 0 && size == 4 + ((w + 7) / 8) * h ==> e is None
        }),
{
}

/// The images of a page are its records in order, as many as there is room for,
/// each looked for behind the one before it.
pub proof fn law_images_of_a_page_come_in_order(buf: Seq<u8>, i: int, room: nat)
    ensures
        ({
            let all = images::records_from(buf, i, room);
            let p = images::next_record(buf, i);
            &&& all.len() <= room
            &&& p >= buf.len() ==> all.len() == 0
            &&& room == 0 ==> all.len() == 0
            &&& room > 0 && p < buf.len() ==> {
                let img = scan::image_at(buf, p)->0;
                &&& all.len() >= 1 && all[0] == img
                &&& all.drop_first() == images::records_from(
                    buf,
                    img.end as int,
                    (room - 1) as nat,
                )
            }
        }),
    decreases room,
{
    let p = images::next_record(buf, i);
    if room > 0 && p < buf.len() {
        let img = scan::image_at(buf, p)->0;
        law_images_of_a_page_come_in_order(buf, img.end as int, (room - 1) as nat);
        let rest = images::records_from(buf, img.end as int, (room - 1) as nat);
        assert((seq![img] + rest).drop_first() =~= rest);
    }
}

/// An image has the page to itself where no line of the page holds text and one
/// starts an image.
pub proof fn law_lone_images_have_no_text_beside(lines: Seq<LineSpan>, k: int)
    requires
        0 <= k < lines.len(),
    ensures
        lines[k].flags / 8 % 2 == 0 && lines[k].len > 0 ==> !images::image_alone(lines),
        lines.len() == 1 ==> (images::image_alone(lines) <==> lines[0].flags / 8 % 2 == 1
            && lines[0].len > 0),
        (forall|i: int| 0 <= i < lines.len() ==> (#[trigger] lines[i]).len == 0)
            ==> !images::image_alone(lines),
        lines[k].image() && lines[k].len > 0 && (forall|i: int|
            0 <= i < lines.len() ==> (#[trigger] lines[i]).image() || lines[i].len == 0)
            ==> images::image_alone(lines),
{
    if lines.len() == 1 {
        assert(lines[0].image() == (lines[0].flags / 8 % 2 == 1));
        if lines[0].image() && lines[0].len > 0 {
            assert(lines[0].image() && lines[0].len > 0);
        }
    }
}

} // verus!
