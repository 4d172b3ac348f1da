//! Images: finding them in a page or a chapter, their files in the cache, and
//! the sizes that they are decoded at.

use crate::digits;
use crate::layout::pipeline;
use crate::layout::pipeline::DEFAULT_IMG_H;
use crate::layout::scan;
use crate::layout::scan::ImageRef;
use crate::reader::look;
use crate::reader::span::LineSpan;
use vstd::prelude::*;

verus! {

/// Images of a page whose heights are looked up.
pub const MAX_IMAGES_PER_PAGE: usize = 8;

/// Most bytes of an image's path that are used.
pub const MAX_SRC: usize = 128;

// ── finding images ────────────────────────────────────────────────

/// An image record with a path starts at `p`, all of it within the text.
pub open spec fn record_at(buf: Seq<u8>, p: int) -> bool {
    &&& 0 <= p
    &&& p + 9 <= buf.len()
    &&& buf[p] == scan::MARKER
    &&& buf[p + 1] == scan::IMG_REF
    &&& scan::image_at(buf, p) is Some
}

/// Where the first image record from `i` on starts, or the end.
pub open spec fn next_record(buf: Seq<u8>, i: int) -> int
    decreases buf.len() - i,
{
    if i < 0 || i >= buf.len() || record_at(buf, i) {
        i
    } else {
        next_record(buf, i + 1)
    }
}

/// The first image record of `buf` from `i` on.
pub fn find_image(buf: &[u8], i: usize) -> (r: Option<ImageRef>)
    requires
        buf@.len() <= u32::MAX,
        i <= buf@.len(),
    ensures
        ({
            let p = next_record(buf@, i as int);
            &&& i <= p <= buf@.len()
            &&& r == (if p < buf@.len() {
                scan::image_at(buf@, p)
            } else {
                None
            })
            &&& p < buf@.len() ==> r is Some && record_at(buf@, p)
            &&& r matches Some(img) ==> img.start == p && p < img.path_start < img.end <= buf@.len()
                && img.end == img.path_start + img.path_len
        }),
{
    let len: usize = buf.len();
    let mut p: usize = i;
    while p < len
        invariant
            i <= p <= len == buf@.len(),
            len <= u32::MAX,
            next_record(buf@, p as int) == next_record(buf@, i as int),
        decreases len - p,
    {
        if len - p >= 9 && buf[p] == scan::MARKER && buf[p + 1] == scan::IMG_REF {
            let img: Option<ImageRef> = scan::parse_image(buf, p);
            if img.is_some() {
                return img;
            }
        }
        p = p + 1;
    }
    None
}

/// No image record starts before the one that is found.
pub proof fn law_found_image_is_the_first(buf: Seq<u8>, i: int, p: int)
    requires
        0 <= i <= p < next_record(buf, i),
        i <= buf.len(),
    ensures
        !record_at(buf, p),
    decreases buf.len() - i,
{
    if i < buf.len() && !record_at(buf, i) && i < p {
        law_found_image_is_the_first(buf, i + 1, p);
    }
}

/// The image records of `buf` from `i` on, at most `room`.
pub open spec fn records_from(buf: Seq<u8>, i: int, room: nat) -> Seq<ImageRef>
    decreases room,
{
    let p = next_record(buf, i);
    if room == 0 || p >= buf.len() {
        Seq::empty()
    } else {
        let img = scan::image_at(buf, p)->0;
        seq![img] + records_from(buf, img.end as int, (room - 1) as nat)
    }
}

/// The images of a page whose heights are looked up.
pub fn page_images(buf: &[u8]) -> (out: Vec<ImageRef>)
    requires
        buf@.len() <= u32::MAX,
    ensures
        out@ == records_from(buf@, 0, MAX_IMAGES_PER_PAGE as nat),
{
    let mut out: Vec<ImageRef> = Vec::new();
    let mut i: usize = 0;
    let ghost all = records_from(buf@, 0, MAX_IMAGES_PER_PAGE as nat);
    proof {
        assert(out@ + all =~= all);
    }
    loop
        invariant_except_break
            out@ + records_from(buf@, i as int, (MAX_IMAGES_PER_PAGE - out@.len()) as nat) == all,
        invariant
            i <= buf@.len() <= u32::MAX,
            out@.len() <= MAX_IMAGES_PER_PAGE,
        ensures
            out@ == all,
        decreases MAX_IMAGES_PER_PAGE - out@.len(),
    {
        if out.len() >= MAX_IMAGES_PER_PAGE {
            proof {
                assert(out@ + Seq::<ImageRef>::empty() =~= out@);
            }
            break;
        }
        match find_image(buf, i) {
            None => {
                proof {
                    assert(out@ + Seq::<ImageRef>::empty() =~= out@);
                }
                break;
            },
            Some(img) => {
                let ghost before = out@;
                out.push(img);
                proof {
                    let rest = records_from(
                        buf@,
                        img.end as int,
                        (MAX_IMAGES_PER_PAGE - out@.len()) as nat,
                    );
                    assert(out@ + rest =~= before + (seq![img] + rest));
                }
                i = img.end as usize;
            },
        }
    }
    out
}

/// What is known of the height of an image.
#[derive(Clone, Copy, Debug, PartialEq, Eq, Structural)]
pub enum Peeked {
    /// its path is not text
    BadPath,
    Height(u16),
    Unknown,
}

/// The height that lines are reserved for: what is known, or half a page, but
/// no more than an inline image may have.
pub open spec fn height_of(p: Peeked, text_area_h: u16) -> int {
    let cap = text_area_h * look::INLINE_IMG_MAX_PCT / 100;
    match p {
        Peeked::BadPath => DEFAULT_IMG_H as int,
        Peeked::Height(h) => pipeline::min_int(h as int, cap),
        Peeked::Unknown => pipeline::min_int(DEFAULT_IMG_H as int, cap),
    }
}

/// The heights that the images of a page reserve.
pub fn prescan_image_heights(peeked: &[Peeked], text_area_h: u16) -> (out: Vec<u16>)
    ensures
        out@.len() == peeked@.len(),
        forall|k: int|
            0 <= k < out@.len() ==> #[trigger] out@[k] == height_of(peeked@[k], text_area_h),
{
    let cap: u16 = look::inline_img_max_h(text_area_h);
    let mut out: Vec<u16> = Vec::new();
    let mut k: usize = 0;
    while k < peeked.len()
        invariant
            k <= peeked@.len(),
            cap == text_area_h * look::INLINE_IMG_MAX_PCT / 100,
            out@.len() == k,
            forall|j: int| 0 <= j < k ==> #[trigger] out@[j] == height_of(peeked@[j], text_area_h),
        decreases peeked@.len() - k,
    {
        let h: u16 = match peeked[k] {
            Peeked::BadPath => DEFAULT_IMG_H,
            Peeked::Height(h) => if h <= cap {
                h
            } else {
                cap
            },
            Peeked::Unknown => if DEFAULT_IMG_H <= cap {
                DEFAULT_IMG_H
            } else {
                cap
            },
        };
        out.push(h);
        k = k + 1;
    }
    out
}

// ── files and formats ─────────────────────────────────────────────

/// The name of an image's file in the cache: the hash of its path in eight
/// digits, and `.BIN`.
pub open spec fn file_name(hash: u32) -> Seq<u8> {
    digits::hex(hash as nat, 8) + seq![0x2Eu8, 0x42, 0x49, 0x4E]
}

pub fn img_cache_name(hash: u32) -> (n: Vec<u8>)
    ensures
        n@ == file_name(hash),
        n@.len() == 12,
{
    let mut n: Vec<u8> = Vec::new();
    digits::push_hex(&mut n, hash, 8);
    n.push(0x2E);
    n.push(0x42);
    n.push(0x49);
    n.push(0x4E);
    proof {
        digits::lemma_hex_shape(hash as nat, 8);
        assert(n@ =~= file_name(hash));
    }
    n
}

/// Two hashes have two file names.
pub proof fn law_file_names_differ(a: u32, b: u32)
    requires
        file_name(a) == file_name(b),
    ensures
        a == b,
{
    digits::lemma_hex_shape(a as nat, 8);
    digits::lemma_hex_shape(b as nat, 8);
    assert(file_name(a).take(8) =~= digits::hex(a as nat, 8));
    assert(file_name(b).take(8) =~= digits::hex(b as nat, 8));
    digits::law_hex_reads_back(a);
    digits::law_hex_reads_back(b);
}

/// A byte in lower case.
pub open spec fn lower(b: u8) -> u8 {
    if 0x41 <= b <= 0x5A {
        (b + 0x20) as u8
    } else {
        b
    }
}

/// The path ends in a dot and `ext`, in either case. `ext` is in lower case.
pub open spec fn has_ext(path: Seq<u8>, ext: Seq<u8>) -> bool {
    &&& path.len() > ext.len()
    &&& path[path.len() - ext.len() - 1] == 0x2E
    &&& forall|k: int|
        0 <= k < ext.len() ==> lower(#[trigger] path[path.len() - ext.len() + k]) == ext[k]
}

pub open spec fn jpg() -> Seq<u8> {
    seq![0x6Au8, 0x70, 0x67]
}

pub open spec fn jpeg() -> Seq<u8> {
    seq![0x6Au8, 0x70, 0x65, 0x67]
}

pub open spec fn png() -> Seq<u8> {
    seq![0x70u8, 0x6E, 0x67]
}

fn to_lower(b: u8) -> (r: u8)
    ensures
        r == lower(b),
{
    if 0x41 <= b && b <= 0x5A {
        b + 0x20
    } else {
        b
    }
}

fn path_ext_eq(path: &[u8], ext: &[u8]) -> (r: bool)
    ensures
        r == has_ext(path@, ext@),
{
    if path.len() <= ext.len() {
        return false;
    }
    let len: usize = path.len();
    let from: usize = len - ext.len();
    if path[from - 1] != 0x2E {
        return false;
    }
    let mut k: usize = 0;
    while k < ext.len()
        invariant
            k <= ext@.len(),
            len == path@.len(),
            from == len - ext@.len(),
            forall|j: int|
                0 <= j < k ==> lower(#[trigger] path@[path@.len() - ext@.len() + j]) == ext@[j],
        decreases ext@.len() - k,
    {
        if to_lower(path[from + k]) != ext[k] {
            proof {
                assert(lower(path@[path@.len() - ext@.len() + k]) != ext@[k as int]);
            }
            return false;
        }
        k = k + 1;
    }
    true
}

pub fn is_image_ext_jpeg(path: &[u8]) -> (r: bool)
    ensures
        r == (has_ext(path@, jpg()) || has_ext(path@, jpeg())),
{
    let short: [u8; 3] = [0x6A, 0x70, 0x67];
    let long: [u8; 4] = [0x6A, 0x70, 0x65, 0x67];
    proof {
        assert(short@ =~= jpg());
        assert(long@ =~= jpeg());
    }
    path_ext_eq(path, short.as_slice()) || path_ext_eq(path, long.as_slice())
}

pub fn is_image_ext_png(path: &[u8]) -> (r: bool)
    ensures
        r == has_ext(path@, png()),
{
    let ext: [u8; 3] = [0x70, 0x6E, 0x67];
    proof {
        assert(ext@ =~= png());
    }
    path_ext_eq(path, ext.as_slice())
}

/// Formats that can be decoded.
#[derive(Clone, Copy, Debug, PartialEq, Eq, Structural)]
pub enum Format {
    Jpeg,
    Png,
}

/// The first bytes of a JPEG.
pub open spec fn jpeg_magic(head: Seq<u8>) -> bool {
    head.len() >= 2 && head[0] == 0xFF && head[1] == 0xD8
}

/// The first bytes of a PNG.
pub open spec fn png_magic(head: Seq<u8>) -> bool {
    head.len() >= 8 && head[0] == 137 && head[1] == 80 && head[2] == 78 && head[3] == 71 && head[4]
        == 13 && head[5] == 10 && head[6] == 26 && head[7] == 10
}

/// The format that the first bytes tell.
pub open spec fn format_by_head(head: Option<Seq<u8>>) -> Option<Format> {
    match head {
        Some(h) => if jpeg_magic(h) {
            Some(Format::Jpeg)
        } else if png_magic(h) {
            Some(Format::Png)
        } else {
            None
        },
        None => None,
    }
}

/// The format of an image: by the end of its path, or, where that says
/// nothing, by its first bytes, if those can be read as they are.
pub open spec fn format_of(path: Seq<u8>, head: Option<Seq<u8>>) -> Option<Format> {
    if has_ext(path, jpg()) || has_ext(path, jpeg()) {
        Some(Format::Jpeg)
    } else if has_ext(path, png()) {
        Some(Format::Png)
    } else {
        format_by_head(head)
    }
}

fn head_format(head: Option<&[u8]>) -> (f: Option<Format>)
    ensures
        f == format_by_head(
            match head {
                Some(h) => Some(h@),
                None => None,
            },
        ),
{
    match head {
        Some(h) => {
            if h.len() >= 2 && h[0] == 0xFF && h[1] == 0xD8 {
                Some(Format::Jpeg)
            } else if h.len() >= 8 && h[0] == 137 && h[1] == 80 && h[2] == 78 && h[3] == 71 && h[4]
                == 13 && h[5] == 10 && h[6] == 26 && h[7] == 10 {
                Some(Format::Png)
            } else {
                None
            }
        },
        None => None,
    }
}

/// The format of an image. `head` holds its first bytes, where it is stored
/// without compression.
pub fn image_format(path: &[u8], head: Option<&[u8]>) -> (f: Option<Format>)
    ensures
        f == format_of(
            path@,
            match head {
                Some(h) => Some(h@),
                None => None,
            },
        ),
{
    if is_image_ext_jpeg(path) {
        return Some(Format::Jpeg);
    }
    if is_image_ext_png(path) {
        return Some(Format::Png);
    }
    head_format(head)
}

/// The path ends in `tail`.
pub open spec fn ends_in(path: Seq<u8>, tail: Seq<u8>) -> bool {
    path.len() >= tail.len() && path.skip(path.len() - tail.len()) == tail
}

/// `.jpg`, `.jpeg`, `.JPG` or `.JPEG`
pub open spec fn page_jpeg(path: Seq<u8>) -> bool {
    ||| ends_in(path, seq![0x2Eu8, 0x6A, 0x70, 0x67])
    ||| ends_in(path, seq![0x2Eu8, 0x6A, 0x70, 0x65, 0x67])
    ||| ends_in(path, seq![0x2Eu8, 0x4A, 0x50, 0x47])
    ||| ends_in(path, seq![0x2Eu8, 0x4A, 0x50, 0x45, 0x47])
}

/// `.png` or `.PNG`
pub open spec fn page_png(path: Seq<u8>) -> bool {
    ends_in(path, seq![0x2Eu8, 0x70, 0x6E, 0x67]) || ends_in(path, seq![0x2Eu8, 0x50, 0x4E, 0x47])
}

/// The format of the image of a page. The end of its path is taken in lower
/// case or in upper case, but not in both at once.
pub open spec fn page_format_of(path: Seq<u8>, head: Option<Seq<u8>>) -> Option<Format> {
    if page_jpeg(path) {
        Some(Format::Jpeg)
    } else if page_png(path) {
        Some(Format::Png)
    } else {
        format_by_head(head)
    }
}

fn ends_with(path: &[u8], tail: &[u8]) -> (r: bool)
    ensures
        r == ends_in(path@, tail@),
{
    let len: usize = path.len();
    if len < tail.len() {
        return false;
    }
    let from: usize = len - tail.len();
    let mut k: usize = 0;
    while k < tail.len()
        invariant
            k <= tail@.len(),
            len == path@.len(),
            from == len - tail@.len(),
            forall|j: int| 0 <= j < k ==> #[trigger] path@[from + j] == tail@[j],
        decreases tail@.len() - k,
    {
        if path[from + k] != tail[k] {
            proof {
                assert(path@.skip(from as int)[k as int] != tail@[k as int]);
            }
            return false;
        }
        k = k + 1;
    }
    proof {
        assert forall|j: int| 0 <= j < tail@.len() implies path@.skip(from as int)[j] == tail@[j] by {
            assert(path@[from + j] == tail@[j]);
        }
        assert(path@.skip(from as int) =~= tail@);
    }
    true
}

/// The format of the image of a page. `head` holds its first bytes, where it
/// is stored without compression.
pub fn page_image_format(path: &[u8], head: Option<&[u8]>) -> (f: Option<Format>)
    ensures
        f == page_format_of(
            path@,
            match head {
                Some(h) => Some(h@),
                None => None,
            },
        ),
{
    let jpg: [u8; 4] = [0x2E, 0x6A, 0x70, 0x67];
    let jpeg: [u8; 5] = [0x2E, 0x6A, 0x70, 0x65, 0x67];
    let jpg_upper: [u8; 4] = [0x2E, 0x4A, 0x50, 0x47];
    let jpeg_upper: [u8; 5] = [0x2E, 0x4A, 0x50, 0x45, 0x47];
    let png: [u8; 4] = [0x2E, 0x70, 0x6E, 0x67];
    let png_upper: [u8; 4] = [0x2E, 0x50, 0x4E, 0x47];
    proof {
        assert(jpg@ =~= seq![0x2Eu8, 0x6A, 0x70, 0x67]);
        assert(jpeg@ =~= seq![0x2Eu8, 0x6A, 0x70, 0x65, 0x67]);
        assert(jpg_upper@ =~= seq![0x2Eu8, 0x4A, 0x50, 0x47]);
        assert(jpeg_upper@ =~= seq![0x2Eu8, 0x4A, 0x50, 0x45, 0x47]);
        assert(png@ =~= seq![0x2Eu8, 0x70, 0x6E, 0x67]);
        assert(png_upper@ =~= seq![0x2Eu8, 0x50, 0x4E, 0x47]);
    }
    if ends_with(path, jpg.as_slice()) || ends_with(path, jpeg.as_slice()) || ends_with(
        path,
        jpg_upper.as_slice(),
    ) || ends_with(path, jpeg_upper.as_slice()) {
        return Some(Format::Jpeg);
    }
    if ends_with(path, png.as_slice()) || ends_with(path, png_upper.as_slice()) {
        return Some(Format::Png);
    }
    head_format(head)
}

// ── decoded images on disk ────────────────────────────────────────

/// Bytes of a row of one-bit pixels.
pub open spec fn stride_of(width: int) -> int {
    (width + 7) / 8
}

/// Bytes of an image of one-bit pixels.
pub open spec fn bits_len(width: int, height: int) -> int {
    stride_of(width) * height
}

/// Why a cached image cannot be used.
#[derive(Clone, Copy, Debug, PartialEq, Eq, Structural)]
pub enum ImageFileError {
    TooSmall,
    ZeroDimensions,
    SizeMismatch,
}

/// The size of a decoded image.
#[derive(Clone, Copy, Debug, PartialEq, Eq, Structural)]
pub struct ImageSize {
    pub width: u16,
    pub height: u16,
}

/// The head of an image's file: width and height, low byte first.
pub open spec fn head_bytes(s: ImageSize) -> Seq<u8> {
    seq![
        (s.width % 256) as u8,
        (s.width / 256) as u8,
        (s.height % 256) as u8,
        (s.height / 256) as u8,
    ]
}

pub open spec fn size_in(head: Seq<u8>) -> ImageSize {
    ImageSize {
        width: (head[0] + 256 * head[1]) as u16,
        height: (head[2] + 256 * head[3]) as u16,
    }
}

/// Whether a file of `size` bytes with this head is a cached image.
pub open spec fn image_file_error(size: u32, head: Seq<u8>) -> Option<ImageFileError> {
    let s = size_in(head);
    if size < 5 {
        Some(ImageFileError::TooSmall)
    } else if s.width == 0 || s.height == 0 {
        Some(ImageFileError::ZeroDimensions)
    } else if size != 4 + bits_len(s.width as int, s.height as int) {
        Some(ImageFileError::SizeMismatch)
    } else {
        None
    }
}

/// The head of an image's file.
pub fn save_cached_image(s: ImageSize) -> (head: [u8; 4])
    ensures
        head@ == head_bytes(s),
{
    let head: [u8; 4] = [
        (s.width % 256) as u8,
        (s.width / 256) as u8,
        (s.height % 256) as u8,
        (s.height / 256) as u8,
    ];
    proof {
        assert(head@ =~= head_bytes(s));
    }
    head
}

/// The size of the image in a file of `size` bytes, and its bytes of pixels.
pub fn load_cached_image(size: u32, head: &[u8; 4]) -> (r: Result<(ImageSize, usize), ImageFileError>)
    ensures
        match r {
            Err(e) => image_file_error(size, head@) == Some(e),
            Ok((s, n)) => image_file_error(size, head@) is None && s == size_in(head@) && n
                == bits_len(s.width as int, s.height as int),
        },
{
    if size < 5 {
        return Err(ImageFileError::TooSmall);
    }
    let width: u16 = head[0] as u16 + 256 * (head[1] as u16);
    let height: u16 = head[2] as u16 + 256 * (head[3] as u16);
    if width == 0 || height == 0 {
        return Err(ImageFileError::ZeroDimensions);
    }
    let stride: usize = (width as usize + 7) / 8;
    proof {
        assert(0 <= stride * height <= 8192 * 65535) by (nonlinear_arith)
            requires
                0 <= stride <= 8192,
                0 <= height <= 65535,
        ;
    }
    let n: usize = stride * height as usize;
    if size as usize != 4 + n {
        return Err(ImageFileError::SizeMismatch);
    }
    Ok((ImageSize { width, height }, n))
}

/// The size of the image in a file, as far as its head tells.
pub fn peek_cached_image_size(size: u32, head: &[u8; 4]) -> (r: Option<ImageSize>)
    ensures
        r == (if size < 5 || size_in(head@).width == 0 || size_in(head@).height == 0 {
            None
        } else {
            Some(size_in(head@))
        }),
{
    if size < 5 {
        return None;
    }
    let width: u16 = head[0] as u16 + 256 * (head[1] as u16);
    let height: u16 = head[2] as u16 + 256 * (head[3] as u16);
    if width == 0 || height == 0 {
        None
    } else {
        Some(ImageSize { width, height })
    }
}

/// An image that was written with all of its pixels is read back in its size.
pub proof fn law_cached_images_come_back(s: ImageSize)
    requires
        s.width > 0,
        s.height > 0,
    ensures
        size_in(head_bytes(s)) == s,
        image_file_error(
            (4 + bits_len(s.width as int, s.height as int)) as u32,
            head_bytes(s),
        ) is None,
{
    let stride = stride_of(s.width as int);
    assert(1 <= stride * s.height <= 8192 * 65535) by (nonlinear_arith)
        requires
            1 <= stride <= 8192,
            1 <= s.height <= 65535,
    ;
}

// ── sizes to decode at ────────────────────────────────────────────

/// The height that the decoder gives an image: it divides both sides by the
/// smallest number that makes them fit.
pub open spec fn scaled_height(src: ImageSize, max_w: u16, max_h: u16) -> int {
    let sw = pipeline::ceil_div(src.width as int, max_w as int);
    let sh = pipeline::ceil_div(src.height as int, max_h as int);
    (src.height as int) / pipeline::max_int(pipeline::max_int(sw, sh), 1)
}

/// The height of an image of a given size once it is decoded.
pub fn peek_source_dimensions(src: ImageSize, max_w: u16, max_h: u16) -> (h: Option<u16>)
    requires
        max_w > 0,
        max_h > 0,
    ensures
        h == (if src.width == 0 || src.height == 0 {
            None
        } else {
            Some(scaled_height(src, max_w, max_h) as u16)
        }),
{
    if src.width == 0 || src.height == 0 {
        return None;
    }
    let sw: u16 = pipeline::div_up(src.width, max_w);
    let sh: u16 = pipeline::div_up(src.height, max_h);
    let mut scale: u16 = if sw >= sh {
        sw
    } else {
        sh
    };
    if scale < 1 {
        scale = 1;
    }
    proof {
        let h = src.height as int;
        let k = scale as int;
        assert(0 <= h / k <= h) by (nonlinear_arith)
            requires
                h >= 0,
                k >= 1,
        ;
    }
    Some(src.height / scale)
}

/// A decoded image is no higher than it may be.
pub proof fn law_decoded_images_fit(src: ImageSize, max_w: u16, max_h: u16)
    requires
        max_w > 0,
        max_h > 0,
        src.height > 0,
    ensures
        scaled_height(src, max_w, max_h) <= max_h,
{
    let h = src.height as int;
    let m = max_h as int;
    let sh = pipeline::ceil_div(h, m);
    let sw = pipeline::ceil_div(src.width as int, max_w as int);
    let k = pipeline::max_int(pipeline::max_int(sw, sh), 1);
    assert(h <= sh * m) by (nonlinear_arith)
        requires
            sh == (h + m - 1) / m,
            m >= 1,
            h >= 1,
    ;
    assert(h / k <= m) by (nonlinear_arith)
        requires
            h <= sh * m,
            k >= sh,
            k >= 1,
            m >= 1,
            h >= 1,
    ;
}

/// Times that a decode may halve its size, and the side below which it does
/// not.
pub const IMG_BUDGET_STEPS: u8 = 2;

pub const IMG_BUDGET_MIN: u16 = 48;

/// A decode that is tried again at a smaller size.
#[derive(Clone, Copy, Debug, PartialEq, Eq, Structural)]
pub struct ImgRetry {
    pub path_hash: u32,
    pub steps: u8,
}

/// `x` halved so many times.
pub open spec fn halved(x: u16, steps: nat) -> u16
    decreases steps,
{
    if steps == 0 {
        x
    } else {
        (halved(x, (steps - 1) as nat) / 2) as u16
    }
}

/// The size to decode an image at: halved for every time it failed, unless that
/// makes it too small.
pub open spec fn budget_of(retry: Option<ImgRetry>, path_hash: u32, w: u16, h: u16) -> (u16, u16) {
    let steps = match retry {
        Some(r) => if r.path_hash == path_hash {
            r.steps as nat
        } else {
            0
        },
        None => 0,
    };
    if halved(w, steps) < IMG_BUDGET_MIN || halved(h, steps) < IMG_BUDGET_MIN {
        (w, h)
    } else {
        (halved(w, steps), halved(h, steps))
    }
}

fn halve(x: u16, steps: u8) -> (r: u16)
    ensures
        r == halved(x, steps as nat),
{
    let mut r: u16 = x;
    let mut i: u8 = 0;
    while i < steps
        invariant
            i <= steps,
            r == halved(x, i as nat),
        decreases steps - i,
    {
        r = r / 2;
        i = i + 1;
    }
    r
}

pub fn img_budget(retry: Option<ImgRetry>, path_hash: u32, base_w: u16, base_h: u16) -> (r: (u16, u16))
    ensures
        r == budget_of(retry, path_hash, base_w, base_h),
{
    let steps: u8 = match retry {
        Some(r) => if r.path_hash == path_hash {
            r.steps
        } else {
            0
        },
        None => 0,
    };
    let w: u16 = halve(base_w, steps);
    let h: u16 = halve(base_h, steps);
    if w < IMG_BUDGET_MIN || h < IMG_BUDGET_MIN {
        (base_w, base_h)
    } else {
        (w, h)
    }
}

/// A decode that gives way to the memory there is: first the chapter's text is
/// released, then the size is halved.
#[derive(Clone, Copy, Debug, PartialEq, Eq, Structural)]
pub struct Ladder {
    pub w: u16,
    pub h: u16,
    /// sizes that were tried below the first
    pub steps: u8,
    /// the text was released, or a smaller size tried
    pub shed: bool,
}

/// What to do about a decode that failed.
#[derive(Clone, Copy, Debug, PartialEq, Eq, Structural)]
pub enum Retry {
    GiveUp,
    /// release the chapter's text, and try the same size again
    Shed,
    /// try the ladder's new size
    Smaller,
}

/// The ladder after a failure. Only a lack of memory is tried again; it
/// releases the chapter's text once, if that is in memory, and then halves the
/// size, a bounded number of times.
pub open spec fn after_failure(l: Ladder, oom: bool, text_cached: bool) -> (Ladder, Retry) {
    if !oom {
        (l, Retry::GiveUp)
    } else if !l.shed && text_cached {
        (Ladder { shed: true, ..l }, Retry::Shed)
    } else if l.steps < IMG_BUDGET_STEPS && l.w / 2 >= IMG_BUDGET_MIN && l.h / 2
        >= IMG_BUDGET_MIN {
        (
            Ladder {
                w: (l.w / 2) as u16,
                h: (l.h / 2) as u16,
                steps: (l.steps + 1) as u8,
                shed: true,
            },
            Retry::Smaller,
        )
    } else {
        (l, Retry::GiveUp)
    }
}

impl Ladder {
    pub fn new(max_w: u16, max_h: u16) -> (l: Ladder)
        ensures
            l == (Ladder { w: max_w, h: max_h, steps: 0, shed: false }),
    {
        Ladder { w: max_w, h: max_h, steps: 0, shed: false }
    }

    /// A decode at the ladder's size failed; whether for lack of memory.
    pub fn oom_retry(&mut self, oom: bool, text_cached: bool) -> (r: Retry)
        ensures
            (*final(self), r) == after_failure(*old(self), oom, text_cached),
    {
        if !oom {
            return Retry::GiveUp;
        }
        if !self.shed && text_cached {
            self.shed = true;
            return Retry::Shed;
        }
        let w: u16 = self.w / 2;
        let h: u16 = self.h / 2;
        if self.steps < IMG_BUDGET_STEPS && w >= IMG_BUDGET_MIN && h >= IMG_BUDGET_MIN {
            self.w = w;
            self.h = h;
            self.steps = self.steps + 1;
            self.shed = true;
            Retry::Smaller
        } else {
            Retry::GiveUp
        }
    }
}

/// A decode is tried again a bounded number of times, and never for a file that
/// is bad.
pub proof fn law_retries_end(l: Ladder, oom: bool, text_cached: bool)
    ensures
        ({
            let (after, r) = after_failure(l, oom, text_cached);
            let left = |x: Ladder|
                (if x.shed {
                    0int
                } else {
                    1
                }) + (IMG_BUDGET_STEPS - x.steps);
            &&& r != Retry::GiveUp ==> oom && left(after) < left(l)
            &&& r == Retry::Smaller ==> after.w >= IMG_BUDGET_MIN && after.h >= IMG_BUDGET_MIN
        }),
{
}

// ── the image of a page ───────────────────────────────────────────

/// The page shows an image and no text.
pub open spec fn image_alone(lines: Seq<LineSpan>) -> bool {
    &&& exists|i: int| 0 <= i < lines.len() && (#[trigger] lines[i]).image() && lines[i].len > 0
    &&& forall|i: int|
        0 <= i < lines.len() ==> (#[trigger] lines[i]).image() || lines[i].len == 0
}

/// Whether a page shows an image and no text.
pub fn is_fullscreen(lines: &[LineSpan]) -> (b: bool)
    ensures
        b == image_alone(lines@),
{
    let mut has_img: bool = false;
    let mut i: usize = 0;
    while i < lines.len()
        invariant
            i <= lines@.len(),
            has_img == exists|k: int|
                0 <= k < i && (#[trigger] lines@[k]).image() && lines@[k].len > 0,
            forall|k: int| 0 <= k < i ==> (#[trigger] lines@[k]).image() || lines@[k].len == 0,
        decreases lines@.len() - i,
    {
        if lines[i].is_image() {
            if lines[i].len > 0 {
                has_img = true;
            }
        } else if lines[i].len > 0 {
            return false;
        }
        i = i + 1;
    }
    has_img
}

/// The first image origin from `i` on.
pub open spec fn first_origin(lines: Seq<LineSpan>, i: int) -> Option<int>
    decreases lines.len() - i,
{
    if i < 0 || i >= lines.len() {
        None
    } else if lines[i].image() && lines[i].len > 0 {
        Some(i)
    } else {
        first_origin(lines, i + 1)
    }
}

/// The record of the image that a page shows: the one of its first origin, if
/// it is all on the page.
pub open spec fn shown_image(lines: Seq<LineSpan>, buf: Seq<u8>) -> Option<ImageRef> {
    match first_origin(lines, 0) {
        Some(i) => if lines[i].start + lines[i].len <= buf.len() {
            scan::image_at(buf, lines[i].start as int)
        } else {
            None
        },
        None => None,
    }
}

/// The record of the image that a page shows.
pub fn page_image(lines: &[LineSpan], buf: &[u8]) -> (r: Option<ImageRef>)
    requires
        buf@.len() <= u32::MAX,
    ensures
        r == shown_image(lines@, buf@),
{
    let mut i: usize = 0;
    while i < lines.len()
        invariant
            i <= lines@.len(),
            buf@.len() <= u32::MAX,
            first_origin(lines@, i as int) == first_origin(lines@, 0),
        decreases lines@.len() - i,
    {
        if lines[i].is_image_origin() {
            let start: usize = lines[i].start as usize;
            let len: usize = lines[i].len as usize;
            return if start + len <= buf.len() {
                scan::parse_image(buf, start)
            } else {
                None
            };
        }
        i = i + 1;
    }
    None
}

/// The height that the image of a page may have: the whole text area where it
/// stands alone, and else what an inline image may have.
pub fn page_image_budget(fullscreen: bool, text_area_h: u16) -> (h: u16)
    ensures
        h == (if fullscreen {
            text_area_h as int
        } else {
            text_area_h * look::INLINE_IMG_MAX_PCT / 100
        }),
{
    if fullscreen {
        text_area_h
    } else {
        look::inline_img_max_h(text_area_h)
    }
}

} // verus!
