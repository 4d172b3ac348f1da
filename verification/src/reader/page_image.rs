//! Showing the image of a page, step by step: which work comes next, and what
//! its outcome changes. The work itself reads the card or decodes, and is done
//! by the caller.

use crate::hash;
use crate::reader::images;
use crate::reader::images::{Format, Ladder, Retry};
use crate::reader::look;
use crate::reader::span::LineSpan;
use vstd::prelude::*;

verus! {

/// Work on the image of a page.
#[derive(Clone, Copy, Debug, PartialEq, Eq, Structural)]
pub enum ImageWork {
    /// the page is shown without an image
    Nothing,
    /// resolve the path of the image, which stands in the page's bytes, against
    /// its chapter
    Resolve { start: u32, len: u8 },
    /// look for the decoded image in the cache, by the hash of its path
    LookUp { hash: u32 },
    ShowCached,
    /// find the image in the book's archive
    Find,
    /// read its first bytes
    ReadHead,
    /// decode it, no larger than this; first the chapter's text is released if
    /// `shed` says so
    Decode { format: Format, w: u16, h: u16, shed: bool },
    /// show what was decoded, and add it to the cache
    ShowDecoded,
}

/// How a decode ended.
#[derive(Clone, Copy, Debug, PartialEq, Eq, Structural)]
pub enum DecodeEnd {
    Done,
    OutOfMemory,
    Failed,
}

/// The image of a page on its way to the screen.
pub struct PageDecode {
    /// the page shows an image and no text
    pub fullscreen: bool,
    /// how high the image may be
    pub budget_h: u16,
    /// the page is to be shown at once
    pub defer: bool,
    /// path of the image in the archive
    pub path: Vec<u8>,
    pub format: Option<Format>,
    pub ladder: Ladder,
}

/// The height that the image of a page may have.
pub open spec fn height_for(fullscreen: bool, text_area_h: u16) -> u16 {
    if fullscreen {
        text_area_h
    } else {
        (text_area_h * look::INLINE_IMG_MAX_PCT / 100) as u16
    }
}

/// No more of a path than this is read.
pub const MAX_SRC: u8 = 128;

/// What comes first: the path of the first image of the page, if a book with
/// chapters is open and the image has one.
pub open spec fn first_work(open: bool, lines: Seq<LineSpan>, buf: Seq<u8>) -> ImageWork {
    if !open {
        ImageWork::Nothing
    } else {
        match images::shown_image(lines, buf) {
            Some(r) => if r.path_len > 0 {
                ImageWork::Resolve {
                    start: r.path_start,
                    len: if r.path_len < MAX_SRC {
                        r.path_len
                    } else {
                        MAX_SRC
                    },
                }
            } else {
                ImageWork::Nothing
            },
            None => ImageWork::Nothing,
        }
    }
}

/// A cached image is shown if it fits. Else the image is decoded, unless the
/// page is to be shown at once: then the background decodes it.
pub open spec fn cache_work(d: PageDecode, cached_h: Option<u16>) -> ImageWork {
    if cached_h matches Some(h) && h <= d.budget_h {
        ImageWork::ShowCached
    } else if d.defer {
        ImageWork::Nothing
    } else {
        ImageWork::Find
    }
}

/// A decode at the size of the ladder, if the format is known.
pub open spec fn decode_work(format: Option<Format>, l: Ladder, shed: bool) -> ImageWork {
    match format {
        Some(f) => ImageWork::Decode { format: f, w: l.w, h: l.h, shed },
        None => ImageWork::Nothing,
    }
}

/// What follows a decode.
pub open spec fn decoded(d: PageDecode, end: DecodeEnd, text_cached: bool) -> (Ladder, ImageWork) {
    if end == DecodeEnd::Done {
        (d.ladder, ImageWork::ShowDecoded)
    } else {
        let (l, r) = images::after_failure(d.ladder, end == DecodeEnd::OutOfMemory, text_cached);
        (
            l,
            match r {
                Retry::GiveUp => ImageWork::Nothing,
                Retry::Shed => decode_work(d.format, l, true),
                Retry::Smaller => decode_work(d.format, l, false),
            },
        )
    }
}

/// The image was looked for in the archive.
pub open spec fn found_in_archive(d: PageDecode, stored: Option<bool>) -> (PageDecode, ImageWork) {
    let by_path = images::page_format_of(d.path@, None);
    if stored is Some && by_path is Some {
        (PageDecode { format: by_path, ..d }, decode_work(by_path, d.ladder, false))
    } else if stored == Some(true) {
        (d, ImageWork::ReadHead)
    } else {
        (d, ImageWork::Nothing)
    }
}

impl PageDecode {
    /// The image is asked for no larger than the text is wide and its budget
    /// is high.
    pub open spec fn within(self, text_w: u16) -> bool {
        self.ladder.w <= text_w && self.ladder.h <= self.budget_h
    }

    fn next_decode(&self, shed: bool) -> (w: ImageWork)
        ensures
            w == decode_work(self.format, self.ladder, shed),
    {
        match self.format {
            Some(format) => ImageWork::Decode {
                format,
                w: self.ladder.w,
                h: self.ladder.h,
                shed,
            },
            None => ImageWork::Nothing,
        }
    }

    /// Start with the image of a page: `lines` are its lines, `buf` its bytes.
    /// `open` says whether a book with chapters is open.
    pub fn decode_page_images(
        open: bool,
        lines: &[LineSpan],
        buf: &[u8],
        text_w: u16,
        text_area_h: u16,
        defer: bool,
    ) -> (r: (PageDecode, ImageWork))
        requires
            buf@.len() <= u32::MAX,
        ensures
            ({
                let (d, w) = r;
                let fullscreen = open && images::image_alone(lines@);
                let budget_h = height_for(fullscreen, text_area_h);
                &&& d == (PageDecode {
                    fullscreen,
                    budget_h,
                    defer,
                    path: d.path,
                    format: None,
                    ladder: Ladder { w: text_w, h: budget_h, steps: 0, shed: false },
                })
                &&& d.path@.len() == 0
                &&& d.within(text_w)
                &&& w == first_work(open, lines@, buf@)
            }),
    {
        let fullscreen: bool = open && images::is_fullscreen(lines);
        let budget_h: u16 = images::page_image_budget(fullscreen, text_area_h);
        let d = PageDecode {
            fullscreen,
            budget_h,
            defer,
            path: Vec::new(),
            format: None,
            ladder: Ladder::new(text_w, budget_h),
        };
        if !open {
            return (d, ImageWork::Nothing);
        }
        match images::page_image(lines, buf) {
            Some(r) => {
                if r.path_len > 0 {
                    let len: u8 = if r.path_len < MAX_SRC {
                        r.path_len
                    } else {
                        MAX_SRC
                    };
                    (d, ImageWork::Resolve { start: r.path_start, len })
                } else {
                    (d, ImageWork::Nothing)
                }
            },
            None => (d, ImageWork::Nothing),
        }
    }

    /// After `Resolve`: the path in the archive, if it can be told.
    pub fn after_resolve(&mut self, full_path: Option<Vec<u8>>) -> (w: ImageWork)
        ensures
            match full_path {
                Some(p) => *final(self) == (PageDecode { path: p, ..*old(self) }) && w
                    == (ImageWork::LookUp { hash: hash::fnv(p@) }),
                None => *final(self) == *old(self) && w == ImageWork::Nothing,
            },
    {
        match full_path {
            Some(p) => {
                let h: u32 = hash::fnv1a(p.as_slice());
                self.path = p;
                ImageWork::LookUp { hash: h }
            },
            None => ImageWork::Nothing,
        }
    }

    /// After `LookUp`: the height of the cached image, if there is one.
    pub fn after_lookup(&self, cached_h: Option<u16>) -> (w: ImageWork)
        ensures
            w == cache_work(*self, cached_h),
    {
        if let Some(h) = cached_h {
            if h <= self.budget_h {
                return ImageWork::ShowCached;
            }
        }
        if self.defer {
            ImageWork::Nothing
        } else {
            ImageWork::Find
        }
    }

    /// After `Find`: whether the image is stored without compression, if it is
    /// in the archive at all. Its format is told by its path, or by its first
    /// bytes where those can be read as they are.
    pub fn after_find(&mut self, stored: Option<bool>) -> (w: ImageWork)
        ensures
            (*final(self), w) == found_in_archive(*old(self), stored),
    {
        match stored {
            None => ImageWork::Nothing,
            Some(plain) => {
                let f: Option<Format> = images::page_image_format(self.path.as_slice(), None);
                if f.is_some() {
                    self.format = f;
                    self.next_decode(false)
                } else if plain {
                    ImageWork::ReadHead
                } else {
                    ImageWork::Nothing
                }
            },
        }
    }

    /// After `ReadHead`: the first bytes of the image.
    pub fn after_head(&mut self, head: &[u8]) -> (w: ImageWork)
        ensures
            ({
                let format = images::page_format_of(old(self).path@, Some(head@));
                &&& *final(self) == (PageDecode { format, ..*old(self) })
                &&& w == decode_work(format, old(self).ladder, false)
            }),
    {
        self.format = images::page_image_format(self.path.as_slice(), Some(head));
        self.next_decode(false)
    }

    /// After `Decode`; `text_cached` says whether the chapter's text is in
    /// memory.
    pub fn after_decode(&mut self, end: DecodeEnd, text_cached: bool) -> (w: ImageWork)
        ensures
            ({
                let (ladder, work) = decoded(*old(self), end, text_cached);
                *final(self) == (PageDecode { ladder, ..*old(self) }) && w == work
            }),
    {
        let oom: bool = match end {
            DecodeEnd::Done => {
                return ImageWork::ShowDecoded;
            },
            DecodeEnd::OutOfMemory => true,
            DecodeEnd::Failed => false,
        };
        match self.ladder.oom_retry(oom, text_cached) {
            Retry::GiveUp => ImageWork::Nothing,
            Retry::Shed => self.next_decode(true),
            Retry::Smaller => self.next_decode(false),
        }
    }
}

// ── laws ──────────────────────────────────────────────────────────

/// What a page shows fits: a cached image is no higher than its budget, and a
/// decode is asked for nothing larger, however often it is tried again.
pub proof fn law_page_images_fit(
    d: PageDecode,
    text_w: u16,
    cached_h: Option<u16>,
    end: DecodeEnd,
    text_cached: bool,
)
    requires
        d.within(text_w),
    ensures
        cache_work(d, cached_h) == ImageWork::ShowCached ==> cached_h is Some && cached_h->0
            <= d.budget_h,
        ({
            let (ladder, work) = decoded(d, end, text_cached);
            &&& (PageDecode { ladder, ..d }).within(text_w)
            &&& work matches ImageWork::Decode { w, h, .. } ==> w <= text_w && h <= d.budget_h
        }),
{
}

/// A page that is to be shown at once never waits for a decode: it shows a
/// cached image, or none.
pub proof fn law_deferred_pages_do_not_wait(d: PageDecode, cached_h: Option<u16>)
    requires
        d.defer,
    ensures
        cache_work(d, cached_h) == ImageWork::ShowCached || cache_work(d, cached_h)
            == ImageWork::Nothing,
{
}

} // verus!
