//! What the reader knows and where it stands.

use crate::book_record::Position;
use crate::markup::Anchor;
use crate::reader::index::PageIndex;
use crate::reader::persist::ReadingLog;
use crate::ui::{Region, SCREEN_H, SCREEN_W};
use vstd::prelude::*;

verus! {

// ── the screen of the reader ──────────────────────────────────────

/// Margin of the footer and the loading screen.
pub const MARGIN: u16 = 8;

/// Edge that the display clips.
pub const SCREEN_PAD: u16 = 4;

/// Height of the footer line.
pub const CHROME_H: u16 = 18;

pub const CHROME_PAD: u16 = 4;

pub const FOOTER_BOTTOM_PAD: u16 = 12;

/// Top of the footer line.
pub const CHROME_Y: u16 = 770;

/// Top of the text.
pub const TEXT_Y: u16 = 8;

/// Line height without fonts.
pub const LINE_H: u16 = 20;

pub const TEXT_W: u32 = 464;

pub const TEXT_AREA_H: u16 = 758;

/// Width of the position bar, and the gap beside it.
pub const BAR_W: u16 = 96;

pub const BAR_GAP: u16 = 12;

/// The stage row of the loading screen.
pub const STAGE_H: u16 = 34;

pub const STAGE_CAP_H: u16 = 18;

pub const STAGE_BOTTOM_GAP: u16 = 20;

/// Milliseconds that loading may take before its screen is painted; a wake
/// holds longer.
pub const LOADING_HOLD_MS: u64 = 400;

pub const LOADING_HOLD_RESUME_MS: u64 = 1500;

/// Rows of the contents sheet at the bottom of the screen.
pub const CONTENTS_ROWS: usize = 8;

pub const POSITION_OVERLAY_W: u16 = 280;

pub const POSITION_OVERLAY_H: u16 = 40;

pub open spec fn spec_footer_region() -> Region {
    Region { x: MARGIN, y: CHROME_Y, w: (SCREEN_W - 2 * MARGIN) as u16, h: CHROME_H }
}

pub fn footer_region() -> (r: Region)
    ensures
        r == spec_footer_region(),
{
    Region { x: MARGIN, y: CHROME_Y, w: SCREEN_W - 2 * MARGIN, h: CHROME_H }
}

pub open spec fn spec_stage_region() -> Region {
    Region {
        x: MARGIN,
        y: (CHROME_Y - CHROME_PAD - STAGE_BOTTOM_GAP - STAGE_H) as u16,
        w: (SCREEN_W - 2 * MARGIN) as u16,
        h: STAGE_H,
    }
}

pub fn stage_region() -> (r: Region)
    ensures
        r == spec_stage_region(),
{
    Region {
        x: MARGIN,
        y: CHROME_Y - CHROME_PAD - STAGE_BOTTOM_GAP - STAGE_H,
        w: SCREEN_W - 2 * MARGIN,
        h: STAGE_H,
    }
}

pub open spec fn spec_position_overlay() -> Region {
    Region {
        x: ((SCREEN_W - POSITION_OVERLAY_W) / 2) as u16,
        y: ((SCREEN_H - POSITION_OVERLAY_H) / 2) as u16,
        w: POSITION_OVERLAY_W,
        h: POSITION_OVERLAY_H,
    }
}

pub fn position_overlay() -> (r: Region)
    ensures
        r == spec_position_overlay(),
{
    Region {
        x: (SCREEN_W - POSITION_OVERLAY_W) / 2,
        y: (SCREEN_H - POSITION_OVERLAY_H) / 2,
        w: POSITION_OVERLAY_W,
        h: POSITION_OVERLAY_H,
    }
}

/// The footer ends above the bottom edge, the stage row above the footer, and
/// the text area between the top and the footer.
pub proof fn law_chrome_fits_the_screen()
    ensures
        CHROME_Y + CHROME_H + FOOTER_BOTTOM_PAD == SCREEN_H,
        spec_stage_region().y + STAGE_H + STAGE_BOTTOM_GAP + CHROME_PAD == CHROME_Y,
        TEXT_Y == SCREEN_PAD + 4,
        TEXT_Y + TEXT_AREA_H + CHROME_PAD == CHROME_Y,
        TEXT_W + 2 * MARGIN == SCREEN_W,
{
}

// ── limits ────────────────────────────────────────────────────────

/// Most chapters of a book.
pub const MAX_SPINE: usize = 256;

/// Most chapters that the cache keeps.
pub const MAX_CACHE_CHAPTERS: usize = 256;

/// A contents entry that points nowhere.
pub const NO_CHAPTER: u16 = 65535;

/// Images larger than this are decoded from the card, not by the worker.
pub const PRECACHE_IMG_MAX: u32 = 30720;

/// Most bytes of a chapter that are kept in memory.
pub const CHAPTER_CACHE_MAX: usize = 131072;

// ── states ────────────────────────────────────────────────────────

/// Steps of opening a book, and reading it.
#[derive(Clone, Copy, Debug, PartialEq, Eq, Structural)]
pub enum State {
    NeedBookmark,
    NeedInit,
    NeedOpf,
    NeedToc,
    NeedCache,
    NeedIndex,
    NeedPage,
    Ready,
    ShowToc,
    Error,
}

/// Caching in the background while the book is read.
#[derive(Clone, Copy, Debug, PartialEq, Eq, Structural)]
pub enum BgCacheState {
    Idle,
    CacheChapter,
    WaitNearbyImage,
    CacheImage,
    WaitImage,
}

/// Why a new position is to be kept once its page is on screen.
#[derive(Clone, Copy, Debug, PartialEq, Eq, Structural)]
pub enum PendingPositionChange {
    OpenReady,
    RestoreReady,
    PageTurn,
    Jump,
}

/// Why the reader is loading.
#[derive(Clone, Copy, Debug, PartialEq, Eq, Structural)]
pub enum LoadingReason {
    Open,
    Resume,
    Chapter,
    Font,
}

/// What must be painted anew.
#[derive(Clone, Copy, Debug, PartialEq, Eq, Structural)]
pub enum Paint {
    Nothing,
    /// the whole screen, with a clear
    Full,
    Page,
    /// the text area
    LoadingArea,
    Footer,
    Sheet,
    /// two rows of the contents sheet
    Rows(usize, usize),
    Overlay,
}

/// The kernel's caching indicator.
#[derive(Clone, Copy, Debug, PartialEq, Eq, Structural)]
pub enum Indicator {
    Keep,
    Clear,
    /// show the progress of caching
    Caching,
}

/// Margins of a reading theme.
#[derive(Clone, Copy, Debug, PartialEq, Eq, Structural)]
pub struct ReadingTheme {
    pub margin_h: u16,
    pub margin_v: u16,
}

/// What a font measures: its line height, its em and its ascent.
#[derive(Clone, Copy, Debug, PartialEq, Eq, Structural)]
pub struct FontMetrics {
    pub native_h: u16,
    pub em_px: u16,
    pub ascent: u16,
}

/// An entry of the table of contents.
pub struct TocEntry {
    pub spine_idx: u16,
    pub title: String,
}

/// The book that is open. Its name and its title are kept whole, however long
/// they are.
pub struct Book {
    pub filename: Vec<u8>,
    pub title: Vec<u8>,
    pub title_is_real: bool,
    pub is_epub: bool,
    /// size of the open text: of the file, or of the chapter
    pub file_size: u32,
    /// chapters of the book
    pub spine_len: usize,
    /// chapters as the stored header counts them, 0 if unknown
    pub spine_hint: u16,
    pub name_hash: u32,
    pub archive_size: u32,
    pub content_fmt: u8,
}

/// Where to open the book.
#[derive(Clone, Copy, Debug, PartialEq, Eq, Structural)]
pub struct Restore {
    pub offset: Option<u32>,
    pub page_hint: Option<usize>,
    /// the recorded position, until it can be held against the file
    pub pending: Option<Position>,
    pub anchor: Option<Anchor>,
    pub fmt: u8,
    pub layout_key: u32,
}

/// The text area.
#[derive(Clone, Copy, Debug, PartialEq, Eq, Structural)]
pub struct TextArea {
    pub margin: u16,
    pub y: u16,
    pub w: u32,
    pub h: u16,
}

/// How lines fit the text area.
#[derive(Clone, Copy, Debug, PartialEq, Eq, Structural)]
pub struct LineFit {
    pub line_h: u16,
    pub ascent: u16,
    pub max_lines: u8,
}

/// What the reader chose.
#[derive(Clone, Copy, Debug, PartialEq, Eq, Structural)]
pub struct Choices {
    pub theme_idx: u8,
    pub theme: ReadingTheme,
    pub line_spacing_idx: u8,
    pub show_chrome: bool,
    /// 1 for justified text
    pub text_alignment: u8,
    pub font_size_idx: u8,
    pub font: u8,
    pub ui_font_idx: u8,
}

/// How the page looks, and what of its layout is out of date.
#[derive(Clone, Copy, Debug, PartialEq, Eq, Structural)]
pub struct Look {
    pub chosen: Choices,
    pub area: TextArea,
    pub fit: LineFit,
    /// line breaks are out of date
    pub typeset_stale: bool,
    /// pages are, line breaks are not
    pub pagination_stale: bool,
}

/// An episode of loading.
#[derive(Clone, Copy, Debug, PartialEq, Eq, Structural)]
pub struct Loading {
    pub reason: LoadingReason,
    pub painted: bool,
    /// the next paint clears the screen
    pub first_full: bool,
}

/// Work that waits until the first page is on screen.
#[derive(Clone, Copy, Debug, PartialEq, Eq, Structural)]
pub struct OpenTasks {
    pub defer_once: bool,
    pub toc_parse: bool,
    pub title_save: bool,
    pub cover_thumb: bool,
}

/// The contents sheet.
pub struct Contents {
    pub toc: Vec<TocEntry>,
    pub selected: usize,
    pub scroll: usize,
    pub expanded: bool,
    /// pages of each chapter, 0 where it was not laid out
    pub pages: Vec<u16>,
    pub pages_stale: bool,
    pub open_on_ready: bool,
}

/// The book's cache.
pub struct Cache {
    /// the cache can be read
    pub ready: bool,
    /// chapters that are in it
    pub done: Vec<bool>,
    /// a chapter is being added
    pub open: bool,
    /// next chapter to add in the background
    pub next: u16,
    /// bytes of the chapter in memory
    pub text_len: usize,
    pub bg: BgCacheState,
    pub img_found: u16,
    pub img_cached: u16,
    /// the indicator could not be painted
    pub ui_stale: bool,
}

/// Waiting for memory to typeset a chapter.
#[derive(Clone, Copy, Debug, PartialEq, Eq, Structural)]
pub struct Typesetting {
    pub waits: u8,
    pub retry_ch: u16,
}

pub struct ReaderApp {
    pub book: Book,
    pub pg: PageIndex,
    pub chapter: u16,
    pub cache: Cache,
    pub contents: Contents,
    pub log: ReadingLog,
    pub restore: Restore,
    pub look: Look,
    pub loading: Loading,
    pub tasks: OpenTasks,
    pub typesetting: Typesetting,
    pub state: State,
    pub error: Option<u16>,
    pub show_position: bool,
    pub goto_last_page: bool,
    pub pending_change: Option<PendingPositionChange>,
    /// a cover for the loading screen is there
    pub has_cover: bool,
    pub defer_image_decode: bool,
}

impl Contents {
    /// Every entry is a chapter of a book of `n` chapters, or none.
    pub open spec fn resolved(self, n: int) -> bool {
        forall|i: int|
            0 <= i < self.toc@.len() ==> {
                let at = (#[trigger] self.toc@[i]).spine_idx;
                at == NO_CHAPTER || (at as int) < n
            }
    }
}

impl ReaderApp {
    pub open spec fn wf(self) -> bool {
        &&& self.pg.wf()
        &&& self.book.spine_len <= MAX_SPINE
        &&& self.cache.done@.len() == MAX_CACHE_CHAPTERS
        &&& self.contents.pages@.len() == MAX_SPINE
    }

    /// Of a book whose chapters are known, one is open.
    pub open spec fn in_book(self) -> bool {
        self.book.is_epub && self.book.spine_len > 0 ==> (self.chapter as int)
            < self.book.spine_len
    }
}

} // verus!
