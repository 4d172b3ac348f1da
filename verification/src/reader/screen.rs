//! When the loading screen goes up, and what is painted anew.

use crate::reader::clock::LoadingClock;
use crate::reader::state::{
    Loading, LoadingReason, Paint, ReaderApp, State, LOADING_HOLD_MS, LOADING_HOLD_RESUME_MS,
};
use crate::ui::Region;
use vstd::prelude::*;

verus! {

/// Whether the state shows the loading screen.
pub open spec fn is_loading(s: State) -> bool {
    s != State::Ready && s != State::ShowToc && s != State::Error
}

/// A new episode: nothing is painted yet.
pub open spec fn begun(l: Loading, reason: LoadingReason) -> Loading {
    Loading { reason, painted: false, ..l }
}

/// The loading screen put up, once for an episode. Entering a book paints the
/// whole page, and clears it first; moving inside it paints the text area.
pub open spec fn put_up(l: Loading) -> (Loading, Paint) {
    if l.painted {
        (l, Paint::Nothing)
    } else {
        (
            Loading { painted: true, first_full: false, ..l },
            if l.first_full {
                Paint::Full
            } else if l.reason == LoadingReason::Open || l.reason == LoadingReason::Resume {
                Paint::Page
            } else {
                Paint::LoadingArea
            },
        )
    }
}

/// How long an episode runs before its screen goes up.
pub open spec fn hold(reason: LoadingReason) -> u64 {
    if reason == LoadingReason::Resume {
        LOADING_HOLD_RESUME_MS
    } else {
        LOADING_HOLD_MS
    }
}

/// The loading screen after so many milliseconds: up once they are enough.
pub open spec fn ticked(l: Loading, loading: bool, ms: u64) -> (Loading, Paint) {
    if loading && ms >= hold(l.reason) {
        put_up(l)
    } else {
        (l, Paint::Nothing)
    }
}

/// The page is there: it is painted, with a clear if it is the first frame.
pub open spec fn page_up(l: Loading) -> (Loading, Paint) {
    (
        Loading { first_full: false, ..l },
        if l.first_full {
            Paint::Full
        } else {
            Paint::Page
        },
    )
}

impl Loading {
    pub fn begin(&mut self, reason: LoadingReason)
        ensures
            *final(self) == begun(*old(self), reason),
    {
        self.reason = reason;
        self.painted = false;
    }

    /// Put the loading screen up now.
    pub fn paint(&mut self) -> (p: Paint)
        ensures
            (*final(self), p) == put_up(*old(self)),
    {
        if self.painted {
            return Paint::Nothing;
        }
        self.painted = true;
        if self.first_full {
            self.first_full = false;
            Paint::Full
        } else {
            match self.reason {
                LoadingReason::Open => Paint::Page,
                LoadingReason::Resume => Paint::Page,
                _ => Paint::LoadingArea,
            }
        }
    }

    /// Put the loading screen up if the episode has run for long enough.
    pub fn tick(&mut self, loading: bool, ms: u64) -> (p: Paint)
        ensures
            (*final(self), p) == ticked(*old(self), loading, ms),
    {
        let hold_ms: u64 = match self.reason {
            LoadingReason::Resume => LOADING_HOLD_RESUME_MS,
            _ => LOADING_HOLD_MS,
        };
        if loading && ms >= hold_ms {
            self.paint()
        } else {
            Paint::Nothing
        }
    }

    /// The page, or an error, is to be painted.
    pub fn page_ready(&mut self) -> (p: Paint)
        ensures
            (*final(self), p) == page_up(*old(self)),
    {
        if self.first_full {
            self.first_full = false;
            Paint::Full
        } else {
            Paint::Page
        }
    }
}

impl ReaderApp {
    pub fn shows_loading_screen(&self) -> (b: bool)
        ensures
            b == is_loading(self.state),
    {
        match self.state {
            State::Ready => false,
            State::ShowToc => false,
            State::Error => false,
            _ => true,
        }
    }

    /// Gray levels are for the bare page; sheets are black and white.
    pub fn wants_grayscale(&self) -> (b: bool)
        ensures
            b == (self.state == State::Ready),
    {
        self.state == State::Ready
    }

    /// The contents sheet closes on the menu button.
    pub fn captures_menu(&self) -> (b: bool)
        ensures
            b == (self.state == State::ShowToc),
    {
        self.state == State::ShowToc
    }

    /// The text area, which the loading screen covers.
    pub fn loading_visual_region(&self) -> (r: Region)
        requires
            self.look.area.w <= 65535,
        ensures
            r == (Region {
                x: self.look.area.margin,
                y: self.look.area.y,
                w: self.look.area.w as u16,
                h: self.look.area.h,
            }),
    {
        Region {
            x: self.look.area.margin,
            y: self.look.area.y,
            w: self.look.area.w as u16,
            h: self.look.area.h,
        }
    }

    /// Start a loading episode. Nothing is painted until it has run for a
    /// while or a slow step comes, so that a fast one lands in one refresh.
    pub fn begin_loading(&mut self, reason: LoadingReason, clock: &mut LoadingClock)
        ensures
            *final(self) == (ReaderApp { loading: begun(old(self).loading, reason), ..*old(self) }),
    {
        self.loading.begin(reason);
        clock.restart();
    }

    /// Look at the clock before a step: the loading screen goes up when it is
    /// overdue.
    pub fn loading_tick(&mut self, clock: &LoadingClock) -> (p: Paint)
        ensures
            exists|ms: u64|
                (*final(self), p) == ({
                    let (l, q) = #[trigger] ticked(old(self).loading, is_loading(old(self).state), ms);
                    (ReaderApp { loading: l, ..*old(self) }, q)
                }),
    {
        let ms: u64 = clock.elapsed_ms();
        self.loading_tick_after(ms)
    }

    /// `loading_tick` at `ms` milliseconds of the clock.
    pub fn loading_tick_after(&mut self, ms: u64) -> (p: Paint)
        ensures
            (*final(self), p) == ({
                let (l, q) = ticked(old(self).loading, is_loading(old(self).state), ms);
                (ReaderApp { loading: l, ..*old(self) }, q)
            }),
    {
        let loading: bool = self.shows_loading_screen();
        self.loading.tick(loading, ms)
    }
}

/// An episode paints its screen at most once, and never before it is due; a
/// screen that is up stays as it is.
pub proof fn law_loading_screen_goes_up_once(l: Loading, loading: bool, ms: u64, later: u64)
    ensures
        ({
            let (after, p) = ticked(l, loading, ms);
            &&& p != Paint::Nothing ==> ms >= hold(l.reason) && !l.painted && after.painted
            &&& after.painted ==> ticked(after, loading, later) == (after, Paint::Nothing)
        }),
{
}

} // verus!
