//! Applications, tabs and buttons.

use vstd::prelude::*;

verus! {

#[derive(Clone, Copy, Debug, PartialEq, Eq, Structural)]
pub enum AppId {
    Home,
    Library,
    /// the flat file list of old sessions, no longer on a tab
    Files,
    Reader,
    Settings,
    Stats,
    /// runs outside of the usual dispatch
    Upload,
}

/// What opens over a tab.
#[derive(Clone, Copy, Debug, PartialEq, Eq, Hash, Structural)]
#[non_exhaustive]
pub enum Modal {
    Reader,
}

#[derive(Clone, Copy, Debug, PartialEq, Eq, Structural)]
pub enum Tab {
    Home,
    Library,
    Stats,
    Settings,
    Upload,
}

/// What a button asks for.
#[derive(Clone, Copy, Debug, PartialEq, Eq, Structural)]
pub enum Action {
    Next,
    Prev,
    NextJump,
    PrevJump,
    Select,
    Back,
    Menu,
}

#[derive(Clone, Copy, Debug, PartialEq, Eq, Structural)]
pub enum ActionEvent {
    Press(Action),
    LongPress(Action),
    Repeat(Action),
    Release(Action),
}

/// Where an application asks to go.
#[derive(Clone, Copy, Debug, PartialEq, Eq, Structural)]
pub enum Transition {
    Stay,
    Push(AppId),
    Replace(AppId),
    Pop,
    Home,
}

/// How a step of background work ended.
#[derive(Clone, Copy, Debug, PartialEq, Eq, Structural)]
pub enum BgOutcome {
    Idle,
    Progress { more: bool },
    /// something outside must happen first
    WaitingExternal,
}

} // verus!
