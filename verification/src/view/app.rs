//! Which of the three views shows, and how the enter key goes from one to
//! the next.

use vstd::prelude::*;

verus! {

#[derive(Clone, Copy, Debug, PartialEq, Eq, Structural)]
pub enum ViewMode {
    Song,
    Chain,
    Phrase,
}

/// What the enter key does.
#[derive(Clone, Copy, Debug, PartialEq, Eq, Structural)]
pub enum Switch {
    /// The view stays.
    Stay,
    /// The chain with this id opens.
    OpenChain(u8),
    /// The phrase with this id opens.
    OpenPhrase(u8),
    /// The song view comes back.
    BackToSong,
}

/// What the enter key does in a view with a selection: from the song into
/// the selected chain, from a chain into the selected phrase, from a phrase
/// back to the song. An empty selection opens nothing.
pub open spec fn switch_of(mode: ViewMode, selection: Option<u8>) -> Switch {
    match mode {
        ViewMode::Song => match selection {
            Some(id) => Switch::OpenChain(id),
            None => Switch::Stay,
        },
        ViewMode::Chain => match selection {
            Some(id) => Switch::OpenPhrase(id),
            None => Switch::Stay,
        },
        ViewMode::Phrase => Switch::BackToSong,
    }
}

/// The view that shows after a switch.
pub open spec fn mode_after(mode: ViewMode, switch: Switch) -> ViewMode {
    match switch {
        Switch::Stay => mode,
        Switch::OpenChain(_) => ViewMode::Chain,
        Switch::OpenPhrase(_) => ViewMode::Phrase,
        Switch::BackToSong => ViewMode::Song,
    }
}

pub fn on_enter(mode: ViewMode, selection: Option<u8>) -> (switch: Switch)
    ensures
        switch == switch_of(mode, selection),
{
    match mode {
        ViewMode::Song => match selection {
            Some(id) => Switch::OpenChain(id),
            None => Switch::Stay,
        },
        ViewMode::Chain => match selection {
            Some(id) => Switch::OpenPhrase(id),
            None => Switch::Stay,
        },
        ViewMode::Phrase => Switch::BackToSong,
    }
}

pub fn next_mode(mode: ViewMode, switch: Switch) -> (next: ViewMode)
    ensures
        next == mode_after(mode, switch),
{
    match switch {
        Switch::Stay => mode,
        Switch::OpenChain(_) => ViewMode::Chain,
        Switch::OpenPhrase(_) => ViewMode::Phrase,
        Switch::BackToSong => ViewMode::Song,
    }
}

} // verus!
