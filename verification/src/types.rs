//! The small types of the tracker.

use vstd::prelude::*;

verus! {

pub type PatternId = u8;

pub type TrackId = u8;

pub type ChainId = u8;

pub type PhraseId = u8;

/// A MIDI note number.
pub type NoteId = u8;

pub type Note = u8;

pub const NUM_TRACKS: usize = 8;

pub const NUM_PHRASES_PER_CHAIN: usize = 4;

pub const NUM_STEPS_PER_PHRASE: usize = 16;

/// One step of a phrase: a note and how long it lasts.
#[derive(Clone, Copy, Debug, PartialEq, Eq, Structural)]
pub struct Step {
    note: u8,
    len: u8,
}

impl View for Step {
    type V = (Note, u8);

    /// The note and its length.
    closed spec fn view(&self) -> (Note, u8) {
        (self.note, self.len)
    }
}

impl Step {
    pub fn new(note: Note, len: u8) -> (step: Self)
        ensures
            step@ == (note, len),
    {
        Self { note, len }
    }

    pub fn note(&self) -> (note: Note)
        ensures
            note == self@.0,
    {
        self.note
    }

    pub fn len(&self) -> (len: u8)
        ensures
            len == self@.1,
    {
        self.len
    }

    /// Two steps with the same note and length are the same step.
    pub proof fn lemma_view_decides(a: Step, b: Step)
        requires
            a@ == b@,
        ensures
            a == b,
    {
    }
}

} // verus!
