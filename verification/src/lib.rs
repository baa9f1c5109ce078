//! A tracker's synthesis engine: patches, instruments, voices and the song
//! they play, in fixed-point arithmetic.

pub mod adsr;
pub mod fixed;
pub mod graph;
pub mod instrument;
pub mod instrument_manager;
pub mod lfo;
pub mod messaging;
pub mod model;
pub mod modulator;
pub mod node;
pub mod note_frequency;
pub mod param;
pub mod render;
pub mod sine;
pub mod source;
pub mod synth;
pub mod types;
pub mod view;
pub mod wave;

use vstd::prelude::*;

verus! {

/// The program: it has no state of its own.
#[derive(Clone, Copy, Debug, PartialEq, Eq, Structural)]
pub struct Runner {}

impl Runner {
    pub fn new() -> (runner: Self)
        ensures
            runner == (Runner {  }),
    {
        Self {  }
    }
}

} // verus!
