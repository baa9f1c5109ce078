//! Filling an output buffer with stereo frames.
//!
//! A frame is two samples, left then right. The left sample is what the
//! instruments sound; the right is a fifth of it.

use vstd::prelude::*;
use crate::fixed::{floor_div, Fixed};
use crate::instrument_manager::{InstrumentManager, ManagerModel};

verus! {

/// The right sample that goes with a left sample.
pub open spec fn right_of(left: int) -> int {
    left / 5
}

impl ManagerModel {
    /// The manager `count` samples later.
    pub open spec fn rendered_times(self, count: nat) -> ManagerModel
        decreases count,
    {
        if count == 0 {
            self
        } else {
            self.rendered_times((count - 1) as nat).rendered()
        }
    }
}

/// The buffer that `frames` frames rendered from `start` fill.
pub open spec fn frames_of(start: ManagerModel, frames: nat) -> Seq<int> {
    Seq::new(
        2 * frames,
        |i: int|
            if i % 2 == 0 {
                start.rendered_times((i / 2 + 1) as nat).sounding()
            } else {
                right_of(start.rendered_times((i / 2 + 1) as nat).sounding())
            },
    )
}

/// Fills a buffer of whole frames, rendering one sample for each frame.
pub fn fill_frames(manager: &mut InstrumentManager, buffer: &mut Vec<Fixed>)
    requires
        old(manager).wf(),
        old(buffer)@.len() % 2 == 0,
    ensures
        final(manager).wf(),
        final(manager)@ == old(manager)@.rendered_times((old(buffer)@.len() / 2) as nat),
        final(buffer)@.len() == old(buffer)@.len(),
        final(buffer)@.map_values(|x: Fixed| x as int) == frames_of(
            old(manager)@,
            (old(buffer)@.len() / 2) as nat,
        ),
{
    let ghost start = manager@;
    let frames: usize = buffer.len() / 2;
    let mut k: usize = 0;
    while k < frames
        invariant
            k <= frames,
            buffer@.len() == 2 * frames,
            2 * frames <= usize::MAX,
            manager.wf(),
            manager@ == start.rendered_times(k as nat),
            forall|i: int|
                0 <= i < 2 * k ==> buffer@[i] as int == (if i % 2 == 0 {
                    start.rendered_times((i / 2 + 1) as nat).sounding()
                } else {
                    right_of(start.rendered_times((i / 2 + 1) as nat).sounding())
                }),
        decreases frames - k,
    {
        let sample: Fixed = manager.next();
        let right: Fixed = floor_div(sample as i128, 5) as i64;
        buffer[2 * k] = sample;
        buffer[2 * k + 1] = right;
        k = k + 1;
    }
    assert(buffer@.map_values(|x: Fixed| x as int) =~= frames_of(start, frames as nat));
}

} // verus!
