//! The parameters of a source that a modulator can address.

use vstd::prelude::*;

verus! {

/// How loud the source sounds.
pub const AMPLITUDE: u32 = 1000;

/// How fast the source oscillates.
pub const FREQUENCY: u32 = 1001;

} // verus!
