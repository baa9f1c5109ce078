//! The sine oscillator.

use vstd::prelude::*;
use crate::fixed::{clamp, floor_div, floor_rem, in_range, saturate, Fixed, ONE};
use crate::param::{AMPLITUDE, FREQUENCY};
use crate::source::ParamId;
use crate::wave::{
    amplitude_of_velocity, frequency_of_note, lemma_sine_wave_bounds, note_frequency, sine,
    sine_wave, velocity_amplitude,
};

verus! {

/// An oscillator that holds its phase as a whole number of steps, of which
/// `sample_rate * ONE` make one turn, so that one sample moves it on by
/// exactly its frequency.
#[derive(Debug)]
pub struct Sine {
    amplitude: Fixed,
    freq: Fixed,
    phase: i64,
    sample_rate: u32,
}

/// What a sine oscillator is, as numbers.
pub struct SineModel {
    pub amplitude: int,
    pub freq: int,
    pub phase: int,
    pub sample_rate: int,
}

impl SineModel {
    /// The number of phase steps in one turn.
    pub open spec fn period(self) -> int {
        self.sample_rate * (ONE as int)
    }

    pub open spec fn wf(self) -> bool {
        &&& 0 < self.sample_rate <= u32::MAX
        &&& in_range(self.amplitude)
        &&& in_range(self.freq)
        &&& 0 <= self.phase < self.period()
    }

    /// A new oscillator: full amplitude, concert pitch, at the start of its
    /// turn.
    pub open spec fn fresh(sample_rate: int) -> SineModel {
        SineModel { amplitude: ONE as int, freq: 440 * (ONE as int), phase: 0, sample_rate }
    }

    /// The oscillator one sample later: the phase has moved on by the
    /// frequency and is taken back into the turn.
    pub open spec fn advanced(self) -> SineModel {
        SineModel { phase: (self.phase + self.freq) % self.period(), ..self }
    }

    /// What the oscillator sounds at its phase.
    pub open spec fn output(self) -> int {
        self.amplitude * sine_wave(self.phase, self.period()) / (ONE as int)
    }

    /// The value of a parameter; zero for one that the oscillator lacks.
    pub open spec fn param(self, id: ParamId) -> int {
        if id == FREQUENCY {
            self.freq
        } else if id == AMPLITUDE {
            self.amplitude
        } else {
            0
        }
    }

    /// The oscillator with a parameter set; unchanged for one that it lacks.
    pub open spec fn with_param(self, id: ParamId, value: int) -> SineModel {
        if id == FREQUENCY {
            SineModel { freq: clamp(value), ..self }
        } else if id == AMPLITUDE {
            SineModel { amplitude: clamp(value), ..self }
        } else {
            self
        }
    }

    /// The oscillator tuned to a note and scaled to a velocity.
    pub open spec fn retuned(self, note: u8, velocity: u8) -> SineModel {
        SineModel {
            freq: note_frequency(note as int),
            amplitude: velocity_amplitude(velocity as int),
            ..self
        }
    }
}

impl View for Sine {
    type V = SineModel;

    closed spec fn view(&self) -> SineModel {
        SineModel {
            amplitude: self.amplitude as int,
            freq: self.freq as int,
            phase: self.phase as int,
            sample_rate: self.sample_rate as int,
        }
    }
}

/// The magnitude of the amplitude.
pub open spec fn loudness(s: SineModel) -> int {
    if s.amplitude < 0 {
        -s.amplitude
    } else {
        s.amplitude
    }
}

/// What the oscillator sounds is never louder than its amplitude.
pub proof fn lemma_output_bounds(s: SineModel)
    requires
        s.wf(),
    ensures
        -loudness(s) <= s.output() <= loudness(s),
{
    let w = sine_wave(s.phase, s.period());
    let a = s.amplitude;
    let one = ONE as int;
    lemma_sine_wave_bounds(s.phase, s.period());
    let m = loudness(s);
    assert(-m * one <= a * w <= m * one) by (nonlinear_arith)
        requires
            -one <= w <= one,
            -m <= a <= m,
            0 <= m,
    ;
    vstd::arithmetic::div_mod::lemma_div_is_ordered(-m * one, a * w, one);
    vstd::arithmetic::div_mod::lemma_div_is_ordered(a * w, m * one, one);
    vstd::arithmetic::div_mod::lemma_div_multiples_vanish(m, one);
    vstd::arithmetic::div_mod::lemma_div_multiples_vanish(-m, one);
    assert(m * one == one * m && -m * one == one * (-m)) by (nonlinear_arith);
}

impl Sine {
    pub open spec fn wf(&self) -> bool {
        self@.wf()
    }

    pub fn new(sample_rate: u32) -> (s: Self)
        requires
            sample_rate > 0,
        ensures
            s@ == SineModel::fresh(sample_rate as int),
            s.wf(),
    {
        Sine { amplitude: ONE, freq: 440 * ONE, phase: 0, sample_rate }
    }

    /// Moves on by one sample and returns what the oscillator then sounds.
    pub fn next(&mut self) -> (sample: Fixed)
        requires
            old(self).wf(),
        ensures
            final(self)@ == old(self)@.advanced(),
            final(self).wf(),
            sample == final(self)@.output(),
            in_range(sample as int),
    {
        let period: i64 = (self.sample_rate as i64) * ONE;
        let moved: i128 = (self.phase as i128) + (self.freq as i128);
        let phase: i128 = floor_rem(moved, period as i128);
        self.phase = phase as i64;
        let wave: Fixed = sine(self.phase, period);
        proof {
            lemma_output_bounds(self@);
        }
        assert(-100_000_000_000_000_000_000 <= self.amplitude * wave
            <= 100_000_000_000_000_000_000) by (nonlinear_arith)
            requires
                -100_000_000_000_000 <= self.amplitude <= 100_000_000_000_000,
                -1_000_000 <= wave <= 1_000_000,
        ;
        let product: i128 = (self.amplitude as i128) * (wave as i128);
        floor_div(product, ONE as i128) as i64
    }

    /// Tunes the oscillator to a note and scales it to a velocity.
    pub fn set(&mut self, note: u8, velocity: u8)
        requires
            old(self).wf(),
        ensures
            final(self)@ == old(self)@.retuned(note, velocity),
            final(self).wf(),
    {
        self.freq = frequency_of_note(note);
        self.amplitude = amplitude_of_velocity(velocity);
    }

    pub fn get_param(&self, param: ParamId) -> (value: Fixed)
        ensures
            value == self@.param(param),
    {
        if param == FREQUENCY {
            self.freq
        } else if param == AMPLITUDE {
            self.amplitude
        } else {
            0
        }
    }

    pub fn set_param(&mut self, param: ParamId, value: Fixed)
        requires
            old(self).wf(),
        ensures
            final(self)@ == old(self)@.with_param(param, value as int),
            final(self).wf(),
    {
        if param == FREQUENCY {
            self.freq = saturate(value as i128);
        } else if param == AMPLITUDE {
            self.amplitude = saturate(value as i128);
        }
    }
}

} // verus!
