//! The low-frequency oscillator: it sways a parameter about the value that
//! the parameter had when the oscillator first touched it.

use vstd::prelude::*;
use crate::fixed::{clamp, floor_div, floor_rem, in_range, saturate, Fixed, ONE};
use crate::source::{source_models, sources_wf, NodeId, ParamId, Source};
use crate::wave::{lemma_sine_wave_bounds, sine, sine_wave};

verus! {

pub struct Lfo {
    sample_rate: u32,
    phase: i64,
    target_id: NodeId,
    param_id: ParamId,
    freq: Fixed,
    range: Fixed,
    offset: Fixed,
    base_freq: Option<Fixed>,
}

/// What a low-frequency oscillator is, as numbers.
pub struct LfoModel {
    pub sample_rate: int,
    /// The phase, in steps of which `sample_rate * ONE` make one turn.
    pub phase: int,
    pub target: int,
    pub param: ParamId,
    pub freq: int,
    pub range: int,
    pub offset: int,
    /// The value about which the parameter sways, once it has been seen.
    pub center: Option<int>,
}

impl LfoModel {
    pub open spec fn period(self) -> int {
        self.sample_rate * (ONE as int)
    }

    pub open spec fn wf(self) -> bool {
        &&& 0 < self.sample_rate <= u32::MAX
        &&& 0 <= self.target
        &&& 0 <= self.phase < self.period()
        &&& in_range(self.freq)
        &&& in_range(self.range)
        &&& in_range(self.offset)
        &&& match self.center {
            Some(c) => in_range(c),
            None => true,
        }
    }

    pub open spec fn fresh(sample_rate: int) -> LfoModel {
        LfoModel {
            sample_rate,
            phase: 0,
            target: 0,
            param: 0,
            freq: 0,
            range: 0,
            offset: 0,
            center: None,
        }
    }

    pub open spec fn configured(
        self,
        target: int,
        param: ParamId,
        freq: int,
        range: int,
        offset: int,
    ) -> LfoModel {
        LfoModel {
            target,
            param,
            freq: clamp(freq),
            range: clamp(range),
            offset: clamp(offset),
            ..self
        }
    }

    pub open spec fn center_given(self, seen: int) -> int {
        match self.center {
            Some(c) => c,
            None => seen,
        }
    }

    /// The phase one sample later.
    pub open spec fn next_phase(self) -> int {
        (self.phase + self.freq) % self.period()
    }

    /// The oscillator after a tick that found the target parameter at
    /// `seen`.
    pub open spec fn ticked(self, seen: int) -> LfoModel {
        LfoModel { phase: self.next_phase(), center: Some(self.center_given(seen)), ..self }
    }

    /// How far from the center that tick puts the parameter.
    pub open spec fn sway(self) -> int {
        sine_wave(self.next_phase(), self.period()) * self.range / (ONE as int) + self.offset
    }

    /// What that tick writes to the target parameter.
    pub open spec fn written(self, seen: int) -> int {
        clamp(self.center_given(seen) + self.sway())
    }

    /// The oscillator at the start of a note: back at the start of its turn,
    /// with its center forgotten.
    pub open spec fn triggered(self) -> LfoModel {
        LfoModel { phase: 0, center: None, ..self }
    }
}

/// The sway stays within the range of the oscillator about its offset.
pub proof fn lemma_sway_bounds(m: LfoModel)
    requires
        m.wf(),
    ensures
        m.range >= 0 ==> m.offset - m.range <= m.sway() <= m.offset + m.range,
        m.range < 0 ==> m.offset + m.range <= m.sway() <= m.offset - m.range,
{
    let one = ONE as int;
    let w = sine_wave(m.next_phase(), m.period());
    vstd::arithmetic::div_mod::lemma_mod_bound(m.phase + m.freq, m.period());
    lemma_sine_wave_bounds(m.next_phase(), m.period());
    let r = m.range;
    let a = if r < 0 {
        -r
    } else {
        r
    };
    assert(-a * one <= w * r <= a * one) by (nonlinear_arith)
        requires
            -one <= w <= one,
            a == r || a == -r,
            a >= 0,
    ;
    vstd::arithmetic::div_mod::lemma_div_is_ordered(-a * one, w * r, one);
    vstd::arithmetic::div_mod::lemma_div_is_ordered(w * r, a * one, one);
    vstd::arithmetic::div_mod::lemma_div_multiples_vanish(a, one);
    vstd::arithmetic::div_mod::lemma_div_multiples_vanish(-a, one);
    assert(a * one == one * a && -a * one == one * (-a)) by (nonlinear_arith);
}

impl View for Lfo {
    type V = LfoModel;

    closed spec fn view(&self) -> LfoModel {
        LfoModel {
            sample_rate: self.sample_rate as int,
            phase: self.phase as int,
            target: self.target_id as int,
            param: self.param_id,
            freq: self.freq as int,
            range: self.range as int,
            offset: self.offset as int,
            center: match self.base_freq {
                Some(c) => Some(c as int),
                None => None,
            },
        }
    }
}

impl Lfo {
    pub open spec fn wf(&self) -> bool {
        self@.wf()
    }

    pub fn new(sample_rate: u32) -> (lfo: Self)
        requires
            sample_rate > 0,
        ensures
            lfo@ == LfoModel::fresh(sample_rate as int),
            lfo.wf(),
    {
        Lfo {
            sample_rate,
            phase: 0,
            target_id: 0,
            param_id: 0,
            freq: 0,
            range: 0,
            offset: 0,
            base_freq: None,
        }
    }

    pub fn configure(
        &mut self,
        target_id: NodeId,
        param_id: ParamId,
        freq: Fixed,
        range: Fixed,
        offset: Fixed,
    )
        requires
            old(self).wf(),
        ensures
            final(self)@ == old(self)@.configured(
                target_id as int,
                param_id,
                freq as int,
                range as int,
                offset as int,
            ),
            final(self).wf(),
    {
        self.target_id = target_id;
        self.param_id = param_id;
        self.freq = saturate(freq as i128);
        self.range = saturate(range as i128);
        self.offset = saturate(offset as i128);
    }

    /// The place, among the sources, of the one this oscillator sways.
    pub fn target(&self) -> (id: NodeId)
        ensures
            id == self@.target,
    {
        self.target_id
    }

    /// One sample of the oscillator: moves its phase on, and writes the
    /// center plus the sway to the target parameter.
    pub fn tick(&mut self, sources: &mut Vec<Source>)
        requires
            old(self).wf(),
            old(self)@.target < old(sources).len(),
            sources_wf(source_models(old(sources)@)),
        ensures
            final(self)@ == old(self)@.ticked(
                source_models(old(sources)@)[old(self)@.target].param(old(self)@.param),
            ),
            final(self).wf(),
            source_models(final(sources)@) == source_models(old(sources)@).update(
                old(self)@.target,
                source_models(old(sources)@)[old(self)@.target].with_param(
                    old(self)@.param,
                    old(self)@.written(
                        source_models(old(sources)@)[old(self)@.target].param(old(self)@.param),
                    ),
                ),
            ),
            sources_wf(source_models(final(sources)@)),
            final(sources)@.len() == old(sources)@.len(),
    {
        let ghost before = source_models(sources@);
        assert(before[self.target_id as int].wf());
        let seen: Fixed = sources[self.target_id].get_param(self.param_id);
        let center: Fixed = match self.base_freq {
            Some(c) => c,
            None => seen,
        };
        self.base_freq = Some(center);
        let period: i64 = (self.sample_rate as i64) * ONE;
        let moved: i128 = (self.phase as i128) + (self.freq as i128);
        self.phase = floor_rem(moved, period as i128) as i64;
        let wave: Fixed = sine(self.phase, period);
        assert(-100_000_000_000_000_000_000 <= wave * self.range <= 100_000_000_000_000_000_000)
            by (nonlinear_arith)
            requires
                -100_000_000_000_000 <= self.range <= 100_000_000_000_000,
                -1_000_000 <= wave <= 1_000_000,
        ;
        let product: i128 = (wave as i128) * (self.range as i128);
        let swing: i128 = floor_div(product, ONE as i128);
        proof {
            crate::fixed::lemma_quotient_bound(product as int, ONE as int);
        }
        let value: Fixed = saturate(center as i128 + swing + self.offset as i128);
        let source = &mut sources[self.target_id];
        source.set_param(self.param_id, value);
        proof {
            let after = source_models(sources@);
            let expected = before.update(
                self.target_id as int,
                before[self.target_id as int].with_param(self.param_id, value as int),
            );
            assert(after =~= expected);
            assert forall|i: int| 0 <= i < after.len() implies (#[trigger] after[i]).wf() by {
                if i != self.target_id {
                    assert(before[i].wf());
                }
            }
        }
    }

    pub fn note_on(&mut self)
        requires
            old(self).wf(),
        ensures
            final(self)@ == old(self)@.triggered(),
            final(self).wf(),
    {
        self.phase = 0;
        self.base_freq = None;
    }

    pub fn note_off(&mut self)
        ensures
            *final(self) == *old(self),
    {
    }

    pub fn is_active(&self) -> (active: bool)
        ensures
            active,
    {
        true
    }
}

} // verus!
