//! A modulator that sets a parameter once and then leaves it alone.

use vstd::prelude::*;
use crate::fixed::{clamp, in_range, saturate, Fixed};
use crate::source::{source_models, sources_wf, NodeId, ParamId, Source, SourceModel};

verus! {

pub struct NoteFrequency {
    freq: Fixed,
    target_node: NodeId,
    target_param: ParamId,
    triggered: bool,
}

/// What the modulator is, as numbers.
pub struct NoteFrequencyModel {
    pub freq: int,
    pub target: int,
    pub param: ParamId,
    /// Whether the parameter has been set.
    pub triggered: bool,
}

impl NoteFrequencyModel {
    pub open spec fn wf(self) -> bool {
        0 <= self.target && in_range(self.freq)
    }

    pub open spec fn fresh() -> NoteFrequencyModel {
        NoteFrequencyModel { freq: 0, target: 0, param: 0, triggered: false }
    }

    pub open spec fn configured(self, target: int, param: ParamId, freq: int) -> NoteFrequencyModel {
        NoteFrequencyModel { target, param, freq: clamp(freq), ..self }
    }

    pub open spec fn ticked(self) -> NoteFrequencyModel {
        NoteFrequencyModel { triggered: true, ..self }
    }

    /// `sources` after a tick: the first tick sets the parameter of the
    /// target, every later one changes nothing.
    pub open spec fn modulated(self, sources: Seq<SourceModel>) -> Seq<SourceModel> {
        if self.triggered {
            sources
        } else {
            sources.update(self.target, sources[self.target].with_param(self.param, self.freq))
        }
    }
}

impl View for NoteFrequency {
    type V = NoteFrequencyModel;

    closed spec fn view(&self) -> NoteFrequencyModel {
        NoteFrequencyModel {
            freq: self.freq as int,
            target: self.target_node as int,
            param: self.target_param,
            triggered: self.triggered,
        }
    }
}

impl NoteFrequency {
    pub open spec fn wf(&self) -> bool {
        self@.wf()
    }

    pub fn new() -> (modulator: Self)
        ensures
            modulator@ == NoteFrequencyModel::fresh(),
            modulator.wf(),
    {
        NoteFrequency { freq: 0, target_node: 0, target_param: 0, triggered: false }
    }

    pub fn configure(&mut self, target_id: NodeId, param_id: ParamId, freq: Fixed)
        ensures
            final(self)@ == old(self)@.configured(target_id as int, param_id, freq as int),
            final(self).wf(),
    {
        self.target_node = target_id;
        self.target_param = param_id;
        self.freq = saturate(freq as i128);
    }

    pub fn tick(&mut self, sources: &mut Vec<Source>)
        requires
            old(self).wf(),
            old(self)@.target < old(sources).len(),
            sources_wf(source_models(old(sources)@)),
        ensures
            final(self)@ == old(self)@.ticked(),
            final(self).wf(),
            source_models(final(sources)@) == old(self)@.modulated(source_models(old(sources)@)),
            sources_wf(source_models(final(sources)@)),
            final(sources)@.len() == old(sources)@.len(),
    {
        if !self.triggered {
            let ghost before = source_models(sources@);
            assert(before[self.target_node as int].wf());
            let source = &mut sources[self.target_node];
            source.set_param(self.target_param, self.freq);
            self.triggered = true;
            proof {
                let after = source_models(sources@);
                assert(after =~= old(self)@.modulated(before));
                assert forall|i: int| 0 <= i < after.len() implies (#[trigger] after[i]).wf() by {
                    if i != self.target_node {
                        assert(before[i].wf());
                    }
                }
            }
        }
    }

    pub fn note_on(&mut self)
        ensures
            *final(self) == *old(self),
    {
    }

    pub fn note_off(&mut self)
        ensures
            *final(self) == *old(self),
    {
    }

    pub fn is_active(&self) -> (active: bool)
        ensures
            active,
    {
        true
    }
}

} // verus!
