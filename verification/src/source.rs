//! Sources: what makes the sound.

use vstd::prelude::*;
use crate::fixed::{in_range, Fixed};
use crate::sine::{Sine, SineModel};

verus! {

/// The place of a node among the nodes of its kind.
pub type NodeId = usize;

/// The name of a parameter of a source.
pub type ParamId = u32;

/// A sound generator.
#[derive(Debug)]
pub enum Source {
    Sine(Sine),
}

/// What a source is, as numbers.
pub enum SourceModel {
    Sine(SineModel),
}

impl SourceModel {
    pub open spec fn wf(self) -> bool {
        match self {
            SourceModel::Sine(s) => s.wf(),
        }
    }

    /// The source one sample later.
    pub open spec fn advanced(self) -> SourceModel {
        match self {
            SourceModel::Sine(s) => SourceModel::Sine(s.advanced()),
        }
    }

    /// What the source sounds in its present state.
    pub open spec fn output(self) -> int {
        match self {
            SourceModel::Sine(s) => s.output(),
        }
    }

    pub open spec fn param(self, id: ParamId) -> int {
        match self {
            SourceModel::Sine(s) => s.param(id),
        }
    }

    pub open spec fn with_param(self, id: ParamId, value: int) -> SourceModel {
        match self {
            SourceModel::Sine(s) => SourceModel::Sine(s.with_param(id, value)),
        }
    }

    pub open spec fn retuned(self, note: u8, velocity: u8) -> SourceModel {
        match self {
            SourceModel::Sine(s) => SourceModel::Sine(s.retuned(note, velocity)),
        }
    }
}

/// The sources of a list, each as numbers.
pub open spec fn source_models(sources: Seq<Source>) -> Seq<SourceModel> {
    Seq::new(sources.len(), |i: int| sources[i]@)
}

/// Whether every source of a list is well formed.
pub open spec fn sources_wf(sources: Seq<SourceModel>) -> bool {
    forall|i: int| 0 <= i < sources.len() ==> (#[trigger] sources[i]).wf()
}

impl View for Source {
    type V = SourceModel;

    open spec fn view(&self) -> SourceModel {
        match self {
            Source::Sine(s) => SourceModel::Sine(s@),
        }
    }
}

impl Source {
    pub open spec fn wf(&self) -> bool {
        self@.wf()
    }

    /// Renders one sample.
    pub fn next(&mut self) -> (sample: Fixed)
        requires
            old(self).wf(),
        ensures
            final(self)@ == old(self)@.advanced(),
            final(self).wf(),
            sample == final(self)@.output(),
            in_range(sample as int),
    {
        match self {
            Source::Sine(s) => s.next(),
        }
    }

    pub fn get_param(&self, param: ParamId) -> (value: Fixed)
        requires
            self.wf(),
        ensures
            value == self@.param(param),
            in_range(value as int),
    {
        match self {
            Source::Sine(s) => s.get_param(param),
        }
    }

    pub fn set_param(&mut self, param: ParamId, value: Fixed)
        requires
            old(self).wf(),
        ensures
            final(self)@ == old(self)@.with_param(param, value as int),
            final(self).wf(),
    {
        match self {
            Source::Sine(s) => s.set_param(param, value),
        }
    }

    /// Retunes and rescales the source for a new note.
    pub fn set(&mut self, note: u8, velocity: u8)
        requires
            old(self).wf(),
        ensures
            final(self)@ == old(self)@.retuned(note, velocity),
            final(self).wf(),
    {
        match self {
            Source::Sine(s) => s.set(note, velocity),
        }
    }
}

} // verus!
