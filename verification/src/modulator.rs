//! Modulators: what rewrites a parameter of a source once per sample.

use vstd::prelude::*;
use crate::adsr::{Adsr, AdsrModel};
use crate::lfo::{Lfo, LfoModel};
use crate::source::{source_models, sources_wf, NodeId, ParamId, Source, SourceModel};

verus! {

/// A modulator of one of the kinds that a patch can hold.
pub enum Modulator {
    Lfo(Lfo),
    Adsr(Adsr),
}

/// What a modulator is, as numbers.
pub enum ModulatorModel {
    Lfo(LfoModel),
    Adsr(AdsrModel),
}

impl ModulatorModel {
    pub open spec fn wf(self) -> bool {
        match self {
            ModulatorModel::Lfo(m) => m.wf(),
            ModulatorModel::Adsr(m) => m.wf(),
        }
    }

    /// The place, among the sources, of the one that is modulated.
    pub open spec fn target(self) -> int {
        match self {
            ModulatorModel::Lfo(m) => m.target,
            ModulatorModel::Adsr(m) => m.target,
        }
    }

    /// The parameter that is modulated.
    pub open spec fn param(self) -> ParamId {
        match self {
            ModulatorModel::Lfo(m) => m.param,
            ModulatorModel::Adsr(m) => m.param,
        }
    }

    /// The modulator after a tick that found its parameter at `seen`.
    pub open spec fn ticked(self, seen: int) -> ModulatorModel {
        match self {
            ModulatorModel::Lfo(m) => ModulatorModel::Lfo(m.ticked(seen)),
            ModulatorModel::Adsr(m) => ModulatorModel::Adsr(m.ticked(seen)),
        }
    }

    /// What that tick writes to the parameter.
    pub open spec fn written(self, seen: int) -> int {
        match self {
            ModulatorModel::Lfo(m) => m.written(seen),
            ModulatorModel::Adsr(m) => m.written(seen),
        }
    }

    /// What the modulator finds its parameter at, among `sources`.
    pub open spec fn seen(self, sources: Seq<SourceModel>) -> int {
        sources[self.target()].param(self.param())
    }

    /// The modulator after a tick on `sources`.
    pub open spec fn ticked_on(self, sources: Seq<SourceModel>) -> ModulatorModel {
        self.ticked(self.seen(sources))
    }

    /// `sources` after a tick of the modulator: the target has its parameter
    /// rewritten, the others are as they were.
    pub open spec fn modulated(self, sources: Seq<SourceModel>) -> Seq<SourceModel> {
        sources.update(
            self.target(),
            sources[self.target()].with_param(self.param(), self.written(self.seen(sources))),
        )
    }

    /// The modulator at the start of a note.
    pub open spec fn triggered(self) -> ModulatorModel {
        match self {
            ModulatorModel::Lfo(m) => ModulatorModel::Lfo(m.triggered()),
            ModulatorModel::Adsr(m) => ModulatorModel::Adsr(m.triggered()),
        }
    }

    /// The modulator at the end of a note.
    pub open spec fn let_go(self) -> ModulatorModel {
        match self {
            ModulatorModel::Lfo(m) => ModulatorModel::Lfo(m),
            ModulatorModel::Adsr(m) => ModulatorModel::Adsr(m.let_go()),
        }
    }

    pub open spec fn is_active(self) -> bool {
        match self {
            ModulatorModel::Lfo(_) => true,
            ModulatorModel::Adsr(m) => m.is_active(),
        }
    }

    /// Whether the modulator has run its course; one that has no course has.
    pub open spec fn is_released(self) -> bool {
        match self {
            ModulatorModel::Lfo(_) => true,
            ModulatorModel::Adsr(m) => m.is_released(),
        }
    }

    /// Whether the modulator holds its parameter at silence; one that has no
    /// course does not stand in the way.
    pub open spec fn is_silent(self) -> bool {
        match self {
            ModulatorModel::Lfo(_) => true,
            ModulatorModel::Adsr(m) => m.is_silent(),
        }
    }
}

impl View for Modulator {
    type V = ModulatorModel;

    open spec fn view(&self) -> ModulatorModel {
        match self {
            Modulator::Lfo(m) => ModulatorModel::Lfo(m@),
            Modulator::Adsr(m) => ModulatorModel::Adsr(m@),
        }
    }
}

/// The modulators of a list, each as numbers.
pub open spec fn modulator_models(modulators: Seq<Modulator>) -> Seq<ModulatorModel> {
    Seq::new(modulators.len(), |i: int| modulators[i]@)
}

impl Modulator {
    pub open spec fn wf(&self) -> bool {
        self@.wf()
    }

    pub fn target(&self) -> (id: NodeId)
        ensures
            id == self@.target(),
    {
        match self {
            Modulator::Lfo(m) => m.target(),
            Modulator::Adsr(m) => m.target(),
        }
    }

    /// One sample of the modulator.
    pub fn tick(&mut self, sources: &mut Vec<Source>)
        requires
            old(self).wf(),
            old(self)@.target() < old(sources).len(),
            sources_wf(source_models(old(sources)@)),
        ensures
            final(self)@ == old(self)@.ticked_on(source_models(old(sources)@)),
            final(self).wf(),
            source_models(final(sources)@) == old(self)@.modulated(source_models(old(sources)@)),
            sources_wf(source_models(final(sources)@)),
            final(sources)@.len() == old(sources)@.len(),
    {
        match self {
            Modulator::Lfo(m) => m.tick(sources),
            Modulator::Adsr(m) => m.tick(sources),
        }
    }

    pub fn note_on(&mut self)
        requires
            old(self).wf(),
        ensures
            final(self)@ == old(self)@.triggered(),
            final(self).wf(),
    {
        match self {
            Modulator::Lfo(m) => m.note_on(),
            Modulator::Adsr(m) => m.note_on(),
        }
    }

    pub fn note_off(&mut self)
        requires
            old(self).wf(),
        ensures
            final(self)@ == old(self)@.let_go(),
            final(self).wf(),
    {
        match self {
            Modulator::Lfo(m) => m.note_off(),
            Modulator::Adsr(m) => m.note_off(),
        }
    }

    pub fn is_active(&self) -> (active: bool)
        ensures
            active == self@.is_active(),
    {
        match self {
            Modulator::Lfo(m) => m.is_active(),
            Modulator::Adsr(m) => m.is_active(),
        }
    }

    pub fn is_released(&self) -> (released: bool)
        ensures
            released == self@.is_released(),
    {
        match self {
            Modulator::Lfo(_) => true,
            Modulator::Adsr(m) => m.is_released(),
        }
    }

    pub fn is_silent(&self) -> (silent: bool)
        ensures
            silent == self@.is_silent(),
    {
        match self {
            Modulator::Lfo(_) => true,
            Modulator::Adsr(m) => m.is_silent(),
        }
    }
}

} // verus!
