//! Instruments: one live voice of a patch.

use vstd::prelude::*;
use crate::adsr::{Adsr, AdsrModel};
use crate::fixed::{floor_div, in_range, Fixed, LIMIT};
use crate::lfo::{Lfo, LfoModel};
use crate::modulator::{modulator_models, Modulator, ModulatorModel};
use crate::graph::{
    blank, half_wired, instantiated, lemma_half_wired_wf, lemma_id_in_range, modulator_defs,
    node_id, source_count,
};
use crate::node::{NodeDef, Patch, PatchError};
use crate::sine::{Sine, SineModel};
use crate::source::{source_models, sources_wf, NodeId, ParamId, Source, SourceModel};

verus! {

pub struct Instrument {
    sample_rate: u32,
    sources: Vec<Source>,
    modulators: Vec<Modulator>,
}

/// What an instrument is, as numbers.
pub struct InstrumentModel {
    pub sample_rate: int,
    pub sources: Seq<SourceModel>,
    pub modulators: Seq<ModulatorModel>,
}

/// The sum of what the first `n` of `sources` sound.
pub open spec fn total_output(sources: Seq<SourceModel>, n: nat) -> int
    decreases n,
{
    if n == 0 {
        0
    } else {
        total_output(sources, (n - 1) as nat) + sources[n - 1].output()
    }
}

/// The mean of `count` values that add up to `sum`, rounded down; zero where
/// there are none.
pub open spec fn mean(sum: int, count: int) -> int {
    if count <= 0 {
        0
    } else {
        sum / count
    }
}

impl InstrumentModel {
    /// Every part is well formed.
    pub open spec fn parts_wf(self) -> bool {
        &&& 0 < self.sample_rate <= u32::MAX
        &&& sources_wf(self.sources)
        &&& forall|i: int| 0 <= i < self.modulators.len() ==> (#[trigger] self.modulators[i]).wf()
    }

    /// Every part is well formed, and every modulator aims at a source.
    pub open spec fn wf(self) -> bool {
        &&& self.parts_wf()
        &&& forall|i: int|
            0 <= i < self.modulators.len() ==> 0 <= (#[trigger] self.modulators[i]).target()
                < self.sources.len()
    }

    /// An instrument without nodes.
    pub open spec fn empty(sample_rate: int) -> InstrumentModel {
        InstrumentModel { sample_rate, sources: Seq::empty(), modulators: Seq::empty() }
    }

    /// The instrument after the first `n` modulators have ticked, in the
    /// order in which they were declared.
    pub open spec fn modulated(self, n: nat) -> InstrumentModel
        decreases n,
    {
        if n == 0 {
            self
        } else {
            let before = self.modulated((n - 1) as nat);
            let m = before.modulators[n - 1];
            InstrumentModel {
                sources: m.modulated(before.sources),
                modulators: before.modulators.update(n - 1, m.ticked_on(before.sources)),
                ..before
            }
        }
    }

    /// The instrument one sample later: every modulator has ticked, then
    /// every source has moved on.
    pub open spec fn rendered(self) -> InstrumentModel {
        let ticked = self.modulated(self.modulators.len());
        InstrumentModel {
            sources: Seq::new(ticked.sources.len(), |i: int| ticked.sources[i].advanced()),
            ..ticked
        }
    }

    /// What the instrument sounds in its present state: the mean of what its
    /// sources sound, and zero where it has none.
    pub open spec fn sounding(self) -> int {
        mean(total_output(self.sources, self.sources.len()), self.sources.len() as int)
    }

    /// The instrument at the start of a note.
    pub open spec fn triggered(self, note: u8, velocity: u8) -> InstrumentModel {
        InstrumentModel {
            sources: Seq::new(
                self.sources.len(),
                |i: int| self.sources[i].retuned(note, velocity),
            ),
            modulators: Seq::new(self.modulators.len(), |i: int| self.modulators[i].triggered()),
            ..self
        }
    }

    /// The instrument at the end of a note.
    pub open spec fn let_go(self) -> InstrumentModel {
        InstrumentModel {
            modulators: Seq::new(self.modulators.len(), |i: int| self.modulators[i].let_go()),
            ..self
        }
    }

    /// The instrument with the modulator at place `id` configured, if that
    /// is an oscillator; unchanged if it is not.
    pub open spec fn lfo_configured(
        self,
        id: int,
        target: int,
        param: ParamId,
        freq: int,
        depth: int,
        offset: int,
    ) -> InstrumentModel {
        match self.modulators[id] {
            ModulatorModel::Lfo(lfo) => InstrumentModel {
                modulators: self.modulators.update(
                    id,
                    ModulatorModel::Lfo(lfo.configured(target, param, freq, depth, offset)),
                ),
                ..self
            },
            _ => self,
        }
    }

    /// The instrument with the modulator at place `id` configured, if that
    /// is an envelope; unchanged if it is not.
    pub open spec fn adsr_configured(
        self,
        id: int,
        target: int,
        param: ParamId,
        attack: int,
        decay: int,
        sustain: int,
        release: int,
    ) -> InstrumentModel {
        match self.modulators[id] {
            ModulatorModel::Adsr(adsr) => InstrumentModel {
                modulators: self.modulators.update(
                    id,
                    ModulatorModel::Adsr(
                        adsr.configured(target, param, attack, decay, sustain, release),
                    ),
                ),
                ..self
            },
            _ => self,
        }
    }

    /// Whether every modulator has run its course.
    pub open spec fn is_released(self) -> bool {
        forall|i: int| 0 <= i < self.modulators.len() ==> (#[trigger] self.modulators[i]).is_released()
    }

    /// Whether every modulator holds its parameter at silence.
    pub open spec fn is_silent(self) -> bool {
        forall|i: int| 0 <= i < self.modulators.len() ==> (#[trigger] self.modulators[i]).is_silent()
    }
}

impl View for Instrument {
    type V = InstrumentModel;

    closed spec fn view(&self) -> InstrumentModel {
        InstrumentModel {
            sample_rate: self.sample_rate as int,
            sources: source_models(self.sources@),
            modulators: modulator_models(self.modulators@),
        }
    }
}

/// The ticks of the modulators keep an instrument well formed, and change
/// neither how many parts it has nor where a modulator aims.
pub proof fn lemma_modulated_wf(m: InstrumentModel, n: nat)
    requires
        m.wf(),
        n <= m.modulators.len(),
    ensures
        m.modulated(n).wf(),
        m.modulated(n).sample_rate == m.sample_rate,
        m.modulated(n).sources.len() == m.sources.len(),
        m.modulated(n).modulators.len() == m.modulators.len(),
        forall|j: int| n <= j < m.modulators.len() ==> m.modulated(n).modulators[j] == m.modulators[j],
        forall|j: int|
            0 <= j < m.modulators.len() ==> (#[trigger] m.modulated(n).modulators[j]).target()
                == m.modulators[j].target(),
    decreases n,
{
    if n > 0 {
        lemma_modulated_wf(m, (n - 1) as nat);
        let before = m.modulated((n - 1) as nat);
        let cur = before.modulators[n - 1];
        let after = m.modulated(n);
        assert(cur.wf());
        assert(before.sources[cur.target()].wf());
        lemma_tick_wf(cur, before.sources);
        assert forall|i: int| 0 <= i < after.sources.len() implies (#[trigger] after.sources[i]).wf() by {
            if i != cur.target() {
                assert(before.sources[i].wf());
            }
        }
        assert forall|i: int| 0 <= i < after.modulators.len() implies {
            &&& (#[trigger] after.modulators[i]).wf()
            &&& 0 <= after.modulators[i].target() < after.sources.len()
        } by {
            if i != n - 1 {
                assert(before.modulators[i].wf());
            }
        }
    }
}

/// A tick keeps a modulator and its target well formed, and aimed as before.
pub proof fn lemma_tick_wf(m: ModulatorModel, sources: Seq<SourceModel>)
    requires
        m.wf(),
        0 <= m.target() < sources.len(),
        sources[m.target()].wf(),
    ensures
        m.ticked_on(sources).wf(),
        m.ticked_on(sources).target() == m.target(),
        m.modulated(sources)[m.target()].wf(),
        m.modulated(sources).len() == sources.len(),
{
    let seen = m.seen(sources);
    match m {
        ModulatorModel::Lfo(l) => {
            vstd::arithmetic::div_mod::lemma_mod_bound(l.phase + l.freq, l.period());
        },
        ModulatorModel::Adsr(a) => {
            crate::adsr::lemma_stepped_wf(a);
        },
    }
}

impl Instrument {
    pub open spec fn wf(&self) -> bool {
        self@.wf()
    }

    pub fn new(sample_rate: u32) -> (instrument: Self)
        requires
            sample_rate > 0,
        ensures
            instrument@ == InstrumentModel::empty(sample_rate as int),
            instrument.wf(),
    {
        let instrument = Instrument { sample_rate, sources: Vec::new(), modulators: Vec::new() };
        assert(instrument@.sources =~= Seq::empty());
        assert(instrument@.modulators =~= Seq::empty());
        instrument
    }

    /// Builds the instrument that a patch describes, or says what is wrong
    /// with the patch.
    ///
    /// A first pass makes every node, in document order, and notes the id
    /// that each is given. A second pass configures every modulator and aims
    /// it at the id of the node that its definition names.
    pub fn from_patch(patch: &Patch) -> (r: Result<Instrument, PatchError>)
        ensures
            match r {
                Ok(instrument) => {
                    &&& patch.valid()
                    &&& instrument@ == instantiated(patch.sample_rate as int, patch.nodes@)
                    &&& instrument.wf()
                },
                Err(e) => patch.fault() == Some(e),
            },
    {
        match patch.validate() {
            Err(e) => {
                return Err(e);
            },
            Ok(_) => {},
        }
        let ghost nodes = patch.nodes@;
        let ghost rate = patch.sample_rate as int;
        let mut instrument = Instrument::new(patch.sample_rate);
        let n: usize = patch.nodes.len();
        let mut node_ids: Vec<NodeId> = Vec::with_capacity(n);
        let mut i: usize = 0;
        while i < n
            invariant
                i <= n,
                n == nodes.len(),
                nodes == patch.nodes@,
                rate == patch.sample_rate,
                instrument@.parts_wf(),
                instrument@.sample_rate == rate,
                instrument@.sources =~= Seq::new(
                    source_count(nodes, i as nat),
                    |k: int| SourceModel::Sine(SineModel::fresh(rate)),
                ),
                instrument@.modulators =~= Seq::new(
                    modulator_defs(nodes, i as nat).len(),
                    |k: int| blank(rate, modulator_defs(nodes, i as nat)[k]),
                ),
                node_ids@.len() == i,
                forall|p: int| 0 <= p < i ==> node_ids@[p] == node_id(nodes, p),
            decreases n - i,
        {
            let id: NodeId = match &patch.nodes[i] {
                NodeDef::Sine(_) => instrument.add_sine(),
                NodeDef::Lfo(_) => instrument.add_lfo(),
                NodeDef::Adsr(_) => instrument.add_adsr(),
            };
            node_ids.push(id);
            i = i + 1;
        }
        proof {
            assert(instrument@ =~= half_wired(rate, nodes, 0)) by {
                assert(instrument@.modulators =~= half_wired(rate, nodes, 0).modulators);
            }
            lemma_half_wired_wf(rate, nodes, 0);
        }
        let mut i: usize = 0;
        while i < n
            invariant
                i <= n,
                n == nodes.len(),
                nodes == patch.nodes@,
                rate == patch.sample_rate,
                patch.valid(),
                instrument@ == half_wired(rate, nodes, i as nat),
                instrument.wf(),
                node_ids@.len() == n,
                forall|p: int| 0 <= p < n ==> node_ids@[p] == node_id(nodes, p),
            decreases n - i,
        {
            proof {
                lemma_id_in_range(nodes, i as int);
                if !nodes[i as int].is_source() {
                    patch.lemma_valid_targets(i as int);
                    lemma_id_in_range(nodes, nodes[i as int].target());
                }
                lemma_half_wired_wf(rate, nodes, (i + 1) as nat);
            }
            let id: NodeId = node_ids[i];
            match &patch.nodes[i] {
                NodeDef::Lfo(def) => {
                    let target: NodeId = node_ids[def.target_node];
                    instrument.configure_lfo(
                        id,
                        target,
                        def.target_param,
                        def.freq,
                        def.depth,
                        def.offset,
                    );
                },
                NodeDef::Adsr(def) => {
                    let target: NodeId = node_ids[def.target_node];
                    instrument.configure_adsr(
                        id,
                        target,
                        def.target_param,
                        def.attack,
                        def.decay,
                        def.sustain,
                        def.release,
                    );
                },
                NodeDef::Sine(_) => {},
            }
            proof {
                let goal = half_wired(rate, nodes, (i + 1) as nat);
                assert(instrument@.modulators =~= goal.modulators);
                assert(instrument@.sources =~= goal.sources);
            }
            i = i + 1;
        }
        proof {
            let goal = instantiated(rate, nodes);
            assert(instrument@.modulators =~= goal.modulators);
            assert(instrument@.sources =~= goal.sources);
        }
        Ok(instrument)
    }

    fn add_sine(&mut self) -> (id: NodeId)
        requires
            old(self)@.parts_wf(),
        ensures
            id == old(self)@.sources.len(),
            final(self)@ == (InstrumentModel {
                sources: old(self)@.sources.push(
                    SourceModel::Sine(SineModel::fresh(old(self)@.sample_rate)),
                ),
                ..old(self)@
            }),
            final(self)@.parts_wf(),
    {
        let ghost before = self@;
        let id: usize = self.sources.len();
        self.sources.push(Source::Sine(Sine::new(self.sample_rate)));
        proof {
            let fresh = SourceModel::Sine(SineModel::fresh(before.sample_rate));
            assert(self@.sources =~= before.sources.push(fresh));
            assert forall|i: int| 0 <= i < self@.sources.len() implies (#[trigger] self@.sources[i]).wf() by {
                if i < before.sources.len() {
                    assert(before.sources[i].wf());
                }
            }
            assert forall|i: int| 0 <= i < self@.modulators.len() implies (
            #[trigger] self@.modulators[i]).wf() by {
                assert(before.modulators[i].wf());
            }
        }
        id
    }

    /// Adds an oscillator that is yet to be configured.
    fn add_lfo(&mut self) -> (id: NodeId)
        requires
            old(self)@.parts_wf(),
        ensures
            id == old(self)@.modulators.len(),
            final(self)@ == (InstrumentModel {
                modulators: old(self)@.modulators.push(
                    ModulatorModel::Lfo(LfoModel::fresh(old(self)@.sample_rate)),
                ),
                ..old(self)@
            }),
            final(self)@.parts_wf(),
    {
        let ghost before = self@;
        let id: usize = self.modulators.len();
        self.modulators.push(Modulator::Lfo(Lfo::new(self.sample_rate)));
        proof {
            let fresh = ModulatorModel::Lfo(LfoModel::fresh(before.sample_rate));
            assert(self@.modulators =~= before.modulators.push(fresh));
            assert forall|i: int| 0 <= i < self@.modulators.len() implies (
            #[trigger] self@.modulators[i]).wf() by {
                if i < before.modulators.len() {
                    assert(before.modulators[i].wf());
                }
            }
        }
        id
    }

    /// Adds an envelope that is yet to be configured.
    fn add_adsr(&mut self) -> (id: NodeId)
        requires
            old(self)@.parts_wf(),
        ensures
            id == old(self)@.modulators.len(),
            final(self)@ == (InstrumentModel {
                modulators: old(self)@.modulators.push(
                    ModulatorModel::Adsr(AdsrModel::fresh(old(self)@.sample_rate)),
                ),
                ..old(self)@
            }),
            final(self)@.parts_wf(),
    {
        let ghost before = self@;
        let id: usize = self.modulators.len();
        self.modulators.push(Modulator::Adsr(Adsr::new(self.sample_rate)));
        proof {
            let fresh = ModulatorModel::Adsr(AdsrModel::fresh(before.sample_rate));
            assert(self@.modulators =~= before.modulators.push(fresh));
            assert forall|i: int| 0 <= i < self@.modulators.len() implies (
            #[trigger] self@.modulators[i]).wf() by {
                if i < before.modulators.len() {
                    assert(before.modulators[i].wf());
                }
            }
        }
        id
    }

    /// Configures the modulator with id `lfo_id`, if it is an oscillator.
    pub fn configure_lfo(
        &mut self,
        lfo_id: NodeId,
        target_id: NodeId,
        target_param: ParamId,
        freq: Fixed,
        depth: Fixed,
        offset: Fixed,
    )
        requires
            old(self).wf(),
            lfo_id < old(self)@.modulators.len(),
            target_id < old(self)@.sources.len(),
        ensures
            final(self)@ == old(self)@.lfo_configured(
                lfo_id as int,
                target_id as int,
                target_param,
                freq as int,
                depth as int,
                offset as int,
            ),
            final(self).wf(),
    {
        let ghost before = self@;
        assert(before.modulators[lfo_id as int].wf());
        match &mut self.modulators[lfo_id] {
            Modulator::Lfo(lfo) => {
                lfo.configure(target_id, target_param, freq, depth, offset);
            },
            Modulator::Adsr(_) => {},
        }
        proof {
            let goal = before.lfo_configured(
                lfo_id as int,
                target_id as int,
                target_param,
                freq as int,
                depth as int,
                offset as int,
            );
            assert(self@.modulators =~= goal.modulators);
            assert(self@.sources =~= goal.sources);
            assert forall|i: int| 0 <= i < self@.modulators.len() implies {
                &&& (#[trigger] self@.modulators[i]).wf()
                &&& 0 <= self@.modulators[i].target() < self@.sources.len()
            } by {
                assert(before.modulators[i].wf());
            }
        }
    }

    /// Configures the modulator with id `adsr_id`, if it is an envelope.
    pub fn configure_adsr(
        &mut self,
        adsr_id: NodeId,
        target_id: NodeId,
        target_param: ParamId,
        a: Fixed,
        d: Fixed,
        s: Fixed,
        r: Fixed,
    )
        requires
            old(self).wf(),
            adsr_id < old(self)@.modulators.len(),
            target_id < old(self)@.sources.len(),
        ensures
            final(self)@ == old(self)@.adsr_configured(
                adsr_id as int,
                target_id as int,
                target_param,
                a as int,
                d as int,
                s as int,
                r as int,
            ),
            final(self).wf(),
    {
        let ghost before = self@;
        assert(before.modulators[adsr_id as int].wf());
        match &mut self.modulators[adsr_id] {
            Modulator::Adsr(adsr) => {
                adsr.configure(target_id, target_param, a, d, s, r);
            },
            Modulator::Lfo(_) => {},
        }
        proof {
            let goal = before.adsr_configured(
                adsr_id as int,
                target_id as int,
                target_param,
                a as int,
                d as int,
                s as int,
                r as int,
            );
            assert(self@.modulators =~= goal.modulators);
            assert(self@.sources =~= goal.sources);
            assert forall|i: int| 0 <= i < self@.modulators.len() implies {
                &&& (#[trigger] self@.modulators[i]).wf()
                &&& 0 <= self@.modulators[i].target() < self@.sources.len()
            } by {
                assert(before.modulators[i].wf());
            }
        }
    }

    /// Whether every modulator has run its course.
    pub fn is_released(&self) -> (released: bool)
        ensures
            released == self@.is_released(),
    {
        let n: usize = self.modulators.len();
        let mut i: usize = 0;
        while i < n
            invariant
                i <= n,
                n == self.modulators.len(),
                forall|k: int| 0 <= k < i ==> (#[trigger] self@.modulators[k]).is_released(),
            decreases n - i,
        {
            if !self.modulators[i].is_released() {
                assert(!self@.modulators[i as int].is_released());
                return false;
            }
            i = i + 1;
        }
        true
    }

    /// Whether every modulator holds its parameter at silence.
    pub fn is_silent(&self) -> (silent: bool)
        ensures
            silent == self@.is_silent(),
    {
        let n: usize = self.modulators.len();
        let mut i: usize = 0;
        while i < n
            invariant
                i <= n,
                n == self.modulators.len(),
                forall|k: int| 0 <= k < i ==> (#[trigger] self@.modulators[k]).is_silent(),
            decreases n - i,
        {
            if !self.modulators[i].is_silent() {
                assert(!self@.modulators[i as int].is_silent());
                return false;
            }
            i = i + 1;
        }
        true
    }

    /// Starts a note: retunes every source and triggers every modulator.
    pub fn note_on(&mut self, note: u8, velocity: u8)
        requires
            old(self).wf(),
        ensures
            final(self)@ == old(self)@.triggered(note, velocity),
            final(self).wf(),
    {
        let ghost start = self@;
        let count: usize = self.sources.len();
        let mut j: usize = 0;
        while j < count
            invariant
                j <= count,
                count == self.sources.len(),
                count == start.sources.len(),
                start.wf(),
                self@.sample_rate == start.sample_rate,
                self@.modulators == start.modulators,
                forall|k: int| 0 <= k < j ==> self@.sources[k] == start.sources[k].retuned(note, velocity),
                forall|k: int| j <= k < count ==> self@.sources[k] == start.sources[k],
                sources_wf(self@.sources),
            decreases count - j,
        {
            let ghost before = self@;
            assert(before.sources[j as int].wf());
            let source = &mut self.sources[j];
            source.set(note, velocity);
            proof {
                assert(self@.sources =~= before.sources.update(
                    j as int,
                    before.sources[j as int].retuned(note, velocity),
                ));
                assert forall|k: int| 0 <= k < count implies (#[trigger] self@.sources[k]).wf() by {
                    if k != j {
                        assert(before.sources[k].wf());
                    }
                }
            }
            j = j + 1;
        }
        let n: usize = self.modulators.len();
        let mut i: usize = 0;
        while i < n
            invariant
                i <= n,
                n == self.modulators.len(),
                n == start.modulators.len(),
                count == self@.sources.len(),
                count == start.sources.len(),
                start.wf(),
                self@.sample_rate == start.sample_rate,
                forall|k: int| 0 <= k < count ==> self@.sources[k] == start.sources[k].retuned(note, velocity),
                sources_wf(self@.sources),
                forall|k: int| 0 <= k < i ==> self@.modulators[k] == start.modulators[k].triggered(),
                forall|k: int| i <= k < n ==> self@.modulators[k] == start.modulators[k],
            decreases n - i,
        {
            let ghost before = self@;
            assert(start.modulators[i as int].wf());
            let modulator = &mut self.modulators[i];
            modulator.note_on();
            proof {
                assert(self@.modulators =~= before.modulators.update(
                    i as int,
                    before.modulators[i as int].triggered(),
                ));
            }
            i = i + 1;
        }
        proof {
            let goal = start.triggered(note, velocity);
            assert(self@.sources =~= goal.sources);
            assert(self@.modulators =~= goal.modulators);
            assert forall|k: int| 0 <= k < n implies {
                &&& (#[trigger] self@.modulators[k]).wf()
                &&& 0 <= self@.modulators[k].target() < self@.sources.len()
            } by {
                assert(start.modulators[k].wf());
            }
        }
    }

    /// Ends a note: lets every modulator go.
    pub fn note_off(&mut self)
        requires
            old(self).wf(),
        ensures
            final(self)@ == old(self)@.let_go(),
            final(self).wf(),
    {
        let ghost start = self@;
        let n: usize = self.modulators.len();
        let mut i: usize = 0;
        while i < n
            invariant
                i <= n,
                n == self.modulators.len(),
                n == start.modulators.len(),
                start.wf(),
                self@.sample_rate == start.sample_rate,
                self@.sources == start.sources,
                forall|k: int| 0 <= k < i ==> self@.modulators[k] == start.modulators[k].let_go(),
                forall|k: int| i <= k < n ==> self@.modulators[k] == start.modulators[k],
            decreases n - i,
        {
            let ghost before = self@;
            assert(start.modulators[i as int].wf());
            let modulator = &mut self.modulators[i];
            modulator.note_off();
            proof {
                assert(self@.modulators =~= before.modulators.update(
                    i as int,
                    before.modulators[i as int].let_go(),
                ));
            }
            i = i + 1;
        }
        proof {
            let goal = start.let_go();
            assert(self@.modulators =~= goal.modulators);
            assert forall|k: int| 0 <= k < n implies {
                &&& (#[trigger] self@.modulators[k]).wf()
                &&& 0 <= self@.modulators[k].target() < self@.sources.len()
            } by {
                assert(start.modulators[k].wf());
            }
        }
    }

    /// Renders one sample: ticks every modulator, then takes the mean of
    /// what the sources sound.
    pub fn next(&mut self) -> (sample: Fixed)
        requires
            old(self).wf(),
        ensures
            final(self)@ == old(self)@.rendered(),
            final(self).wf(),
            sample == final(self)@.sounding(),
            in_range(sample as int),
    {
        let ghost start = self@;
        let n: usize = self.modulators.len();
        let mut i: usize = 0;
        while i < n
            invariant
                i <= n,
                n == self.modulators.len(),
                n == start.modulators.len(),
                start.wf(),
                self@ == start.modulated(i as nat),
                self@.wf(),
            decreases n - i,
        {
            let ghost before = self@;
            assert(before.modulators[i as int].wf());
            let modulator = &mut self.modulators[i];
            modulator.tick(&mut self.sources);
            proof {
                lemma_modulated_wf(start, (i + 1) as nat);
                assert(self@.modulators =~= before.modulators.update(
                    i as int,
                    before.modulators[i as int].ticked_on(before.sources),
                ));
            }
            i = i + 1;
        }
        let ghost ticked = self@;
        let count: usize = self.sources.len();
        let mut sum: i128 = 0;
        let mut j: usize = 0;
        while j < count
            invariant
                j <= count,
                count == self.sources.len(),
                count == ticked.sources.len(),
                ticked.wf(),
                self@.sample_rate == ticked.sample_rate,
                self@.modulators == ticked.modulators,
                forall|k: int| 0 <= k < j ==> self@.sources[k] == ticked.sources[k].advanced(),
                forall|k: int| j <= k < count ==> self@.sources[k] == ticked.sources[k],
                sources_wf(self@.sources),
                sum == total_output(self@.sources, j as nat),
                -j * LIMIT <= sum <= j * LIMIT,
            decreases count - j,
        {
            let ghost before = self@;
            assert(before.sources[j as int].wf());
            let source = &mut self.sources[j];
            let sample: Fixed = source.next();
            proof {
                assert(self@.sources =~= before.sources.update(
                    j as int,
                    before.sources[j as int].advanced(),
                ));
                lemma_total_output_prefix(before.sources, self@.sources, j as nat);
                assert forall|k: int| 0 <= k < count implies (#[trigger] self@.sources[k]).wf() by {
                    if k != j {
                        assert(before.sources[k].wf());
                    }
                }
            }
            sum = sum + sample as i128;
            j = j + 1;
        }
        proof {
            assert(self@.sources =~= old(self)@.rendered().sources);
            lemma_mean_bound(sum as int, count as int, LIMIT as int);
        }
        if count == 0 {
            0
        } else {
            floor_div(sum, count as i128) as i64
        }
    }
}

/// What can happen to an instrument.
pub enum Event {
    /// A note starts.
    NoteOn { note: u8, velocity: u8 },
    /// The note ends.
    NoteOff,
    /// A sample is rendered.
    Render,
}

impl InstrumentModel {
    /// The instrument after one event.
    pub open spec fn after(self, event: Event) -> InstrumentModel {
        match event {
            Event::NoteOn { note, velocity } => self.triggered(note, velocity),
            Event::NoteOff => self.let_go(),
            Event::Render => self.rendered(),
        }
    }

    /// The instrument after the first `n` of a run of events.
    pub open spec fn after_all(self, events: Seq<Event>, n: nat) -> InstrumentModel
        decreases n,
    {
        if n == 0 {
            self
        } else {
            self.after_all(events, (n - 1) as nat).after(events[n - 1])
        }
    }

    /// The samples that the first `n` of a run of events render, in order.
    pub open spec fn heard(self, events: Seq<Event>, n: nat) -> Seq<int>
        decreases n,
    {
        if n == 0 {
            Seq::empty()
        } else if events[n - 1] is Render {
            self.heard(events, (n - 1) as nat).push(self.after_all(events, n).sounding())
        } else {
            self.heard(events, (n - 1) as nat)
        }
    }
}

/// An instrument is determined by its patch, and what is heard by the
/// instrument and the events. Two patches with the same sample rate and the
/// same nodes give instruments that render the same samples on the same run
/// of events.
pub proof fn lemma_same_patch_same_sound(a: &Patch, b: &Patch, events: Seq<Event>)
    requires
        a.sample_rate == b.sample_rate,
        a.nodes@ == b.nodes@,
    ensures
        a.fault() == b.fault(),
        instantiated(a.sample_rate as int, a.nodes@).heard(events, events.len()) == instantiated(
            b.sample_rate as int,
            b.nodes@,
        ).heard(events, events.len()),
{
}

/// The start of a note keeps an instrument well formed.
pub proof fn lemma_triggered_wf(m: InstrumentModel, note: u8, velocity: u8)
    requires
        m.wf(),
    ensures
        m.triggered(note, velocity).wf(),
{
    let after = m.triggered(note, velocity);
    crate::wave::lemma_note_frequency_bounds(note);
    crate::wave::lemma_velocity_amplitude_bounds(velocity);
    assert forall|k: int| 0 <= k < after.sources.len() implies (#[trigger] after.sources[k]).wf() by {
        assert(m.sources[k].wf());
    }
    assert forall|k: int| 0 <= k < after.modulators.len() implies {
        &&& (#[trigger] after.modulators[k]).wf()
        &&& 0 <= after.modulators[k].target() < after.sources.len()
    } by {
        assert(m.modulators[k].wf());
    }
}

/// A rendered sample keeps an instrument well formed.
pub proof fn lemma_rendered_wf(m: InstrumentModel)
    requires
        m.wf(),
    ensures
        m.rendered().wf(),
{
    let ticked = m.modulated(m.modulators.len());
    let after = m.rendered();
    lemma_modulated_wf(m, m.modulators.len());
    assert forall|k: int| 0 <= k < after.sources.len() implies (#[trigger] after.sources[k]).wf() by {
        assert(ticked.sources[k].wf());
        match ticked.sources[k] {
            SourceModel::Sine(s) => {
                vstd::arithmetic::div_mod::lemma_mod_bound(s.phase + s.freq, s.period());
            },
        }
    }
    assert forall|k: int| 0 <= k < after.modulators.len() implies {
        &&& (#[trigger] after.modulators[k]).wf()
        &&& 0 <= after.modulators[k].target() < after.sources.len()
    } by {
        assert(ticked.modulators[k].wf());
    }
}

/// Node ids are stable. No event changes how many sources and modulators
/// an instrument has, nor at which source a modulator aims, and a well-formed
/// instrument stays well formed: every modulator still aims at a source.
pub proof fn lemma_ids_outlive_events(m: InstrumentModel, event: Event)
    requires
        m.wf(),
    ensures
        m.after(event).wf(),
        m.after(event).sample_rate == m.sample_rate,
        m.after(event).sources.len() == m.sources.len(),
        m.after(event).modulators.len() == m.modulators.len(),
        forall|i: int|
            0 <= i < m.modulators.len() ==> (#[trigger] m.after(event).modulators[i]).target()
                == m.modulators[i].target(),
{
    match event {
        Event::NoteOn { note, velocity } => {
            lemma_triggered_wf(m, note, velocity);
        },
        Event::NoteOff => {
            lemma_let_go_wf(m);
        },
        Event::Render => {
            lemma_rendered_wf(m);
            lemma_modulated_wf(m, m.modulators.len());
        },
    }
}

/// The end of a note keeps an instrument well formed.
pub proof fn lemma_let_go_wf(m: InstrumentModel)
    requires
        m.wf(),
    ensures
        m.let_go().wf(),
{
    assert forall|k: int| 0 <= k < m.let_go().modulators.len() implies {
        &&& (#[trigger] m.let_go().modulators[k]).wf()
        &&& 0 <= m.let_go().modulators[k].target() < m.let_go().sources.len()
    } by {
        assert(m.modulators[k].wf());
    }
}

/// Two lists that agree on their first `n` sources sound the same total
/// there.
pub proof fn lemma_total_output_prefix(a: Seq<SourceModel>, b: Seq<SourceModel>, n: nat)
    requires
        n <= a.len(),
        n <= b.len(),
        forall|k: int| 0 <= k < n ==> a[k] == b[k],
    ensures
        total_output(a, n) == total_output(b, n),
    decreases n,
{
    if n > 0 {
        lemma_total_output_prefix(a, b, (n - 1) as nat);
    }
}

/// The mean of values within a bound is within the bound.
pub proof fn lemma_mean_bound(sum: int, count: int, bound: int)
    requires
        0 <= count,
        0 <= bound,
        -count * bound <= sum <= count * bound,
    ensures
        -bound <= mean(sum, count) <= bound,
{
    if count > 0 {
        vstd::arithmetic::div_mod::lemma_div_is_ordered(-count * bound, sum, count);
        vstd::arithmetic::div_mod::lemma_div_is_ordered(sum, count * bound, count);
        vstd::arithmetic::div_mod::lemma_div_multiples_vanish(bound, count);
        vstd::arithmetic::div_mod::lemma_div_multiples_vanish(-bound, count);
        assert(-count * bound == count * (-bound)) by (nonlinear_arith);
    }
}

} // verus!
