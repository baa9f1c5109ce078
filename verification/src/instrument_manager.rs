//! The instruments that sound together, mixed to one sample.

use vstd::prelude::*;
use crate::fixed::{floor_div, in_range, Fixed, LIMIT};
use crate::graph::instantiated;
use crate::instrument::{lemma_mean_bound, mean, Instrument, InstrumentModel};
use crate::node::{AdsrDef, LfoDef, NodeDef, Patch, PatchError, SineDef};
use crate::param::{AMPLITUDE, FREQUENCY};

verus! {

/// The sample rate of a new manager.
pub const DEFAULT_SAMPLE_RATE: u32 = 44_100;

pub struct InstrumentManager {
    sample_rate: u32,
    instruments: Vec<Instrument>,
}

/// What a manager is, as numbers.
pub struct ManagerModel {
    pub sample_rate: int,
    pub instruments: Seq<InstrumentModel>,
}

/// The nodes of the synth that `add_synth` adds: an oscillator, a slow
/// vibrato of fifty on its frequency, and a plucked envelope on its
/// amplitude.
pub open spec fn synth_nodes() -> Seq<NodeDef> {
    seq![
        NodeDef::Sine(SineDef {  }),
        NodeDef::Lfo(
            LfoDef {
                freq: 200_000,
                depth: 50_000_000,
                offset: 0,
                target_node: 0,
                target_param: FREQUENCY,
            },
        ),
        NodeDef::Adsr(
            AdsrDef {
                attack: 10_000,
                decay: 400_000,
                sustain: 0,
                release: 1_000_000,
                target_node: 0,
                target_param: AMPLITUDE,
            },
        ),
    ]
}

/// The sum of what the first `n` instruments sound.
pub open spec fn total_sounding(instruments: Seq<InstrumentModel>, n: nat) -> int
    decreases n,
{
    if n == 0 {
        0
    } else {
        total_sounding(instruments, (n - 1) as nat) + instruments[n - 1].sounding()
    }
}

impl ManagerModel {
    pub open spec fn wf(self) -> bool {
        forall|i: int| 0 <= i < self.instruments.len() ==> (#[trigger] self.instruments[i]).wf()
    }

    /// The manager one sample later: every instrument has rendered.
    pub open spec fn rendered(self) -> ManagerModel {
        ManagerModel {
            instruments: Seq::new(self.instruments.len(), |i: int| self.instruments[i].rendered()),
            ..self
        }
    }

    /// What the manager sounds in its present state: the mean of what its
    /// instruments sound, and zero where it has none.
    pub open spec fn sounding(self) -> int {
        mean(
            total_sounding(self.instruments, self.instruments.len()),
            self.instruments.len() as int,
        )
    }

    /// The manager with a note started on every instrument.
    pub open spec fn triggered(self, note: u8, velocity: u8) -> ManagerModel {
        ManagerModel {
            instruments: Seq::new(
                self.instruments.len(),
                |i: int| self.instruments[i].triggered(note, velocity),
            ),
            ..self
        }
    }
}

impl View for InstrumentManager {
    type V = ManagerModel;

    closed spec fn view(&self) -> ManagerModel {
        ManagerModel {
            sample_rate: self.sample_rate as int,
            instruments: Seq::new(self.instruments@.len(), |i: int| self.instruments@[i]@),
        }
    }
}

/// Two lists that agree on their first `n` instruments sound the same total
/// there.
pub proof fn lemma_total_sounding_prefix(
    a: Seq<InstrumentModel>,
    b: Seq<InstrumentModel>,
    n: nat,
)
    requires
        n <= a.len(),
        n <= b.len(),
        forall|k: int| 0 <= k < n ==> a[k] == b[k],
    ensures
        total_sounding(a, n) == total_sounding(b, n),
    decreases n,
{
    if n > 0 {
        lemma_total_sounding_prefix(a, b, (n - 1) as nat);
    }
}

/// The patch of the synth that `add_synth` adds.
pub fn synth_patch(sample_rate: u32) -> (patch: Patch)
    ensures
        patch.sample_rate == sample_rate,
        patch.nodes@ == synth_nodes(),
        patch.connections@.len() == 0,
        sample_rate > 0 ==> patch.valid(),
{
    let mut nodes: Vec<NodeDef> = Vec::new();
    nodes.push(NodeDef::Sine(SineDef {  }));
    nodes.push(
        NodeDef::Lfo(
            LfoDef {
                freq: 200_000,
                depth: 50_000_000,
                offset: 0,
                target_node: 0,
                target_param: FREQUENCY,
            },
        ),
    );
    nodes.push(
        NodeDef::Adsr(
            AdsrDef {
                attack: 10_000,
                decay: 400_000,
                sustain: 0,
                release: 1_000_000,
                target_node: 0,
                target_param: AMPLITUDE,
            },
        ),
    );
    proof {
        assert(nodes@ =~= synth_nodes());
        reveal_with_fuel(crate::node::first_fault, 4);
    }
    Patch { sample_rate, nodes, connections: Vec::new() }
}

impl InstrumentManager {
    pub open spec fn wf(&self) -> bool {
        self@.wf()
    }

    pub fn new() -> (manager: Self)
        ensures
            manager@.sample_rate == DEFAULT_SAMPLE_RATE,
            manager@.instruments.len() == 0,
            manager.wf(),
    {
        InstrumentManager { sample_rate: DEFAULT_SAMPLE_RATE, instruments: Vec::new() }
    }

    /// Sets the sample rate of the synths that are added from now on.
    pub fn set_sample_rate(&mut self, sample_rate: u32)
        ensures
            final(self)@ == (ManagerModel { sample_rate: sample_rate as int, ..old(self)@ }),
    {
        self.sample_rate = sample_rate;
        assert(self@.instruments =~= old(self)@.instruments);
    }

    /// Adds a synth at the present sample rate; a sample rate of zero is
    /// refused, and the manager is then left as it was.
    pub fn add_synth(&mut self) -> (r: Result<(), PatchError>)
        requires
            old(self).wf(),
        ensures
            final(self).wf(),
            match r {
                Ok(_) => {
                    &&& old(self)@.sample_rate > 0
                    &&& final(self)@ == (ManagerModel {
                        instruments: old(self)@.instruments.push(
                            instantiated(old(self)@.sample_rate, synth_nodes()),
                        ),
                        ..old(self)@
                    })
                },
                Err(e) => {
                    &&& old(self)@.sample_rate == 0
                    &&& e == PatchError::InvalidSampleRate
                    &&& final(self)@ == old(self)@
                },
            },
    {
        let ghost before = self@;
        let patch = synth_patch(self.sample_rate);
        match Instrument::from_patch(&patch) {
            Ok(instrument) => {
                self.instruments.push(instrument);
                proof {
                    assert(self@.instruments =~= before.instruments.push(
                        instantiated(before.sample_rate, synth_nodes()),
                    ));
                    assert forall|i: int| 0 <= i < self@.instruments.len() implies (
                    #[trigger] self@.instruments[i]).wf() by {
                        if i < before.instruments.len() {
                            assert(before.instruments[i].wf());
                        }
                    }
                }
                Ok(())
            },
            Err(e) => Err(e),
        }
    }

    /// Starts a note on every instrument.
    pub fn note_on(&mut self, note: u8, velocity: u8)
        requires
            old(self).wf(),
        ensures
            final(self)@ == old(self)@.triggered(note, velocity),
            final(self).wf(),
    {
        let ghost start = self@;
        let count: usize = self.instruments.len();
        let mut i: usize = 0;
        while i < count
            invariant
                i <= count,
                count == self.instruments.len(),
                count == start.instruments.len(),
                self@.sample_rate == start.sample_rate,
                forall|k: int|
                    0 <= k < i ==> self@.instruments[k] == start.instruments[k].triggered(
                        note,
                        velocity,
                    ),
                forall|k: int| i <= k < count ==> self@.instruments[k] == start.instruments[k],
                forall|k: int| 0 <= k < count ==> (#[trigger] self@.instruments[k]).wf(),
            decreases count - i,
        {
            let ghost before = self@;
            assert(before.instruments[i as int].wf());
            let instrument = &mut self.instruments[i];
            instrument.note_on(note, velocity);
            proof {
                assert(self@.instruments =~= before.instruments.update(
                    i as int,
                    before.instruments[i as int].triggered(note, velocity),
                ));
                assert forall|k: int| 0 <= k < count implies (#[trigger] self@.instruments[k]).wf() by {
                    if k != i {
                        assert(before.instruments[k].wf());
                    }
                }
            }
            i = i + 1;
        }
        assert(self@.instruments =~= start.triggered(note, velocity).instruments);
    }

    /// Renders one sample: the mean of what the instruments render.
    pub fn next(&mut self) -> (sample: Fixed)
        requires
            old(self).wf(),
        ensures
            final(self)@ == old(self)@.rendered(),
            final(self).wf(),
            sample == final(self)@.sounding(),
            in_range(sample as int),
    {
        let ghost start = self@;
        let count: usize = self.instruments.len();
        let mut mix: i128 = 0;
        let mut i: usize = 0;
        while i < count
            invariant
                i <= count,
                count == self.instruments.len(),
                count == start.instruments.len(),
                self@.sample_rate == start.sample_rate,
                forall|k: int| 0 <= k < i ==> self@.instruments[k] == start.instruments[k].rendered(),
                forall|k: int| i <= k < count ==> self@.instruments[k] == start.instruments[k],
                forall|k: int| 0 <= k < count ==> (#[trigger] self@.instruments[k]).wf(),
                mix == total_sounding(self@.instruments, i as nat),
                -i * LIMIT <= mix <= i * LIMIT,
            decreases count - i,
        {
            let ghost before = self@;
            assert(before.instruments[i as int].wf());
            let instrument = &mut self.instruments[i];
            let sample: Fixed = instrument.next();
            proof {
                assert(self@.instruments =~= before.instruments.update(
                    i as int,
                    before.instruments[i as int].rendered(),
                ));
                lemma_total_sounding_prefix(before.instruments, self@.instruments, i as nat);
                assert forall|k: int| 0 <= k < count implies (#[trigger] self@.instruments[k]).wf() by {
                    if k != i {
                        assert(before.instruments[k].wf());
                    }
                }
            }
            mix = mix + sample as i128;
            i = i + 1;
        }
        proof {
            assert(self@.instruments =~= start.rendered().instruments);
            lemma_mean_bound(mix as int, count as int, LIMIT as int);
        }
        if count != 0 {
            floor_div(mix, count as i128) as i64
        } else {
            0
        }
    }
}

} // verus!
