//! From the nodes of a patch to the instrument that they describe.
//!
//! Each node is given an id: its place among the nodes of its kind, in
//! document order. A modulator is aimed at the id of the node that its
//! definition names by place.

use vstd::prelude::*;
use crate::adsr::AdsrModel;
use crate::instrument::InstrumentModel;
use crate::lfo::LfoModel;
use crate::modulator::ModulatorModel;
use crate::node::{fault_of, lemma_valid_targets, NodeDef};
use crate::sine::SineModel;
use crate::source::SourceModel;

verus! {

/// The number of sources among the first `n` nodes.
pub open spec fn source_count(nodes: Seq<NodeDef>, n: nat) -> nat
    decreases n,
{
    if n == 0 {
        0
    } else if nodes[n - 1].is_source() {
        source_count(nodes, (n - 1) as nat) + 1
    } else {
        source_count(nodes, (n - 1) as nat)
    }
}

/// The modulators among the first `n` nodes, in document order.
pub open spec fn modulator_defs(nodes: Seq<NodeDef>, n: nat) -> Seq<NodeDef>
    decreases n,
{
    if n == 0 {
        Seq::empty()
    } else if nodes[n - 1].is_source() {
        modulator_defs(nodes, (n - 1) as nat)
    } else {
        modulator_defs(nodes, (n - 1) as nat).push(nodes[n - 1])
    }
}

/// The id of the node at place `p`: its place among the nodes of its kind.
pub open spec fn node_id(nodes: Seq<NodeDef>, p: int) -> nat {
    if nodes[p].is_source() {
        source_count(nodes, p as nat)
    } else {
        modulator_defs(nodes, p as nat).len()
    }
}

/// The modulator that a definition stands for, before it is configured.
pub open spec fn blank(sample_rate: int, def: NodeDef) -> ModulatorModel {
    match def {
        NodeDef::Adsr(_) => ModulatorModel::Adsr(AdsrModel::fresh(sample_rate)),
        _ => ModulatorModel::Lfo(LfoModel::fresh(sample_rate)),
    }
}

/// The modulator that a definition stands for, configured, and aimed at the
/// id of the node that the definition names.
pub open spec fn wired(sample_rate: int, nodes: Seq<NodeDef>, def: NodeDef) -> ModulatorModel {
    match def {
        NodeDef::Adsr(d) => ModulatorModel::Adsr(
            AdsrModel::fresh(sample_rate).configured(
                node_id(nodes, d.target_node as int) as int,
                d.target_param,
                d.attack as int,
                d.decay as int,
                d.sustain as int,
                d.release as int,
            ),
        ),
        NodeDef::Lfo(d) => ModulatorModel::Lfo(
            LfoModel::fresh(sample_rate).configured(
                node_id(nodes, d.target_node as int) as int,
                d.target_param,
                d.freq as int,
                d.depth as int,
                d.offset as int,
            ),
        ),
        NodeDef::Sine(_) => ModulatorModel::Lfo(LfoModel::fresh(sample_rate)),
    }
}

/// The instrument that a list of nodes describes: a new oscillator for each
/// source, and for each modulator, in document order, the modulator
/// configured as its definition says.
pub open spec fn instantiated(sample_rate: int, nodes: Seq<NodeDef>) -> InstrumentModel {
    let defs = modulator_defs(nodes, nodes.len());
    InstrumentModel {
        sample_rate,
        sources: Seq::new(
            source_count(nodes, nodes.len()),
            |i: int| SourceModel::Sine(SineModel::fresh(sample_rate)),
        ),
        modulators: Seq::new(defs.len(), |j: int| wired(sample_rate, nodes, defs[j])),
    }
}

/// The instrument part-way through its configuration: the modulators among
/// the first `done` nodes are configured, the others are not yet.
pub open spec fn half_wired(sample_rate: int, nodes: Seq<NodeDef>, done: nat) -> InstrumentModel {
    let defs = modulator_defs(nodes, nodes.len());
    let ready = modulator_defs(nodes, done).len();
    InstrumentModel {
        sample_rate,
        sources: Seq::new(
            source_count(nodes, nodes.len()),
            |i: int| SourceModel::Sine(SineModel::fresh(sample_rate)),
        ),
        modulators: Seq::new(
            defs.len(),
            |j: int|
                if j < ready {
                    wired(sample_rate, nodes, defs[j])
                } else {
                    blank(sample_rate, defs[j])
                },
        ),
    }
}

/// The nodes of either kind among the first `n` nodes are among those of
/// the first `m`, at the same places.
pub proof fn lemma_ids_stable(nodes: Seq<NodeDef>, n: nat, m: nat)
    requires
        n <= m <= nodes.len(),
    ensures
        source_count(nodes, n) <= source_count(nodes, m),
        modulator_defs(nodes, n).len() <= modulator_defs(nodes, m).len(),
        forall|j: int|
            0 <= j < modulator_defs(nodes, n).len() ==> modulator_defs(nodes, m)[j]
                == modulator_defs(nodes, n)[j],
        forall|j: int|
            0 <= j < modulator_defs(nodes, m).len() ==> !(#[trigger] modulator_defs(nodes, m)[j]).is_source(),
    decreases m,
{
    if m > 0 {
        let shorter = modulator_defs(nodes, (m - 1) as nat);
        if n < m {
            lemma_ids_stable(nodes, n, (m - 1) as nat);
        } else {
            lemma_ids_stable(nodes, (n - 1) as nat, (m - 1) as nat);
        }
        assert forall|j: int| 0 <= j < modulator_defs(nodes, m).len() implies !(
        #[trigger] modulator_defs(nodes, m)[j]).is_source() by {
            if j < shorter.len() {
                assert(!shorter[j].is_source());
            }
        }
    }
}

/// The id of a node is the place at which the node stands among the nodes
/// of its kind, however many nodes follow it.
pub proof fn lemma_id_in_range(nodes: Seq<NodeDef>, p: int)
    requires
        0 <= p < nodes.len(),
    ensures
        nodes[p].is_source() ==> node_id(nodes, p) < source_count(nodes, nodes.len()),
        !nodes[p].is_source() ==> {
            &&& node_id(nodes, p) < modulator_defs(nodes, nodes.len()).len()
            &&& modulator_defs(nodes, nodes.len())[node_id(nodes, p) as int] == nodes[p]
            &&& modulator_defs(nodes, (p + 1) as nat).len() == node_id(nodes, p) + 1
        },
        nodes[p].is_source() ==> modulator_defs(nodes, (p + 1) as nat).len() == modulator_defs(
            nodes,
            p as nat,
        ).len(),
{
    lemma_ids_stable(nodes, (p + 1) as nat, nodes.len());
    assert(modulator_defs(nodes, (p + 1) as nat) == if nodes[p].is_source() {
        modulator_defs(nodes, p as nat)
    } else {
        modulator_defs(nodes, p as nat).push(nodes[p])
    });
    assert(source_count(nodes, (p + 1) as nat) == if nodes[p].is_source() {
        source_count(nodes, p as nat) + 1
    } else {
        source_count(nodes, p as nat)
    });
}

/// However far the configuration of a valid patch has come, the instrument
/// is well formed.
pub proof fn lemma_half_wired_wf(rate: int, nodes: Seq<NodeDef>, done: nat)
    requires
        fault_of(rate, nodes) is None,
        0 < rate <= u32::MAX,
        done <= nodes.len(),
    ensures
        half_wired(rate, nodes, done).wf(),
{
    let m = half_wired(rate, nodes, done);
    let defs = modulator_defs(nodes, nodes.len());
    lemma_ids_stable(nodes, done, nodes.len());
    assert forall|j: int| 0 <= j < m.modulators.len() implies {
        &&& (#[trigger] m.modulators[j]).wf()
        &&& 0 <= m.modulators[j].target() < m.sources.len()
    } by {
        lemma_defs_come_from_nodes(nodes, nodes.len(), j);
        let p = choose|p: int| 0 <= p < nodes.len() && nodes[p] == defs[j];
        assert(!defs[j].is_source());
        lemma_valid_targets(rate, nodes, p);
        let t = nodes[p].target();
        lemma_id_in_range(nodes, t);
        assert(node_id(nodes, t) < m.sources.len());
        if j < modulator_defs(nodes, done).len() {
            assert(m.modulators[j] == wired(rate, nodes, defs[j]));
        } else {
            assert(m.modulators[j] == blank(rate, defs[j]));
        }
    }
}

/// Every modulator among the first `n` nodes is one of those nodes.
pub proof fn lemma_defs_come_from_nodes(nodes: Seq<NodeDef>, n: nat, j: int)
    requires
        n <= nodes.len(),
        0 <= j < modulator_defs(nodes, n).len(),
    ensures
        exists|p: int| 0 <= p < n && nodes[p] == modulator_defs(nodes, n)[j],
    decreases n,
{
    if n > 0 {
        if nodes[n - 1].is_source() || j < modulator_defs(nodes, (n - 1) as nat).len() {
            lemma_defs_come_from_nodes(nodes, (n - 1) as nat, j);
            let p = choose|p: int| 0 <= p < n - 1 && nodes[p] == modulator_defs(nodes, (n - 1) as nat)[j];
            assert(0 <= p < n && nodes[p] == modulator_defs(nodes, n)[j]);
        } else {
            assert(nodes[n - 1] == modulator_defs(nodes, n)[j]);
        }
    }
}

/// The instrument that a valid patch describes is well formed.
pub proof fn lemma_instantiated_wf(rate: int, nodes: Seq<NodeDef>)
    requires
        fault_of(rate, nodes) is None,
        0 < rate <= u32::MAX,
    ensures
        instantiated(rate, nodes).wf(),
{
    lemma_half_wired_wf(rate, nodes, nodes.len());
    assert(instantiated(rate, nodes).modulators =~= half_wired(rate, nodes, nodes.len()).modulators);
    assert(instantiated(rate, nodes) == half_wired(rate, nodes, nodes.len()));
}

} // verus!
