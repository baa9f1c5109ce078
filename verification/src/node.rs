//! Patches: the description from which instruments are built.
//!
//! A patch lists nodes in document order. A node is a source or a
//! modulator, and a modulator names its target by the target's place in the
//! list. The target may stand before or after the modulator, but it must be
//! in the list and it must be a source.

use vstd::prelude::*;
use crate::fixed::Fixed;
use crate::source::{NodeId, ParamId};

verus! {

#[derive(Clone, Debug)]
pub struct Patch {
    /// Samples per second.
    pub sample_rate: u32,
    pub nodes: Vec<NodeDef>,
    /// Reserved.
    pub connections: Vec<Connection>,
}

#[derive(Clone, Copy, Debug)]
pub enum NodeDef {
    Sine(SineDef),
    Lfo(LfoDef),
    Adsr(AdsrDef),
}

#[derive(Clone, Copy, Debug)]
pub struct SineDef {}

#[derive(Clone, Copy, Debug)]
pub struct LfoDef {
    pub freq: Fixed,
    pub depth: Fixed,
    pub offset: Fixed,
    pub target_node: NodeId,
    pub target_param: ParamId,
}

#[derive(Clone, Copy, Debug)]
pub struct AdsrDef {
    /// Seconds.
    pub attack: Fixed,
    /// Seconds.
    pub decay: Fixed,
    /// A level.
    pub sustain: Fixed,
    /// Seconds.
    pub release: Fixed,
    pub target_param: ParamId,
    pub target_node: NodeId,
}

#[derive(Clone, Copy, Debug)]
pub struct Connection {
    pub from_node: NodeId,
    pub to_node: NodeId,
}

/// Why a patch cannot be built.
#[derive(Clone, Copy, Debug, PartialEq, Eq, Structural)]
pub enum PatchError {
    /// The sample rate is zero.
    InvalidSampleRate,
    /// The modulator at place `node` of the list aims beyond the list's end.
    TargetOutOfRange { node: usize },
    /// The modulator at place `node` of the list aims at a modulator.
    TargetNotSource { node: usize },
}

impl NodeDef {
    pub open spec fn is_source(self) -> bool {
        self is Sine
    }

    /// The place in the list at which a modulator aims.
    pub open spec fn target(self) -> int {
        match self {
            NodeDef::Sine(_) => 0,
            NodeDef::Lfo(def) => def.target_node as int,
            NodeDef::Adsr(def) => def.target_node as int,
        }
    }
}

/// What is wrong with the node at place `i`, if anything.
pub open spec fn node_fault(nodes: Seq<NodeDef>, i: int) -> Option<PatchError> {
    if nodes[i].is_source() {
        None
    } else if nodes[i].target() >= nodes.len() {
        Some(PatchError::TargetOutOfRange { node: i as usize })
    } else if !nodes[nodes[i].target()].is_source() {
        Some(PatchError::TargetNotSource { node: i as usize })
    } else {
        None
    }
}

/// What is wrong with the first faulty node at or after place `from`.
pub open spec fn first_fault(nodes: Seq<NodeDef>, from: int) -> Option<PatchError>
    decreases nodes.len() - from,
{
    if from < 0 || from >= nodes.len() {
        None
    } else {
        match node_fault(nodes, from) {
            Some(e) => Some(e),
            None => first_fault(nodes, from + 1),
        }
    }
}

/// Where no node from `from` up to `to` is faulty, the search from `from`
/// finds what the search from `to` finds.
pub proof fn lemma_first_fault_skips(nodes: Seq<NodeDef>, from: int, to: int)
    requires
        0 <= from <= to <= nodes.len(),
        forall|j: int| from <= j < to ==> node_fault(nodes, j) is None,
    ensures
        first_fault(nodes, from) == first_fault(nodes, to),
    decreases to - from,
{
    if from < to {
        lemma_first_fault_skips(nodes, from + 1, to);
    }
}

/// Where the search from `from` finds nothing, no node after it is faulty.
pub proof fn lemma_no_fault(nodes: Seq<NodeDef>, from: int, i: int)
    requires
        0 <= from <= i < nodes.len(),
        first_fault(nodes, from) is None,
    ensures
        node_fault(nodes, i) is None,
    decreases i - from,
{
    if from < i {
        lemma_no_fault(nodes, from + 1, i);
    }
}

/// What is wrong with a patch of these nodes at this sample rate, if
/// anything: a sample rate of zero, or else the first faulty node in document
/// order.
pub open spec fn fault_of(sample_rate: int, nodes: Seq<NodeDef>) -> Option<PatchError> {
    if sample_rate == 0 {
        Some(PatchError::InvalidSampleRate)
    } else {
        first_fault(nodes, 0)
    }
}

/// Where nothing is wrong, every modulator aims at a source of the list.
pub proof fn lemma_valid_targets(sample_rate: int, nodes: Seq<NodeDef>, i: int)
    requires
        fault_of(sample_rate, nodes) is None,
        0 <= i < nodes.len(),
        !nodes[i].is_source(),
    ensures
        0 <= nodes[i].target() < nodes.len(),
        nodes[nodes[i].target()].is_source(),
{
    lemma_no_fault(nodes, 0, i);
}

impl Patch {
    /// What is wrong with the patch, if anything.
    pub open spec fn fault(&self) -> Option<PatchError> {
        fault_of(self.sample_rate as int, self.nodes@)
    }

    /// Whether an instrument can be built from the patch.
    pub open spec fn valid(&self) -> bool {
        self.fault() is None
    }

    /// In a valid patch every modulator aims at a source of the list.
    pub proof fn lemma_valid_targets(&self, i: int)
        requires
            self.valid(),
            0 <= i < self.nodes@.len(),
            !self.nodes@[i].is_source(),
        ensures
            0 <= self.nodes@[i].target() < self.nodes@.len(),
            self.nodes@[self.nodes@[i].target()].is_source(),
    {
        lemma_valid_targets(self.sample_rate as int, self.nodes@, i);
    }

    /// A patch in which a modulator aims beyond the end of the list, or at
    /// another modulator, is not valid.
    pub proof fn lemma_stray_target_is_invalid(&self, i: int)
        requires
            0 <= i < self.nodes@.len(),
            !self.nodes@[i].is_source(),
            self.nodes@[i].target() >= self.nodes@.len() || !self.nodes@[self.nodes@[i].target()].is_source(),
        ensures
            !self.valid(),
    {
        if self.valid() {
            self.lemma_valid_targets(i);
        }
    }

    /// Checks the patch.
    pub fn validate(&self) -> (r: Result<(), PatchError>)
        ensures
            match r {
                Ok(_) => self.valid(),
                Err(e) => self.fault() == Some(e),
            },
    {
        if self.sample_rate == 0 {
            return Err(PatchError::InvalidSampleRate);
        }
        let n: usize = self.nodes.len();
        let mut i: usize = 0;
        while i < n
            invariant
                i <= n,
                n == self.nodes@.len(),
                self.sample_rate != 0,
                forall|j: int| 0 <= j < i ==> node_fault(self.nodes@, j) is None,
            decreases n - i,
        {
            let target: Option<NodeId> = match &self.nodes[i] {
                NodeDef::Sine(_) => None,
                NodeDef::Lfo(def) => Some(def.target_node),
                NodeDef::Adsr(def) => Some(def.target_node),
            };
            match target {
                None => {},
                Some(t) => {
                    if t >= n {
                        proof {
                            lemma_first_fault_skips(self.nodes@, 0, i as int);
                            assert(node_fault(self.nodes@, i as int) == Some(
                                PatchError::TargetOutOfRange { node: i },
                            ));
                        }
                        return Err(PatchError::TargetOutOfRange { node: i });
                    }
                    let on_source: bool = match &self.nodes[t] {
                        NodeDef::Sine(_) => true,
                        _ => false,
                    };
                    if !on_source {
                        proof {
                            lemma_first_fault_skips(self.nodes@, 0, i as int);
                            assert(node_fault(self.nodes@, i as int) == Some(
                                PatchError::TargetNotSource { node: i },
                            ));
                        }
                        return Err(PatchError::TargetNotSource { node: i });
                    }
                },
            }
            i = i + 1;
        }
        proof {
            lemma_first_fault_skips(self.nodes@, 0, n as int);
        }
        Ok(())
    }
}

} // verus!
