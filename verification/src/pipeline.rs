//! Pipeline-stage identities, the cached descriptor bindings, and the
//! per-step state machine.
//!
//! Each compute stage binds a fixed list of particle buffers. Bindings
//! are cached per stage and reused across frames; any operation that
//! changes which underlying buffer a stage must reference — the sort's
//! buffer swaps — must invalidate the cache before the next dispatch,
//! or a stale binding would silently read the wrong buffer.

use vstd::prelude::*;

verus! {

/// Number of distinct pipeline stages.
pub const NUM_STAGES: usize = 13;

/// One compute stage of the simulation step.
#[derive(Clone, Copy, Debug, PartialEq, Eq, Structural)]
pub enum SimStage {
    ApplyGravity,
    PredictPosition,
    MortonHash,
    RadixHistogram,
    PrefixSum,
    RadixScatter,
    BuildCellIndex,
    NeighborSearch,
    DensityEstimate,
    PbdLambda,
    PbdDisplacement,
    PbdApply,
    UpdatePosition,
}

impl SimStage {
    /// A distinct slot for each stage.
    pub open spec fn index_spec(self) -> int {
        match self {
            SimStage::ApplyGravity => 0,
            SimStage::PredictPosition => 1,
            SimStage::MortonHash => 2,
            SimStage::RadixHistogram => 3,
            SimStage::PrefixSum => 4,
            SimStage::RadixScatter => 5,
            SimStage::BuildCellIndex => 6,
            SimStage::NeighborSearch => 7,
            SimStage::DensityEstimate => 8,
            SimStage::PbdLambda => 9,
            SimStage::PbdDisplacement => 10,
            SimStage::PbdApply => 11,
            SimStage::UpdatePosition => 12,
        }
    }

    /// The slot of this stage in the cache.
    pub fn index(self) -> (i: usize)
        ensures
            i as int == self.index_spec(),
            i < NUM_STAGES,
    {
        match self {
            SimStage::ApplyGravity => 0,
            SimStage::PredictPosition => 1,
            SimStage::MortonHash => 2,
            SimStage::RadixHistogram => 3,
            SimStage::PrefixSum => 4,
            SimStage::RadixScatter => 5,
            SimStage::BuildCellIndex => 6,
            SimStage::NeighborSearch => 7,
            SimStage::DensityEstimate => 8,
            SimStage::PbdLambda => 9,
            SimStage::PbdDisplacement => 10,
            SimStage::PbdApply => 11,
            SimStage::UpdatePosition => 12,
        }
    }
}

/// Cached descriptor bindings, one slot per stage.
///
/// A slot holds the buffer generation the stage was last bound against;
/// `None` means the stage must be rebound before its next dispatch.
pub struct DescriptorCache {
    /// Binding generation per stage slot.
    pub bindings: Vec<Option<u64>>,
}

impl DescriptorCache {
    /// Structural health: one slot per stage.
    pub open spec fn wf(&self) -> bool {
        self.bindings@.len() == NUM_STAGES
    }

    /// A cache is coherent with a buffer generation when every bound
    /// slot was bound against exactly that generation.
    pub open spec fn coherent_with(&self, generation: u64) -> bool {
        forall|i: int|
            0 <= i < self.bindings@.len() && #[trigger] self.bindings@[i] is Some
                ==> self.bindings@[i] == Some(generation)
    }

    /// An empty cache: every stage must bind before dispatch.
    pub fn new() -> (c: DescriptorCache)
        ensures
            c.wf(),
            forall|i: int| 0 <= i < NUM_STAGES as int ==> #[trigger] c.bindings@[i] is None,
    {
        let mut v: Vec<Option<u64>> = Vec::new();
        let mut i: usize = 0;
        while i < NUM_STAGES
            invariant
                i <= NUM_STAGES,
                v@.len() == i,
                forall|j: int| 0 <= j < i ==> #[trigger] v@[j] is None,
            decreases NUM_STAGES - i,
        {
            v.push(None);
            i += 1;
        }
        DescriptorCache { bindings: v }
    }

    /// The cached binding of one stage.
    pub fn lookup(&self, stage: SimStage) -> (r: Option<u64>)
        requires
            self.wf(),
        ensures
            r == self.bindings@[stage.index_spec()],
    {
        let i = stage.index();
        self.bindings[i]
    }

    /// Binds a stage against the current buffer generation.
    pub fn bind(&mut self, stage: SimStage, generation: u64)
        requires
            old(self).wf(),
        ensures
            final(self).wf(),
            final(self).bindings@ == old(self).bindings@.update(
                stage.index_spec(),
                Some(generation),
            ),
            old(self).coherent_with(generation) ==> final(self).coherent_with(generation),
    {
        let i = stage.index();
        self.bindings[i] = Some(generation);
    }

    /// Binds a stage only when its slot is empty, reusing a live binding.
    pub fn bind_if_missing(&mut self, stage: SimStage, generation: u64)
        requires
            old(self).wf(),
        ensures
            final(self).wf(),
            final(self).bindings@[stage.index_spec()] is Some,
            old(self).bindings@[stage.index_spec()] is Some ==> *final(self) == *old(self),
            old(self).bindings@[stage.index_spec()] is None ==> final(self).bindings@ == old(self).bindings@.update(stage.index_spec(), Some(generation)),
            old(self).coherent_with(generation) ==> final(self).coherent_with(generation),
    {
        let i = stage.index();
        if self.bindings[i].is_none() {
            self.bindings[i] = Some(generation);
        }
    }

    /// Drops every cached binding: all stages rebind before dispatch.
    pub fn clear(&mut self)
        requires
            old(self).wf(),
        ensures
            final(self).wf(),
            forall|i: int|
                0 <= i < NUM_STAGES as int ==> #[trigger] final(self).bindings@[i] is None,
            forall|g: u64| final(self).coherent_with(g),
    {
        let mut i: usize = 0;
        while i < NUM_STAGES
            invariant
                i <= NUM_STAGES,
                self.bindings@.len() == NUM_STAGES,
                forall|j: int| 0 <= j < i ==> #[trigger] self.bindings@[j] is None,
            decreases NUM_STAGES - i,
        {
            self.bindings[i] = None;
            i += 1;
        }
    }
}

/// Where a simulation step stands.
///
/// Each arc is one blocking dispatch; no arc may be skipped or
/// reordered, and `Solving` loops once per constraint iteration before
/// the step commits.
#[derive(Clone, Copy, Debug, PartialEq, Eq, Structural)]
pub enum StepState {
    Idle,
    GravityApplied,
    Predicted,
    Hashed,
    Sorted,
    CellIndexed,
    NeighborsFound,
    DensityComputed,
    Solving(u32),
    Committed,
}

/// The successor of each step state: the strict stage order of one
/// simulation step, with `Solving(k)` looping `pbd_iterations` times.
pub open spec fn next_state_spec(s: StepState, pbd_iterations: u32) -> StepState {
    match s {
        StepState::Idle => StepState::GravityApplied,
        StepState::GravityApplied => StepState::Predicted,
        StepState::Predicted => StepState::Hashed,
        StepState::Hashed => StepState::Sorted,
        StepState::Sorted => StepState::CellIndexed,
        StepState::CellIndexed => StepState::NeighborsFound,
        StepState::NeighborsFound => StepState::DensityComputed,
        StepState::DensityComputed => if pbd_iterations == 0 {
            StepState::Committed
        } else {
            StepState::Solving(0)
        },
        StepState::Solving(k) => if k + 1 < pbd_iterations {
            StepState::Solving((k + 1) as u32)
        } else {
            StepState::Committed
        },
        StepState::Committed => StepState::Idle,
    }
}

/// Advances the step state machine by one arc.
pub fn next_state(s: StepState, pbd_iterations: u32) -> (r: StepState)
    requires
        s is Solving ==> s->Solving_0 < pbd_iterations,
    ensures
        r == next_state_spec(s, pbd_iterations),
{
    match s {
        StepState::Idle => StepState::GravityApplied,
        StepState::GravityApplied => StepState::Predicted,
        StepState::Predicted => StepState::Hashed,
        StepState::Hashed => StepState::Sorted,
        StepState::Sorted => StepState::CellIndexed,
        StepState::CellIndexed => StepState::NeighborsFound,
        StepState::NeighborsFound => StepState::DensityComputed,
        StepState::DensityComputed => {
            if pbd_iterations == 0 {
                StepState::Committed
            } else {
                StepState::Solving(0)
            }
        },
        StepState::Solving(k) => {
            if k + 1 < pbd_iterations {
                StepState::Solving(k + 1)
            } else {
                StepState::Committed
            }
        },
        StepState::Committed => StepState::Idle,
    }
}

} // verus!
