use vstd::prelude::*;

verus! {

/// How the merge spatial-hash cell size is chosen.
#[derive(Debug, Clone, Copy, PartialEq, Eq, Structural)]
pub enum MergeCellSizePolicy {
    /// Legacy fixed radius cap.
    ConservativeFixed,
    /// Total-mass envelope computed on the CPU at simulation start / restart.
    InitialMassEnvelope,
    /// Per-merge-iteration maximum radius reduced on the GPU.
    AdaptivePerPrepare,
}

impl MergeCellSizePolicy {
    /// Whether the merge cell size is reduced on the GPU each merge iteration.
    pub fn is_gpu_adaptive(&self) -> (adaptive: bool)
        ensures
            adaptive == (*self == MergeCellSizePolicy::AdaptivePerPrepare),
    {
        match self {
            MergeCellSizePolicy::AdaptivePerPrepare => true,
            _ => false,
        }
    }
}

impl Default for MergeCellSizePolicy {
    /// The conservative fixed policy is the default, keeping the established cell size.
    fn default() -> (policy: Self)
        ensures
            policy == MergeCellSizePolicy::ConservativeFixed,
    {
        MergeCellSizePolicy::ConservativeFixed
    }
}

} // verus!
