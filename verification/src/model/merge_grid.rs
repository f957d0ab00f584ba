use vstd::prelude::*;
use crate::model::physics::MergeCellSizePolicy;

verus! {

/// CPU-side merge spatial-hash sizing.
#[derive(Debug, Clone, Copy, PartialEq, Eq, Structural)]
pub struct MergeGridSizer;

/// Which radius cap the CPU supplies for the merge grid.
#[derive(Debug, Clone, Copy, PartialEq, Eq, Structural)]
pub enum RadiusCapSource {
    /// The legacy fixed cap.
    ConservativeFixed,
    /// The radius of a body holding all active mass.
    InitialMassEnvelope,
}

/// The CPU radius cap source of `policy`; none under the GPU-adaptive policy.
pub open spec fn cpu_radius_cap_source_spec(policy: MergeCellSizePolicy) -> Option<RadiusCapSource> {
    match policy {
        MergeCellSizePolicy::ConservativeFixed => Some(RadiusCapSource::ConservativeFixed),
        MergeCellSizePolicy::InitialMassEnvelope => Some(RadiusCapSource::InitialMassEnvelope),
        MergeCellSizePolicy::AdaptivePerPrepare => None,
    }
}

impl MergeGridSizer {
    /// Which cap the CPU computes for the current policy, if any: the fixed cap, the
    /// total-mass envelope, or none when the GPU sizes cells itself.
    pub fn cpu_radius_cap_source(policy: MergeCellSizePolicy) -> (source: Option<RadiusCapSource>)
        ensures
            source == cpu_radius_cap_source_spec(policy),
    {
        match policy {
            MergeCellSizePolicy::ConservativeFixed => Some(RadiusCapSource::ConservativeFixed),
            MergeCellSizePolicy::InitialMassEnvelope => Some(RadiusCapSource::InitialMassEnvelope),
            MergeCellSizePolicy::AdaptivePerPrepare => None,
        }
    }
}

} // verus!
