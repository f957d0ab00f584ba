use vstd::prelude::*;
use vstd::arithmetic::div_mod::lemma_div_is_ordered;
use crate::model::physics::MergeCellSizePolicy;
use crate::model::merge_grid::cpu_radius_cap_source_spec;
use crate::simulation::gpu::node::{
    div_ceil_spec, dispatch_workgroups, finalize_pass, lemma_div_ceil_parts, frame_plan_spec, lemma_finalize_pass_iff_adaptive,
};

verus! {

/// Merge cell size taken from the uniform (fixed or CPU-computed).
pub const MERGE_CELL_MODE_FIXED: u32 = 0;

/// Merge cell size reduced on the GPU every merge iteration.
pub const MERGE_CELL_MODE_GPU_ADAPTIVE: u32 = 1;

/// The cell-size mode the merge shader runs in under `policy`.
pub open spec fn merge_cell_mode_spec(policy: MergeCellSizePolicy) -> u32 {
    match policy {
        MergeCellSizePolicy::AdaptivePerPrepare => MERGE_CELL_MODE_GPU_ADAPTIVE,
        _ => MERGE_CELL_MODE_FIXED,
    }
}

/// The integer part of the merge uniform, and where its inverse cell size comes from.
#[derive(Debug, Clone, Copy, PartialEq, Eq, Structural)]
pub struct MergeCellPlan {
    /// `MERGE_CELL_MODE_FIXED` or `MERGE_CELL_MODE_GPU_ADAPTIVE`.
    pub cell_size_mode: u32,
    /// Number of per-workgroup radius partials the prepare pass writes.
    pub radius_partial_count: u32,
    /// The inverse cell size comes from the CPU radius cap; otherwise from the
    /// conservative radius cap.
    pub use_cpu_radius_cap: bool,
}

/// Plans the merge uniform for the cell-size `policy`: only the GPU-adaptive policy runs
/// the shader in adaptive mode, and only the initial-mass envelope, when its CPU cap was
/// computed, sizes cells from that cap.
pub fn merge_cell_plan(
    policy: MergeCellSizePolicy,
    has_cpu_radius_cap: bool,
    active_count: u32,
    workgroup_size: u32,
) -> (plan: MergeCellPlan)
    requires
        workgroup_size > 0,
    ensures
        plan.cell_size_mode == merge_cell_mode_spec(policy),
        plan.radius_partial_count == div_ceil_spec(active_count as int, workgroup_size as int),
        plan.use_cpu_radius_cap == (policy == MergeCellSizePolicy::InitialMassEnvelope
            && has_cpu_radius_cap),
{
    let radius_partial_count = dispatch_workgroups(active_count, workgroup_size);
    match policy {
        MergeCellSizePolicy::AdaptivePerPrepare => MergeCellPlan {
            cell_size_mode: MERGE_CELL_MODE_GPU_ADAPTIVE,
            radius_partial_count,
            use_cpu_radius_cap: false,
        },
        MergeCellSizePolicy::ConservativeFixed => MergeCellPlan {
            cell_size_mode: MERGE_CELL_MODE_FIXED,
            radius_partial_count,
            use_cpu_radius_cap: false,
        },
        MergeCellSizePolicy::InitialMassEnvelope => MergeCellPlan {
            cell_size_mode: MERGE_CELL_MODE_FIXED,
            radius_partial_count,
            use_cpu_radius_cap: has_cpu_radius_cap,
        },
    }
}

/// Layout of the merge scratch buffer, in `Vec4` slots.
#[derive(Debug, Clone, Copy, PartialEq, Eq, Structural)]
pub struct MergeScratchLayout {
    /// Start of the position + mass block.
    pub body_offset: usize,
    /// Start of the velocity + radius block.
    pub vel_radius_offset: usize,
    /// The metadata slot (radius cap, inverse cell size).
    pub metadata_index: usize,
    /// Start of the per-workgroup radius partials.
    pub partial_radius_offset: usize,
    /// Number of radius partials reserved: one per workgroup over all bodies.
    pub max_merge_workgroups: usize,
    /// Total slots.
    pub len: usize,
}

impl MergeScratchLayout {
    /// The blocks follow each other without gap or overlap, and the buffer ends
    /// after the last partial.
    pub open spec fn wf(self, body_count: int) -> bool {
        &&& self.body_offset == 0
        &&& self.vel_radius_offset == self.body_offset + body_count
        &&& self.metadata_index == self.vel_radius_offset + body_count
        &&& self.partial_radius_offset == self.metadata_index + 1
        &&& self.len == self.partial_radius_offset + self.max_merge_workgroups
    }
}

/// Ceiling division on `usize`.
fn div_ceil_usize(count: usize, group_size: usize) -> (groups: usize)
    requires
        group_size > 0,
    ensures
        groups == div_ceil_spec(count as int, group_size as int),
{
    let q = count / group_size;
    let r = count % group_size;
    proof {
        lemma_div_ceil_parts(count as int, group_size as int);
    }
    if r == 0 {
        q
    } else {
        q + 1
    }
}

/// Lays out the merge scratch buffer for `body_count` bodies and compute workgroups of
/// `workgroup_size`.
pub fn merge_scratch_layout(body_count: usize, workgroup_size: u32) -> (layout: MergeScratchLayout)
    requires
        workgroup_size > 0,
        2 * body_count + 1 + div_ceil_spec(body_count as int, workgroup_size as int) <= usize::MAX,
    ensures
        layout.wf(body_count as int),
        layout.max_merge_workgroups == div_ceil_spec(body_count as int, workgroup_size as int),
{
    let max_merge_workgroups = div_ceil_usize(body_count, workgroup_size as usize);
    let vel_radius_offset = body_count;
    let metadata_index = body_count * 2;
    let partial_radius_offset = body_count * 2 + 1;
    MergeScratchLayout {
        body_offset: 0,
        vel_radius_offset,
        metadata_index,
        partial_radius_offset,
        max_merge_workgroups,
        len: partial_radius_offset + max_merge_workgroups,
    }
}

/// Whatever the active count up to `body_count`, the radius partials that the prepare pass
/// writes (one per dispatched workgroup) fit in the scratch buffer, after the metadata slot.
pub proof fn lemma_radius_partials_fit(
    layout: MergeScratchLayout,
    body_count: u32,
    workgroup_size: u32,
    active_count: u32,
)
    requires
        workgroup_size > 0,
        active_count <= body_count,
        layout.wf(body_count as int),
        layout.max_merge_workgroups == div_ceil_spec(body_count as int, workgroup_size as int),
    ensures
        layout.metadata_index < layout.partial_radius_offset,
        layout.partial_radius_offset + div_ceil_spec(active_count as int, workgroup_size as int)
            <= layout.len,
{
    lemma_div_is_ordered(
        active_count + workgroup_size - 1,
        body_count + workgroup_size - 1,
        workgroup_size as int,
    );
}

/// The CPU supplies a radius cap exactly when the merge shader does not size its cells
/// itself on the GPU.
pub proof fn lemma_cpu_cap_iff_fixed_mode(policy: MergeCellSizePolicy)
    ensures
        cpu_radius_cap_source_spec(policy) is None <==> merge_cell_mode_spec(policy)
            == MERGE_CELL_MODE_GPU_ADAPTIVE,
{
}

/// The merge shader runs in GPU-adaptive mode exactly when the frame (with at least one
/// merge iteration) runs the pass that writes the adaptive cell size.
pub proof fn lemma_adaptive_mode_has_finalize_pass(
    policy: MergeCellSizePolicy,
    workgroups: u32,
    bucket_workgroups: u32,
    iterations: nat,
)
    requires
        iterations > 0,
    ensures
        frame_plan_spec(
            true,
            policy == MergeCellSizePolicy::AdaptivePerPrepare,
            workgroups,
            bucket_workgroups,
            iterations,
        ).contains(finalize_pass()) <==> merge_cell_mode_spec(policy) == MERGE_CELL_MODE_GPU_ADAPTIVE,
{
    lemma_finalize_pass_iff_adaptive(
        policy == MergeCellSizePolicy::AdaptivePerPrepare,
        workgroups,
        bucket_workgroups,
        iterations,
    );
}

} // verus!
