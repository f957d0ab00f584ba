use gravitium::model::merge_grid::{MergeGridSizer, RadiusCapSource};
use gravitium::model::MergeCellSizePolicy;
use gravitium::simulation::gpu::node::{
    dispatch_workgroups, find_and_apply_label, frame_pass_plan, instrumented_passes, BindGroupKind, ComputePass,
    PassGroup, PipelineReadiness, PipelineStatus,
};
use gravitium::simulation::gpu::params::{
    merge_cell_plan, merge_scratch_layout, MergeCellPlan, MERGE_CELL_MODE_FIXED,
    MERGE_CELL_MODE_GPU_ADAPTIVE,
};
use gravitium::simulation::upload::initial_merge_index_buffers;
use gravitium::simulation::viewport::clamp_viewport_extent;

#[test]
fn dispatch_workgroups_rounds_up() {
    assert_eq!(dispatch_workgroups(0, 64), 0);
    assert_eq!(dispatch_workgroups(1, 64), 1);
    assert_eq!(dispatch_workgroups(64, 64), 1);
    assert_eq!(dispatch_workgroups(65, 64), 2);
    assert_eq!(dispatch_workgroups(10_000, 64), 157);
    assert_eq!(dispatch_workgroups(u32::MAX, 256), 16_777_216);
    assert_eq!(dispatch_workgroups(u32::MAX, 1), u32::MAX);
}

#[test]
fn paused_frame_runs_only_colors() {
    let plan = frame_pass_plan(true, true, false, true, 100, 64, 4096, 2);
    assert_eq!(plan, vec![PassGroup::Single { pass: ComputePass::Colors, workgroups: 2 }]);
}

#[test]
fn frame_without_pipelines_or_bind_groups_runs_nothing() {
    assert!(frame_pass_plan(false, true, true, false, 100, 64, 4096, 2).is_empty());
    assert!(frame_pass_plan(true, false, true, false, 100, 64, 4096, 2).is_empty());
}

#[test]
fn running_adaptive_frame_pass_order() {
    let plan = frame_pass_plan(true, true, true, true, 130, 64, 1000, 1);
    let single = |pass, workgroups| PassGroup::Single { pass, workgroups };
    assert_eq!(
        plan,
        vec![
            single(ComputePass::PositionStep, 3),
            single(ComputePass::Gravity, 3),
            single(ComputePass::VelocityStep, 3),
            single(ComputePass::MergePrepare, 3),
            single(ComputePass::MergeFinalizeCellSize, 1),
            single(ComputePass::MergeClearBuckets, 4),
            single(ComputePass::MergeInitOwner, 3),
            single(ComputePass::MergeBuildGrid, 3),
            PassGroup::FindAndApply { workgroups: 3 },
            single(ComputePass::Colors, 3),
        ]
    );
}

#[test]
fn running_fixed_frame_repeats_merge_iterations() {
    let plan = frame_pass_plan(true, true, true, false, 64, 64, 256, 3);
    assert_eq!(plan.len(), 4 + 3 * 5);
    let prepares = plan
        .iter()
        .filter(|g| **g == PassGroup::Single { pass: ComputePass::MergePrepare, workgroups: 1 })
        .count();
    assert_eq!(prepares, 3);
    assert!(!plan
        .iter()
        .any(|g| matches!(g, PassGroup::Single { pass: ComputePass::MergeFinalizeCellSize, .. })));
    assert_eq!(plan.last(), Some(&PassGroup::Single { pass: ComputePass::Colors, workgroups: 1 }));
}

#[test]
fn pass_metadata() {
    let passes = instrumented_passes();
    assert_eq!(passes.len(), 11);
    let suffixes: Vec<&str> = passes.iter().map(|p| p.diagnostic_suffix()).collect();
    assert_eq!(
        suffixes,
        vec![
            "position_step",
            "gravity",
            "velocity_step",
            "merge_prepare",
            "merge_finalize_cell_size",
            "merge_clear_buckets",
            "merge_init_owner",
            "merge_build_grid",
            "merge_find_owner",
            "merge_apply",
            "colors",
        ]
    );
    assert_eq!(ComputePass::MergeFinalizeCellSize.display_label(), "Merge finalize cell size");
    for pass in &passes {
        assert_eq!(pass.is_merge(), pass.diagnostic_suffix().starts_with("merge_"));
    }
    assert_eq!(ComputePass::PositionStep.bind_group(), BindGroupKind::Integrate);
    assert_eq!(ComputePass::VelocityStep.bind_group(), BindGroupKind::Integrate);
    assert_eq!(ComputePass::Gravity.bind_group(), BindGroupKind::Gravity);
    assert_eq!(ComputePass::MergeApply.bind_group(), BindGroupKind::Merge);
    assert_eq!(ComputePass::Colors.bind_group(), BindGroupKind::Colors);
}

#[test]
fn readiness_latches_when_all_pipelines_are_ready() {
    let mut readiness = PipelineReadiness::new();
    assert_eq!(
        readiness.observe(&[PipelineStatus::Ready, PipelineStatus::Pending]),
        None
    );
    assert!(!readiness.ready);
    assert_eq!(
        readiness.observe(&[PipelineStatus::Ready, PipelineStatus::ShaderNotLoaded]),
        None
    );
    assert!(!readiness.ready);
    assert_eq!(
        readiness.observe(&[
            PipelineStatus::Ready,
            PipelineStatus::Failed("bad shader".to_string()),
            PipelineStatus::Failed("other".to_string()),
        ]),
        Some(1)
    );
    assert!(!readiness.ready);
    assert_eq!(readiness.observe(&[PipelineStatus::Ready, PipelineStatus::Ready]), None);
    assert!(readiness.ready);
    assert_eq!(
        readiness.observe(&[PipelineStatus::Failed("late".to_string())]),
        None
    );
    assert!(readiness.ready);
}

#[test]
fn readiness_reports_only_the_first_blocker() {
    let mut readiness = PipelineReadiness::new();
    assert_eq!(
        readiness.observe(&[PipelineStatus::Pending, PipelineStatus::Failed("x".to_string())]),
        None
    );
    assert!(!readiness.ready);
}

#[test]
fn merge_cell_plan_per_policy() {
    assert_eq!(
        merge_cell_plan(MergeCellSizePolicy::AdaptivePerPrepare, true, 1000, 64),
        MergeCellPlan { cell_size_mode: MERGE_CELL_MODE_GPU_ADAPTIVE, radius_partial_count: 16, use_cpu_radius_cap: false }
    );
    assert_eq!(
        merge_cell_plan(MergeCellSizePolicy::ConservativeFixed, true, 1000, 64),
        MergeCellPlan { cell_size_mode: MERGE_CELL_MODE_FIXED, radius_partial_count: 16, use_cpu_radius_cap: false }
    );
    assert_eq!(
        merge_cell_plan(MergeCellSizePolicy::InitialMassEnvelope, true, 64, 64),
        MergeCellPlan { cell_size_mode: MERGE_CELL_MODE_FIXED, radius_partial_count: 1, use_cpu_radius_cap: true }
    );
    assert_eq!(
        merge_cell_plan(MergeCellSizePolicy::InitialMassEnvelope, false, 0, 64),
        MergeCellPlan { cell_size_mode: MERGE_CELL_MODE_FIXED, radius_partial_count: 0, use_cpu_radius_cap: false }
    );
}

#[test]
fn default_policy_is_conservative_fixed() {
    assert_eq!(MergeCellSizePolicy::default(), MergeCellSizePolicy::ConservativeFixed);
    assert!(MergeCellSizePolicy::AdaptivePerPrepare.is_gpu_adaptive());
    assert!(!MergeCellSizePolicy::ConservativeFixed.is_gpu_adaptive());
}

#[test]
fn conservative_policy_returns_fixed_cap() {
    assert_eq!(
        MergeGridSizer::cpu_radius_cap_source(MergeCellSizePolicy::ConservativeFixed),
        Some(RadiusCapSource::ConservativeFixed)
    );
    assert_eq!(
        MergeGridSizer::cpu_radius_cap_source(MergeCellSizePolicy::InitialMassEnvelope),
        Some(RadiusCapSource::InitialMassEnvelope)
    );
}

#[test]
fn adaptive_policy_has_no_cpu_cap() {
    assert_eq!(MergeGridSizer::cpu_radius_cap_source(MergeCellSizePolicy::AdaptivePerPrepare), None);
}

#[test]
fn merge_scratch_layout_offsets() {
    let layout = merge_scratch_layout(10_000, 64);
    assert_eq!(layout.body_offset, 0);
    assert_eq!(layout.vel_radius_offset, 10_000);
    assert_eq!(layout.metadata_index, 20_000);
    assert_eq!(layout.partial_radius_offset, 20_001);
    assert_eq!(layout.max_merge_workgroups, 157);
    assert_eq!(layout.len, 20_158);
    for active in [0u32, 1, 64, 9_999, 10_000] {
        assert!(layout.partial_radius_offset + dispatch_workgroups(active, 64) as usize <= layout.len);
    }
}

#[test]
fn initial_merge_index_buffers_contents() {
    let buffers = initial_merge_index_buffers(3, 4);
    assert_eq!(buffers.merge_bucket_heads, vec![u32::MAX; 4]);
    assert_eq!(buffers.merge_aux, vec![0; 6]);
    assert_eq!(buffers.merge_owner, vec![3; 3]);
    let empty = initial_merge_index_buffers(0, 0);
    assert!(empty.merge_bucket_heads.is_empty() && empty.merge_aux.is_empty() && empty.merge_owner.is_empty());
}

#[test]
fn viewport_extent_is_clamped() {
    assert_eq!(clamp_viewport_extent(500, 1000), 500);
    assert_eq!(clamp_viewport_extent(1500, 1000), 1000);
    assert_eq!(clamp_viewport_extent(9000, 10_000), 8192);
    assert_eq!(clamp_viewport_extent(0, 1000), 1);
    assert_eq!(clamp_viewport_extent(500, 0), 1);
}

#[test]
fn pass_labels_and_entry_points() {
    for pass in instrumented_passes() {
        assert_eq!(pass.pass_label(), format!("sim/{}", pass.diagnostic_suffix()));
    }
    assert_eq!(find_and_apply_label(), "sim/merge_find_and_apply");
    let entries: Vec<&str> = instrumented_passes().iter().map(|p| p.entry_point()).collect();
    assert_eq!(
        entries,
        vec![
            "position_step",
            "main",
            "velocity_step",
            "prepare",
            "finalize_cell_size",
            "clear_buckets",
            "init_owner",
            "build_grid",
            "find_owner",
            "apply_merge",
            "main",
        ]
    );
}

#[test]
fn cpu_cap_exactly_when_gpu_does_not_size_cells() {
    for policy in [
        MergeCellSizePolicy::ConservativeFixed,
        MergeCellSizePolicy::InitialMassEnvelope,
        MergeCellSizePolicy::AdaptivePerPrepare,
    ] {
        let plan = merge_cell_plan(policy, true, 10, 64);
        assert_eq!(
            MergeGridSizer::cpu_radius_cap_source(policy).is_none(),
            plan.cell_size_mode == MERGE_CELL_MODE_GPU_ADAPTIVE
        );
        let frame = frame_pass_plan(true, true, true, policy.is_gpu_adaptive(), 10, 64, 256, 2);
        let finalizes = frame
            .iter()
            .any(|g| matches!(g, PassGroup::Single { pass: ComputePass::MergeFinalizeCellSize, .. }));
        assert_eq!(finalizes, plan.cell_size_mode == MERGE_CELL_MODE_GPU_ADAPTIVE);
    }
}
