use vstd::prelude::*;
use vstd::arithmetic::div_mod::lemma_fundamental_div_mod_converse;
use bevy::render::render_resource::{CachedComputePipelineId, CachedPipelineState, PipelineCache};
use bevy::shader::PipelineCacheError;
use crate::simulation::profiling::has_prefix;

verus! {

/// `ceil(count / group_size)`: the number of groups of `group_size` that cover `count` items.
pub open spec fn div_ceil_spec(count: int, group_size: int) -> int {
    (count + group_size - 1) / group_size
}

/// Number of compute workgroups that cover `active_count` bodies.
pub fn dispatch_workgroups(active_count: u32, workgroup_size: u32) -> (groups: u32)
    requires
        workgroup_size > 0,
    ensures
        groups == div_ceil_spec(active_count as int, workgroup_size as int),
        groups * workgroup_size >= active_count,
        groups == 0 || (groups - 1) * workgroup_size < active_count,
{
    let q = active_count / workgroup_size;
    let r = active_count % workgroup_size;
    proof {
        lemma_div_ceil_parts(active_count as int, workgroup_size as int);
    }
    if r == 0 {
        q
    } else {
        q + 1
    }
}

/// `ceil(a / w)` is the quotient, plus one when the remainder is not zero; a quotient
/// below `a` leaves room for that one.
pub proof fn lemma_div_ceil_parts(a: int, w: int)
    requires
        a >= 0,
        w > 0,
    ensures
        div_ceil_spec(a, w) == a / w + (if a % w == 0 { 0int } else { 1int }),
        a % w != 0 ==> a / w < a,
        div_ceil_spec(a, w) * w >= a,
        div_ceil_spec(a, w) == 0 || (div_ceil_spec(a, w) - 1) * w < a,
{
    let q = a / w;
    let r = a % w;
    assert(a == q * w + r) by (nonlinear_arith)
        requires
            q == a / w,
            r == a % w,
            w > 0,
    ;
    assert(q >= 0) by (nonlinear_arith)
        requires
            q == a / w,
            a >= 0,
            w > 0,
    ;
    assert(q <= q * w) by (nonlinear_arith)
        requires
            w >= 1,
            q >= 0,
    ;
    assert((q + 1) * w == q * w + w) by (nonlinear_arith);
    assert((q - 1) * w == q * w - w) by (nonlinear_arith);
    if r == 0 {
        lemma_fundamental_div_mod_converse(a + w - 1, w, q, w - 1);
    } else {
        assert(a + w - 1 == (q + 1) * w + (r - 1));
        lemma_fundamental_div_mod_converse(a + w - 1, w, q + 1, r - 1);
    }
}

/// One instrumented compute pass of the simulation frame.
#[derive(Debug, Clone, Copy, PartialEq, Eq, Structural)]
pub enum ComputePass {
    PositionStep,
    Gravity,
    VelocityStep,
    MergePrepare,
    MergeFinalizeCellSize,
    MergeClearBuckets,
    MergeInitOwner,
    MergeBuildGrid,
    MergeFindOwner,
    MergeApply,
    Colors,
}

/// The bind group a compute pass binds at slot 0.
#[derive(Debug, Clone, Copy, PartialEq, Eq, Structural)]
pub enum BindGroupKind {
    Gravity,
    Integrate,
    Merge,
    Colors,
}

impl ComputePass {
    pub open spec fn bind_group_spec(self) -> BindGroupKind {
        match self {
            ComputePass::PositionStep | ComputePass::VelocityStep => BindGroupKind::Integrate,
            ComputePass::Gravity => BindGroupKind::Gravity,
            ComputePass::Colors => BindGroupKind::Colors,
            _ => BindGroupKind::Merge,
        }
    }

    /// Whether this pass belongs to the merge stage.
    pub open spec fn is_merge_spec(self) -> bool {
        match self {
            ComputePass::PositionStep | ComputePass::Gravity | ComputePass::VelocityStep
            | ComputePass::Colors => false,
            _ => true,
        }
    }

    pub open spec fn suffix_spec(self) -> Seq<char> {
        match self {
            ComputePass::PositionStep => "position_step"@,
            ComputePass::Gravity => "gravity"@,
            ComputePass::VelocityStep => "velocity_step"@,
            ComputePass::MergePrepare => "merge_prepare"@,
            ComputePass::MergeFinalizeCellSize => "merge_finalize_cell_size"@,
            ComputePass::MergeClearBuckets => "merge_clear_buckets"@,
            ComputePass::MergeInitOwner => "merge_init_owner"@,
            ComputePass::MergeBuildGrid => "merge_build_grid"@,
            ComputePass::MergeFindOwner => "merge_find_owner"@,
            ComputePass::MergeApply => "merge_apply"@,
            ComputePass::Colors => "colors"@,
        }
    }

    pub open spec fn display_label_spec(self) -> Seq<char> {
        match self {
            ComputePass::PositionStep => "Position step"@,
            ComputePass::Gravity => "Gravity"@,
            ComputePass::VelocityStep => "Velocity step"@,
            ComputePass::MergePrepare => "Merge prepare"@,
            ComputePass::MergeFinalizeCellSize => "Merge finalize cell size"@,
            ComputePass::MergeClearBuckets => "Merge clear buckets"@,
            ComputePass::MergeInitOwner => "Merge init owner"@,
            ComputePass::MergeBuildGrid => "Merge build grid"@,
            ComputePass::MergeFindOwner => "Merge find owner"@,
            ComputePass::MergeApply => "Merge apply"@,
            ComputePass::Colors => "Colors"@,
        }
    }

    pub open spec fn entry_point_spec(self) -> Seq<char> {
        match self {
            ComputePass::PositionStep => "position_step"@,
            ComputePass::Gravity => "main"@,
            ComputePass::VelocityStep => "velocity_step"@,
            ComputePass::MergePrepare => "prepare"@,
            ComputePass::MergeFinalizeCellSize => "finalize_cell_size"@,
            ComputePass::MergeClearBuckets => "clear_buckets"@,
            ComputePass::MergeInitOwner => "init_owner"@,
            ComputePass::MergeBuildGrid => "build_grid"@,
            ComputePass::MergeFindOwner => "find_owner"@,
            ComputePass::MergeApply => "apply_merge"@,
            ComputePass::Colors => "main"@,
        }
    }

    /// Entry point of the pass's compute pipeline in its shader (the shader module is the
    /// one of the pass's bind group: gravity, integrate, merge or colors).
    pub fn entry_point(&self) -> (entry: &'static str)
        ensures
            entry@ == self.entry_point_spec(),
    {
        match self {
            ComputePass::PositionStep => "position_step",
            ComputePass::Gravity => "main",
            ComputePass::VelocityStep => "velocity_step",
            ComputePass::MergePrepare => "prepare",
            ComputePass::MergeFinalizeCellSize => "finalize_cell_size",
            ComputePass::MergeClearBuckets => "clear_buckets",
            ComputePass::MergeInitOwner => "init_owner",
            ComputePass::MergeBuildGrid => "build_grid",
            ComputePass::MergeFindOwner => "find_owner",
            ComputePass::MergeApply => "apply_merge",
            ComputePass::Colors => "main",
        }
    }

    /// Label of the compute pass and of its timing span: `sim/` followed by the
    /// diagnostic suffix.
    pub fn pass_label(&self) -> (label: &'static str)
        ensures
            label@ == "sim/"@ + self.suffix_spec(),
    {
        proof {
            reveal_strlit("sim/");
            match self {
            ComputePass::PositionStep => {
                reveal_strlit("sim/position_step");
                reveal_strlit("position_step");
            },
            ComputePass::Gravity => {
                reveal_strlit("sim/gravity");
                reveal_strlit("gravity");
            },
            ComputePass::VelocityStep => {
                reveal_strlit("sim/velocity_step");
                reveal_strlit("velocity_step");
            },
            ComputePass::MergePrepare => {
                reveal_strlit("sim/merge_prepare");
                reveal_strlit("merge_prepare");
            },
            ComputePass::MergeFinalizeCellSize => {
                reveal_strlit("sim/merge_finalize_cell_size");
                reveal_strlit("merge_finalize_cell_size");
            },
            ComputePass::MergeClearBuckets => {
                reveal_strlit("sim/merge_clear_buckets");
                reveal_strlit("merge_clear_buckets");
            },
            ComputePass::MergeInitOwner => {
                reveal_strlit("sim/merge_init_owner");
                reveal_strlit("merge_init_owner");
            },
            ComputePass::MergeBuildGrid => {
                reveal_strlit("sim/merge_build_grid");
                reveal_strlit("merge_build_grid");
            },
            ComputePass::MergeFindOwner => {
                reveal_strlit("sim/merge_find_owner");
                reveal_strlit("merge_find_owner");
            },
            ComputePass::MergeApply => {
                reveal_strlit("sim/merge_apply");
                reveal_strlit("merge_apply");
            },
            ComputePass::Colors => {
                reveal_strlit("sim/colors");
                reveal_strlit("colors");
            },
            }
        }
        match self {
            ComputePass::PositionStep => "sim/position_step",
            ComputePass::Gravity => "sim/gravity",
            ComputePass::VelocityStep => "sim/velocity_step",
            ComputePass::MergePrepare => "sim/merge_prepare",
            ComputePass::MergeFinalizeCellSize => "sim/merge_finalize_cell_size",
            ComputePass::MergeClearBuckets => "sim/merge_clear_buckets",
            ComputePass::MergeInitOwner => "sim/merge_init_owner",
            ComputePass::MergeBuildGrid => "sim/merge_build_grid",
            ComputePass::MergeFindOwner => "sim/merge_find_owner",
            ComputePass::MergeApply => "sim/merge_apply",
            ComputePass::Colors => "sim/colors",
        }
    }

    /// The bind group this pass uses.
    pub fn bind_group(&self) -> (group: BindGroupKind)
        ensures
            group == self.bind_group_spec(),
            self.is_merge_spec() ==> group == BindGroupKind::Merge,
            group == BindGroupKind::Integrate <==> (*self == ComputePass::PositionStep || *self
                == ComputePass::VelocityStep),
    {
        proof {
            lemma_bind_group_by_stage(*self);
        }
        match self {
            ComputePass::PositionStep | ComputePass::VelocityStep => BindGroupKind::Integrate,
            ComputePass::Gravity => BindGroupKind::Gravity,
            ComputePass::Colors => BindGroupKind::Colors,
            _ => BindGroupKind::Merge,
        }
    }

    /// Whether the pass is one of the merge passes summed into the merge total.
    pub fn is_merge(&self) -> (merge: bool)
        ensures
            merge == self.is_merge_spec(),
    {
        match self {
            ComputePass::PositionStep | ComputePass::Gravity | ComputePass::VelocityStep
            | ComputePass::Colors => false,
            _ => true,
        }
    }

    /// Diagnostic path suffix of the pass (`render/sim/<suffix>/...`).
    pub fn diagnostic_suffix(&self) -> (suffix: &'static str)
        ensures
            suffix@ == self.suffix_spec(),
    {
        match self {
            ComputePass::PositionStep => "position_step",
            ComputePass::Gravity => "gravity",
            ComputePass::VelocityStep => "velocity_step",
            ComputePass::MergePrepare => "merge_prepare",
            ComputePass::MergeFinalizeCellSize => "merge_finalize_cell_size",
            ComputePass::MergeClearBuckets => "merge_clear_buckets",
            ComputePass::MergeInitOwner => "merge_init_owner",
            ComputePass::MergeBuildGrid => "merge_build_grid",
            ComputePass::MergeFindOwner => "merge_find_owner",
            ComputePass::MergeApply => "merge_apply",
            ComputePass::Colors => "colors",
        }
    }

    /// Human-readable label shown in the profiling overlay.
    pub fn display_label(&self) -> (label: &'static str)
        ensures
            label@ == self.display_label_spec(),
            is_overlay_label_of(label@, self.suffix_spec()),
    {
        proof {
            lemma_display_label_names_suffix(*self);
        }
        match self {
            ComputePass::PositionStep => "Position step",
            ComputePass::Gravity => "Gravity",
            ComputePass::VelocityStep => "Velocity step",
            ComputePass::MergePrepare => "Merge prepare",
            ComputePass::MergeFinalizeCellSize => "Merge finalize cell size",
            ComputePass::MergeClearBuckets => "Merge clear buckets",
            ComputePass::MergeInitOwner => "Merge init owner",
            ComputePass::MergeBuildGrid => "Merge build grid",
            ComputePass::MergeFindOwner => "Merge find owner",
            ComputePass::MergeApply => "Merge apply",
            ComputePass::Colors => "Colors",
        }
    }
}

/// `upper` is the ASCII capital of the lower-case letter `lower`.
pub open spec fn is_ascii_capital_of(upper: char, lower: char) -> bool {
    'a' as u32 <= lower as u32 <= 'z' as u32 && upper as u32 + 32 == lower as u32
}

/// How the profiling overlay shows a diagnostic suffix: the same text with its first
/// letter capitalised and each underscore read as a space.
pub open spec fn is_overlay_label_of(label: Seq<char>, suffix: Seq<char>) -> bool {
    &&& suffix.len() > 0
    &&& label.len() == suffix.len()
    &&& is_ascii_capital_of(label[0], suffix[0])
    &&& forall|i: int|
        1 <= i < suffix.len() ==> label[i] == (if suffix[i] == '_' { ' ' } else { suffix[i] })
}

/// Each pass's overlay label is its diagnostic suffix with the first letter capitalised
/// and the underscores read as spaces (`merge_find_owner` is shown as `Merge find owner`).
pub proof fn lemma_display_label_names_suffix(pass: ComputePass)
    ensures
        is_overlay_label_of(pass.display_label_spec(), pass.suffix_spec()),
{
    match pass {
        ComputePass::PositionStep => {
            reveal_strlit("Position step");
            reveal_strlit("position_step");
        },
        ComputePass::Gravity => {
            reveal_strlit("Gravity");
            reveal_strlit("gravity");
        },
        ComputePass::VelocityStep => {
            reveal_strlit("Velocity step");
            reveal_strlit("velocity_step");
        },
        ComputePass::MergePrepare => {
            reveal_strlit("Merge prepare");
            reveal_strlit("merge_prepare");
        },
        ComputePass::MergeFinalizeCellSize => {
            reveal_strlit("Merge finalize cell size");
            reveal_strlit("merge_finalize_cell_size");
        },
        ComputePass::MergeClearBuckets => {
            reveal_strlit("Merge clear buckets");
            reveal_strlit("merge_clear_buckets");
        },
        ComputePass::MergeInitOwner => {
            reveal_strlit("Merge init owner");
            reveal_strlit("merge_init_owner");
        },
        ComputePass::MergeBuildGrid => {
            reveal_strlit("Merge build grid");
            reveal_strlit("merge_build_grid");
        },
        ComputePass::MergeFindOwner => {
            reveal_strlit("Merge find owner");
            reveal_strlit("merge_find_owner");
        },
        ComputePass::MergeApply => {
            reveal_strlit("Merge apply");
            reveal_strlit("merge_apply");
        },
        ComputePass::Colors => {
            reveal_strlit("Colors");
            reveal_strlit("colors");
        },
    }
}

/// The merge stage is the passes whose diagnostic suffix starts with `merge_`; every one of
/// them binds the merge bind group, exactly the position and velocity steps bind the
/// integrate group, and gravity and colors bind their own.
pub proof fn lemma_bind_group_by_stage(pass: ComputePass)
    ensures
        pass.is_merge_spec() <==> has_prefix(pass.suffix_spec(), "merge_"@),
        pass.is_merge_spec() ==> pass.bind_group_spec() == BindGroupKind::Merge,
        pass.bind_group_spec() == BindGroupKind::Merge ==> pass.is_merge_spec(),
        pass.bind_group_spec() == BindGroupKind::Integrate <==> (pass == ComputePass::PositionStep
            || pass == ComputePass::VelocityStep),
        pass.bind_group_spec() == BindGroupKind::Gravity <==> pass == ComputePass::Gravity,
        pass.bind_group_spec() == BindGroupKind::Colors <==> pass == ComputePass::Colors,
{
    reveal_strlit("merge_");
    let s = pass.suffix_spec();
    match pass {
        ComputePass::PositionStep => {
            reveal_strlit("position_step");
            assert(s[0] != "merge_"@[0]);
        },
        ComputePass::Gravity => {
            reveal_strlit("gravity");
            assert(s[0] != "merge_"@[0]);
        },
        ComputePass::VelocityStep => {
            reveal_strlit("velocity_step");
            assert(s[0] != "merge_"@[0]);
        },
        ComputePass::MergePrepare => {
            reveal_strlit("merge_prepare");
            assert(s.subrange(0, 6) =~= "merge_"@);
        },
        ComputePass::MergeFinalizeCellSize => {
            reveal_strlit("merge_finalize_cell_size");
            assert(s.subrange(0, 6) =~= "merge_"@);
        },
        ComputePass::MergeClearBuckets => {
            reveal_strlit("merge_clear_buckets");
            assert(s.subrange(0, 6) =~= "merge_"@);
        },
        ComputePass::MergeInitOwner => {
            reveal_strlit("merge_init_owner");
            assert(s.subrange(0, 6) =~= "merge_"@);
        },
        ComputePass::MergeBuildGrid => {
            reveal_strlit("merge_build_grid");
            assert(s.subrange(0, 6) =~= "merge_"@);
        },
        ComputePass::MergeFindOwner => {
            reveal_strlit("merge_find_owner");
            assert(s.subrange(0, 6) =~= "merge_"@);
        },
        ComputePass::MergeApply => {
            reveal_strlit("merge_apply");
            assert(s.subrange(0, 6) =~= "merge_"@);
        },
        ComputePass::Colors => {
            reveal_strlit("colors");
            assert(s[0] != "merge_"@[0]);
        },
    }
}

/// Each pass's pipeline entry point follows from its diagnostic suffix: a merge pass runs
/// the merge shader's function named by the suffix without `merge_` (apply runs
/// `apply_merge`), the position and velocity steps run the function named like the pass,
/// and gravity and colors run their shader's `main`.
pub proof fn lemma_entry_point_from_suffix(pass: ComputePass)
    ensures
        pass.is_merge_spec() && pass != ComputePass::MergeApply ==> "merge_"@ + pass.entry_point_spec()
            == pass.suffix_spec(),
        pass == ComputePass::MergeApply ==> pass.entry_point_spec() == "apply_merge"@,
        pass == ComputePass::PositionStep || pass == ComputePass::VelocityStep
            ==> pass.entry_point_spec() == pass.suffix_spec(),
        pass == ComputePass::Gravity || pass == ComputePass::Colors ==> pass.entry_point_spec()
            == "main"@,
{
    reveal_strlit("merge_");
    match pass {
        ComputePass::MergePrepare => {
            reveal_strlit("prepare");
            reveal_strlit("merge_prepare");
            assert("merge_"@ + "prepare"@ =~= "merge_prepare"@);
        },
        ComputePass::MergeFinalizeCellSize => {
            reveal_strlit("finalize_cell_size");
            reveal_strlit("merge_finalize_cell_size");
            assert("merge_"@ + "finalize_cell_size"@ =~= "merge_finalize_cell_size"@);
        },
        ComputePass::MergeClearBuckets => {
            reveal_strlit("clear_buckets");
            reveal_strlit("merge_clear_buckets");
            assert("merge_"@ + "clear_buckets"@ =~= "merge_clear_buckets"@);
        },
        ComputePass::MergeInitOwner => {
            reveal_strlit("init_owner");
            reveal_strlit("merge_init_owner");
            assert("merge_"@ + "init_owner"@ =~= "merge_init_owner"@);
        },
        ComputePass::MergeBuildGrid => {
            reveal_strlit("build_grid");
            reveal_strlit("merge_build_grid");
            assert("merge_"@ + "build_grid"@ =~= "merge_build_grid"@);
        },
        ComputePass::MergeFindOwner => {
            reveal_strlit("find_owner");
            reveal_strlit("merge_find_owner");
            assert("merge_"@ + "find_owner"@ =~= "merge_find_owner"@);
        },
        _ => {},
    }
}

/// The instrumented passes in the order the profiling overlay lists them.
pub open spec fn instrumented_passes_spec() -> Seq<ComputePass> {
    seq![
        ComputePass::PositionStep,
        ComputePass::Gravity,
        ComputePass::VelocityStep,
        ComputePass::MergePrepare,
        ComputePass::MergeFinalizeCellSize,
        ComputePass::MergeClearBuckets,
        ComputePass::MergeInitOwner,
        ComputePass::MergeBuildGrid,
        ComputePass::MergeFindOwner,
        ComputePass::MergeApply,
        ComputePass::Colors,
    ]
}

/// Every compute pass, each once, in overlay order.
pub fn instrumented_passes() -> (passes: Vec<ComputePass>)
    ensures
        passes@ == instrumented_passes_spec(),
{
    vec![
        ComputePass::PositionStep,
        ComputePass::Gravity,
        ComputePass::VelocityStep,
        ComputePass::MergePrepare,
        ComputePass::MergeFinalizeCellSize,
        ComputePass::MergeClearBuckets,
        ComputePass::MergeInitOwner,
        ComputePass::MergeBuildGrid,
        ComputePass::MergeFindOwner,
        ComputePass::MergeApply,
        ComputePass::Colors,
    ]
}

/// The overlay lists every pass exactly once.
pub proof fn lemma_instrumented_passes_complete(pass: ComputePass)
    ensures
        instrumented_passes_spec().contains(pass),
        forall|i: int, j: int|
            0 <= i < j < instrumented_passes_spec().len() ==> instrumented_passes_spec()[i]
                != instrumented_passes_spec()[j],
{
    let s = instrumented_passes_spec();
    match pass {
        ComputePass::PositionStep => assert(s[0] == pass),
        ComputePass::Gravity => assert(s[1] == pass),
        ComputePass::VelocityStep => assert(s[2] == pass),
        ComputePass::MergePrepare => assert(s[3] == pass),
        ComputePass::MergeFinalizeCellSize => assert(s[4] == pass),
        ComputePass::MergeClearBuckets => assert(s[5] == pass),
        ComputePass::MergeInitOwner => assert(s[6] == pass),
        ComputePass::MergeBuildGrid => assert(s[7] == pass),
        ComputePass::MergeFindOwner => assert(s[8] == pass),
        ComputePass::MergeApply => assert(s[9] == pass),
        ComputePass::Colors => assert(s[10] == pass),
    }
}

/// One compute pass recorded into the command encoder.
#[derive(Debug, Clone, Copy, PartialEq, Eq, Structural)]
pub enum PassGroup {
    /// A compute pass holding a single dispatch of `pass`.
    Single { pass: ComputePass, workgroups: u32 },
    /// The `sim/merge_find_and_apply` compute pass: find-owner, then apply, both with `workgroups`.
    FindAndApply { workgroups: u32 },
}

/// Label of the compute pass that records find-owner and apply together.
pub fn find_and_apply_label() -> (label: &'static str)
    ensures
        label@ == "sim/merge_find_and_apply"@,
{
    "sim/merge_find_and_apply"
}

/// Workgroup size of the merge bucket-clearing shader.
pub const BUCKET_CLEAR_WORKGROUP_SIZE: u32 = 256;

/// The passes of one merge iteration.
pub open spec fn merge_iteration_spec(adaptive: bool, workgroups: u32, bucket_workgroups: u32) -> Seq<
    PassGroup,
> {
    seq![PassGroup::Single { pass: ComputePass::MergePrepare, workgroups }] + (if adaptive {
        seq![PassGroup::Single { pass: ComputePass::MergeFinalizeCellSize, workgroups: 1 }]
    } else {
        Seq::<PassGroup>::empty()
    }) + seq![
        PassGroup::Single { pass: ComputePass::MergeClearBuckets, workgroups: bucket_workgroups },
        PassGroup::Single { pass: ComputePass::MergeInitOwner, workgroups },
        PassGroup::Single { pass: ComputePass::MergeBuildGrid, workgroups },
        PassGroup::FindAndApply { workgroups },
    ]
}

/// `block` repeated `n` times.
pub open spec fn repeat_spec(block: Seq<PassGroup>, n: nat) -> Seq<PassGroup>
    decreases n,
{
    if n == 0 {
        Seq::<PassGroup>::empty()
    } else {
        repeat_spec(block, (n - 1) as nat) + block
    }
}

/// The compute passes of one frame: when running, the integration passes and
/// `iterations` merge iterations; in every case the color pass last.
pub open spec fn frame_plan_spec(
    running: bool,
    adaptive: bool,
    workgroups: u32,
    bucket_workgroups: u32,
    iterations: nat,
) -> Seq<PassGroup> {
    (if running {
        seq![
            PassGroup::Single { pass: ComputePass::PositionStep, workgroups },
            PassGroup::Single { pass: ComputePass::Gravity, workgroups },
            PassGroup::Single { pass: ComputePass::VelocityStep, workgroups },
        ] + repeat_spec(merge_iteration_spec(adaptive, workgroups, bucket_workgroups), iterations)
    } else {
        Seq::<PassGroup>::empty()
    }) + seq![PassGroup::Single { pass: ComputePass::Colors, workgroups }]
}

proof fn lemma_repeat_len(block: Seq<PassGroup>, n: nat)
    ensures
        repeat_spec(block, n).len() == n * block.len(),
    decreases n,
{
    if n == 0 {
        assert(0 * block.len() == 0);
    } else {
        let m = (n - 1) as nat;
        lemma_repeat_len(block, m);
        assert(repeat_spec(block, n) == repeat_spec(block, m) + block);
        assert(n * block.len() == m * block.len() + block.len()) by (nonlinear_arith)
            requires
                n == m + 1,
        ;
    }
}

/// Plans the compute passes of one frame of the simulation node.
///
/// Nothing runs until every pipeline is ready and the bind groups exist. The color
/// pass runs every frame, also while paused, so body colors follow mass and flash state.
pub fn frame_pass_plan(
    ready: bool,
    has_bind_groups: bool,
    running: bool,
    adaptive_cell_size: bool,
    active_count: u32,
    workgroup_size: u32,
    merge_bucket_count: u32,
    merge_iterations: u32,
) -> (plan: Vec<PassGroup>)
    requires
        workgroup_size > 0,
    ensures
        !(ready && has_bind_groups) ==> plan@.len() == 0,
        ready && has_bind_groups ==> plan@ == frame_plan_spec(
            running,
            adaptive_cell_size,
            div_ceil_spec(active_count as int, workgroup_size as int) as u32,
            div_ceil_spec(merge_bucket_count as int, BUCKET_CLEAR_WORKGROUP_SIZE as int) as u32,
            merge_iterations as nat,
        ),
{
    let mut plan: Vec<PassGroup> = Vec::new();
    if !(ready && has_bind_groups) {
        return plan;
    }
    let workgroups = dispatch_workgroups(active_count, workgroup_size);
    let bucket_workgroups = dispatch_workgroups(merge_bucket_count, BUCKET_CLEAR_WORKGROUP_SIZE);
    let ghost block = merge_iteration_spec(adaptive_cell_size, workgroups, bucket_workgroups);
    if running {
        plan.push(PassGroup::Single { pass: ComputePass::PositionStep, workgroups });
        plan.push(PassGroup::Single { pass: ComputePass::Gravity, workgroups });
        plan.push(PassGroup::Single { pass: ComputePass::VelocityStep, workgroups });
        let ghost head = plan@;
        let mut i: u32 = 0;
        while i < merge_iterations
            invariant
                i <= merge_iterations,
                head.len() == 3,
                block == merge_iteration_spec(adaptive_cell_size, workgroups, bucket_workgroups),
                plan@ == head + repeat_spec(block, i as nat),
            decreases merge_iterations - i,
        {
            let ghost before = plan@;
            plan.push(PassGroup::Single { pass: ComputePass::MergePrepare, workgroups });
            if adaptive_cell_size {
                plan.push(PassGroup::Single { pass: ComputePass::MergeFinalizeCellSize, workgroups: 1 });
            }
            plan.push(PassGroup::Single { pass: ComputePass::MergeClearBuckets, workgroups: bucket_workgroups });
            plan.push(PassGroup::Single { pass: ComputePass::MergeInitOwner, workgroups });
            plan.push(PassGroup::Single { pass: ComputePass::MergeBuildGrid, workgroups });
            plan.push(PassGroup::FindAndApply { workgroups });
            assert(plan@ == before + block);
            i = i + 1;
            assert(repeat_spec(block, i as nat) == repeat_spec(block, (i - 1) as nat) + block);
            assert(plan@ == head + repeat_spec(block, i as nat));
        }
    }
    plan.push(PassGroup::Single { pass: ComputePass::Colors, workgroups });
    plan
}

/// Whether a frame plan ends with the color pass, which keeps body colors current.
pub open spec fn ends_with_colors(plan: Seq<PassGroup>) -> bool {
    plan.len() > 0 && plan.last() matches PassGroup::Single { pass: ComputePass::Colors, .. }
}

/// Every frame plan ends with the color pass; a paused frame runs the color pass alone;
/// a running frame runs `3 + iterations * (5 or 6) + 1` passes.
pub proof fn lemma_frame_plan_shape(
    running: bool,
    adaptive: bool,
    workgroups: u32,
    bucket_workgroups: u32,
    iterations: nat,
)
    ensures
        ends_with_colors(frame_plan_spec(running, adaptive, workgroups, bucket_workgroups, iterations)),
        !running ==> frame_plan_spec(running, adaptive, workgroups, bucket_workgroups, iterations)
            == seq![PassGroup::Single { pass: ComputePass::Colors, workgroups }],
        running ==> frame_plan_spec(running, adaptive, workgroups, bucket_workgroups, iterations).len()
            == 4 + iterations * (if adaptive { 6int } else { 5int }),
{
    let block = merge_iteration_spec(adaptive, workgroups, bucket_workgroups);
    lemma_repeat_len(block, iterations);
    assert(block.len() == (if adaptive { 6int } else { 5int }));
    let plan = frame_plan_spec(running, adaptive, workgroups, bucket_workgroups, iterations);
    assert(plan.last() == PassGroup::Single { pass: ComputePass::Colors, workgroups });
    if !running {
        assert(plan =~= seq![PassGroup::Single { pass: ComputePass::Colors, workgroups }]);
    }
}

proof fn lemma_repeat_contains(block: Seq<PassGroup>, n: nat, x: PassGroup)
    ensures
        repeat_spec(block, n).contains(x) <==> (n > 0 && block.contains(x)),
    decreases n,
{
    if n > 0 {
        let m = (n - 1) as nat;
        lemma_repeat_contains(block, m, x);
        let prev = repeat_spec(block, m);
        let all = repeat_spec(block, n);
        assert(all == prev + block);
        if block.contains(x) {
            let k = choose|k: int| 0 <= k < block.len() && block[k] == x;
            assert(all[prev.len() + k] == x);
        }
        if prev.contains(x) {
            let k = choose|k: int| 0 <= k < prev.len() && prev[k] == x;
            assert(all[k] == x);
        }
        if all.contains(x) {
            let k = choose|k: int| 0 <= k < all.len() && all[k] == x;
            if k < prev.len() {
                assert(prev[k] == x);
            } else {
                assert(block[k - prev.len()] == x);
            }
        }
    }
}

/// The pass that turns the per-workgroup radius partials into the adaptive cell size.
pub open spec fn finalize_pass() -> PassGroup {
    PassGroup::Single { pass: ComputePass::MergeFinalizeCellSize, workgroups: 1 }
}

/// A running frame with at least one merge iteration finalizes the adaptive cell size
/// exactly when adaptive cell sizing is on.
pub proof fn lemma_finalize_pass_iff_adaptive(
    adaptive: bool,
    workgroups: u32,
    bucket_workgroups: u32,
    iterations: nat,
)
    requires
        iterations > 0,
    ensures
        frame_plan_spec(true, adaptive, workgroups, bucket_workgroups, iterations).contains(finalize_pass())
            <==> adaptive,
{
    let block = merge_iteration_spec(adaptive, workgroups, bucket_workgroups);
    let head = seq![
        PassGroup::Single { pass: ComputePass::PositionStep, workgroups },
        PassGroup::Single { pass: ComputePass::Gravity, workgroups },
        PassGroup::Single { pass: ComputePass::VelocityStep, workgroups },
    ];
    let tail = seq![PassGroup::Single { pass: ComputePass::Colors, workgroups }];
    let body = repeat_spec(block, iterations);
    let plan = frame_plan_spec(true, adaptive, workgroups, bucket_workgroups, iterations);
    assert(plan == head + body + tail);
    lemma_repeat_contains(block, iterations, finalize_pass());
    if adaptive {
        assert(block[1] == finalize_pass());
        let k = choose|k: int| 0 <= k < body.len() && body[k] == finalize_pass();
        assert(plan[3 + k] == finalize_pass());
    } else {
        assert(!block.contains(finalize_pass())) by {
            if block.contains(finalize_pass()) {
                let k = choose|k: int| 0 <= k < block.len() && block[k] == finalize_pass();
                assert(block.len() == 5);
            }
        }
        if plan.contains(finalize_pass()) {
            let k = choose|k: int| 0 <= k < plan.len() && plan[k] == finalize_pass();
            if 3 <= k < 3 + body.len() {
                assert(body[k - 3] == finalize_pass());
            }
        }
    }
}

proof fn lemma_repeat_block_at(block: Seq<PassGroup>, n: nat, k: nat)
    requires
        k < n,
    ensures
        repeat_spec(block, n).subrange(k * block.len() as int, k * block.len() + block.len() as int)
            == block,
    decreases n,
{
    let m = (n - 1) as nat;
    let l = block.len() as int;
    let prev = repeat_spec(block, m);
    lemma_repeat_len(block, m);
    assert(repeat_spec(block, n) == prev + block);
    if k == m {
        assert((prev + block).subrange(k * l, k * l + l) =~= block);
    } else {
        lemma_repeat_block_at(block, m, k);
        assert(k * l + l <= m * l) by (nonlinear_arith)
            requires
                k < m,
                l >= 0,
        ;
        assert((prev + block).subrange(k * l, k * l + l) =~= prev.subrange(k * l, k * l + l));
    }
}

/// A running frame starts with the position step, gravity and the velocity step; after them
/// come `iterations` merge iterations of equal length, and iteration `k` is exactly: prepare,
/// finalize cell size (a single workgroup, only when the cell size is adaptive), clear
/// buckets over the bucket workgroups, init owner, build grid, then find-and-apply. So in
/// every iteration, whatever the cell-size policy, the buckets are cleared before the grid
/// is built, and the grid is built before owners are found; the color pass comes last.
pub proof fn lemma_merge_iteration_order(
    adaptive: bool,
    workgroups: u32,
    bucket_workgroups: u32,
    iterations: nat,
    k: nat,
)
    requires
        k < iterations,
    ensures
        ({
            let plan = frame_plan_spec(true, adaptive, workgroups, bucket_workgroups, iterations);
            let len: int = if adaptive { 6 } else { 5 };
            &&& plan.subrange(0, 3) == seq![
                PassGroup::Single { pass: ComputePass::PositionStep, workgroups },
                PassGroup::Single { pass: ComputePass::Gravity, workgroups },
                PassGroup::Single { pass: ComputePass::VelocityStep, workgroups },
            ]
            &&& plan.len() == 4 + iterations * len
            &&& plan.last() == PassGroup::Single { pass: ComputePass::Colors, workgroups }
            &&& 3 + k * len + len <= plan.len()
            &&& plan.subrange(3 + k * len, 3 + k * len + len) == (if adaptive {
                seq![
                    PassGroup::Single { pass: ComputePass::MergePrepare, workgroups },
                    PassGroup::Single { pass: ComputePass::MergeFinalizeCellSize, workgroups: 1 },
                    PassGroup::Single { pass: ComputePass::MergeClearBuckets, workgroups: bucket_workgroups },
                    PassGroup::Single { pass: ComputePass::MergeInitOwner, workgroups },
                    PassGroup::Single { pass: ComputePass::MergeBuildGrid, workgroups },
                    PassGroup::FindAndApply { workgroups },
                ]
            } else {
                seq![
                    PassGroup::Single { pass: ComputePass::MergePrepare, workgroups },
                    PassGroup::Single { pass: ComputePass::MergeClearBuckets, workgroups: bucket_workgroups },
                    PassGroup::Single { pass: ComputePass::MergeInitOwner, workgroups },
                    PassGroup::Single { pass: ComputePass::MergeBuildGrid, workgroups },
                    PassGroup::FindAndApply { workgroups },
                ]
            })
        }),
{
    let block = merge_iteration_spec(adaptive, workgroups, bucket_workgroups);
    let head = seq![
        PassGroup::Single { pass: ComputePass::PositionStep, workgroups },
        PassGroup::Single { pass: ComputePass::Gravity, workgroups },
        PassGroup::Single { pass: ComputePass::VelocityStep, workgroups },
    ];
    let tail = seq![PassGroup::Single { pass: ComputePass::Colors, workgroups }];
    let body = repeat_spec(block, iterations);
    let plan = frame_plan_spec(true, adaptive, workgroups, bucket_workgroups, iterations);
    let len: int = if adaptive { 6 } else { 5 };
    let start: int = k * len;
    assert(plan == head + body + tail);
    lemma_merge_iteration_block(adaptive, workgroups, bucket_workgroups);
    lemma_repeat_len(block, iterations);
    lemma_repeat_block_at(block, iterations, k);
    assert(start + len <= iterations * len) by (nonlinear_arith)
        requires
            k < iterations,
            len > 0,
            start == k * len,
    ;
    assert(body.subrange(start, start + len) == block);
    assert(plan.last() == tail[0]);
    assert(plan.subrange(0, 3) =~= head);
    assert(plan.subrange(3 + start, 3 + start + len) =~= body.subrange(start, start + len));
}

/// The passes of one merge iteration, written out.
proof fn lemma_merge_iteration_block(adaptive: bool, workgroups: u32, bucket_workgroups: u32)
    ensures
        merge_iteration_spec(adaptive, workgroups, bucket_workgroups) == (if adaptive {
            seq![
                PassGroup::Single { pass: ComputePass::MergePrepare, workgroups },
                PassGroup::Single { pass: ComputePass::MergeFinalizeCellSize, workgroups: 1 },
                PassGroup::Single { pass: ComputePass::MergeClearBuckets, workgroups: bucket_workgroups },
                PassGroup::Single { pass: ComputePass::MergeInitOwner, workgroups },
                PassGroup::Single { pass: ComputePass::MergeBuildGrid, workgroups },
                PassGroup::FindAndApply { workgroups },
            ]
        } else {
            seq![
                PassGroup::Single { pass: ComputePass::MergePrepare, workgroups },
                PassGroup::Single { pass: ComputePass::MergeClearBuckets, workgroups: bucket_workgroups },
                PassGroup::Single { pass: ComputePass::MergeInitOwner, workgroups },
                PassGroup::Single { pass: ComputePass::MergeBuildGrid, workgroups },
                PassGroup::FindAndApply { workgroups },
            ]
        }),
{
    let block = merge_iteration_spec(adaptive, workgroups, bucket_workgroups);
    if adaptive {
        assert(block =~= seq![
            PassGroup::Single { pass: ComputePass::MergePrepare, workgroups },
            PassGroup::Single { pass: ComputePass::MergeFinalizeCellSize, workgroups: 1 },
            PassGroup::Single { pass: ComputePass::MergeClearBuckets, workgroups: bucket_workgroups },
            PassGroup::Single { pass: ComputePass::MergeInitOwner, workgroups },
            PassGroup::Single { pass: ComputePass::MergeBuildGrid, workgroups },
            PassGroup::FindAndApply { workgroups },
        ]);
    } else {
        assert(block =~= seq![
            PassGroup::Single { pass: ComputePass::MergePrepare, workgroups },
            PassGroup::Single { pass: ComputePass::MergeClearBuckets, workgroups: bucket_workgroups },
            PassGroup::Single { pass: ComputePass::MergeInitOwner, workgroups },
            PassGroup::Single { pass: ComputePass::MergeBuildGrid, workgroups },
            PassGroup::FindAndApply { workgroups },
        ]);
    }
}

/// What a poll of one pipeline in the pipeline cache found.
#[derive(Debug)]
pub enum PipelineStatus {
    /// The pipeline was created and can be used.
    Ready,
    /// A shader of the pipeline has not been loaded yet.
    ShaderNotLoaded,
    /// The pipeline is queued or being created.
    Pending,
    /// Creating the pipeline failed, with the error's message.
    Failed(String),
}

/// Whether every polled pipeline is ready.
pub open spec fn all_ready(statuses: Seq<PipelineStatus>) -> bool {
    forall|i: int| 0 <= i < statuses.len() ==> statuses[i] is Ready
}

/// Index of the first pipeline that is not ready (`statuses.len()` when all are).
pub open spec fn first_not_ready(statuses: Seq<PipelineStatus>) -> int
    decreases statuses.len(),
{
    if statuses.len() == 0 {
        0
    } else if !(statuses[0] is Ready) {
        0
    } else {
        1 + first_not_ready(statuses.drop_first())
    }
}

proof fn lemma_first_not_ready(statuses: Seq<PipelineStatus>)
    ensures
        0 <= first_not_ready(statuses) <= statuses.len(),
        forall|i: int| 0 <= i < first_not_ready(statuses) ==> statuses[i] is Ready,
        first_not_ready(statuses) < statuses.len() ==> !(statuses[first_not_ready(statuses)] is Ready),
        all_ready(statuses) <==> first_not_ready(statuses) == statuses.len(),
    decreases statuses.len(),
{
    if statuses.len() > 0 && statuses[0] is Ready {
        let rest = statuses.drop_first();
        lemma_first_not_ready(rest);
        assert forall|i: int| 0 <= i < first_not_ready(statuses) implies statuses[i] is Ready by {
            if i > 0 {
                assert(statuses[i] == rest[i - 1]);
            }
        }
        if all_ready(statuses) {
            assert forall|i: int| 0 <= i < rest.len() implies rest[i] is Ready by {
                assert(rest[i] == statuses[i + 1]);
            }
        }
    }
}

/// Readiness of the simulation's compute pipelines; the node records nothing until it is set.
#[derive(Debug, Clone, Copy, PartialEq, Eq, Structural)]
pub struct PipelineReadiness {
    pub ready: bool,
}

impl PipelineReadiness {
    pub fn new() -> (r: Self)
        ensures
            !r.ready,
    {
        PipelineReadiness { ready: false }
    }

    /// Takes the statuses of the pipelines, polled in order up to the first one that is not
    /// ready. Readiness latches once every pipeline is ready. Returns the index of a failed
    /// pipeline whose error is to be reported, when the first pipeline that is not ready failed.
    pub fn observe(&mut self, statuses: &[PipelineStatus]) -> (report: Option<usize>)
        ensures
            final(self).ready == (old(self).ready || all_ready(statuses@)),
            report == (if !old(self).ready && first_not_ready(statuses@) < statuses@.len()
                && statuses@[first_not_ready(statuses@)] is Failed {
                Some(first_not_ready(statuses@) as usize)
            } else {
                None
            }),
    {
        proof {
            lemma_first_not_ready(statuses@);
        }
        if self.ready {
            return None;
        }
        let mut i: usize = 0;
        while i < statuses.len()
            invariant
                0 <= i <= statuses@.len(),
                i <= first_not_ready(statuses@),
                !self.ready,
                0 <= first_not_ready(statuses@) <= statuses@.len(),
                forall|k: int| 0 <= k < first_not_ready(statuses@) ==> statuses@[k] is Ready,
                first_not_ready(statuses@) < statuses@.len() ==> !(statuses@[first_not_ready(statuses@)] is Ready),
                all_ready(statuses@) <==> first_not_ready(statuses@) == statuses@.len(),
            decreases statuses.len() - i,
        {
            match &statuses[i] {
                PipelineStatus::Ready => {},
                PipelineStatus::Failed(_) => {
                    return Some(i);
                },
                _ => {
                    return None;
                },
            }
            i = i + 1;
        }
        self.ready = true;
        None
    }

    /// Polls the pipeline cache for each pipeline in order, as the render-graph node's
    /// `update` does: nothing once ready; otherwise each id in turn up to the first pipeline
    /// that is not ready, latching readiness when every one is ready. Returns what was
    /// polled and, when the last polled pipeline failed, its error message to be logged.
    pub fn poll(&mut self, cache: &PipelineCache, ids: &[CachedComputePipelineId]) -> (report: PollReport)
        ensures
            old(self).ready ==> report.polled@.len() == 0 && final(self).ready,
            !old(self).ready ==> report.polled@.len() <= ids@.len(),
            forall|i: int| 0 <= i < report.polled@.len() ==> (#[trigger] report.polled@[i]).id == ids@[i],
            forall|i: int| 0 <= i < report.polled@.len() - 1 ==> (#[trigger] report.polled@[i]).status is Ready,
            !old(self).ready && report.polled@.len() < ids@.len() ==> report.polled@.len() > 0
                && !(report.polled@.last().status is Ready),
            final(self).ready == (old(self).ready || (report.polled@.len() == ids@.len() && forall|i: int|
                0 <= i < report.polled@.len() ==> (#[trigger] report.polled@[i]).status is Ready)),
            match report.error {
                Some(e) => report.polled@.len() > 0 && (report.polled@.last().status matches PipelineStatus::Failed(
                    m,
                ) && e@ == m@),
                None => !(report.polled@.len() > 0 && report.polled@.last().status is Failed),
            },
    {
        let mut polled: Vec<PolledPipeline> = Vec::new();
        if self.ready {
            return PollReport { polled, error: None };
        }
        let mut i: usize = 0;
        let mut stopped = false;
        while i < ids.len() && !stopped
            invariant
                0 <= i <= ids@.len(),
                polled@.len() == i,
                !self.ready,
                forall|k: int| 0 <= k < i ==> (#[trigger] polled@[k]).id == ids@[k],
                forall|k: int| 0 <= k < i - 1 ==> (#[trigger] polled@[k]).status is Ready,
                !stopped ==> forall|k: int| 0 <= k < i ==> (#[trigger] polled@[k]).status is Ready,
                stopped ==> i > 0 && !(polled@[i - 1].status is Ready),
            decreases ids.len() - i,
        {
            let p = poll_compute_pipeline(cache, ids[i]);
            stopped = !matches!(p.status, PipelineStatus::Ready);
            polled.push(p);
            i = i + 1;
        }
        if !stopped {
            self.ready = true;
        }
        let error = if polled.len() > 0 {
            let last = &polled[polled.len() - 1];
            match &last.status {
                PipelineStatus::Failed(message) => Some(message.clone()),
                _ => None,
            }
        } else {
            None
        };
        PollReport { polled, error }
    }
}

/// One pipeline as polled: the id handed to the cache and the status found.
#[derive(Debug)]
pub struct PolledPipeline {
    pub id: CachedComputePipelineId,
    pub status: PipelineStatus,
}

/// What one poll of the pipeline cache did.
#[derive(Debug)]
pub struct PollReport {
    /// The pipelines polled, in order.
    pub polled: Vec<PolledPipeline>,
    /// The error message of the last polled pipeline, when it failed.
    pub error: Option<String>,
}

#[verifier::external_type_specification]
#[verifier::external_body]
pub struct ExPipelineCache(PipelineCache);

#[verifier::external_type_specification]
#[verifier::external_body]
pub struct ExCachedComputePipelineId(CachedComputePipelineId);

/// Reads one pipeline's state with bevy's `PipelineCache::get_compute_pipeline_state` and
/// names its variant, together with the id it was asked about. Only that id is claimed:
/// the state changes as shaders load and pipelines compile in the background.
#[verifier::external_body]
fn poll_compute_pipeline(cache: &PipelineCache, id: CachedComputePipelineId) -> (polled: PolledPipeline)
    ensures
        polled.id == id,
{
    let status = match cache.get_compute_pipeline_state(id) {
        CachedPipelineState::Ok(_) => PipelineStatus::Ready,
        CachedPipelineState::Err(PipelineCacheError::ShaderNotLoaded(_)) => PipelineStatus::ShaderNotLoaded,
        CachedPipelineState::Err(err) => PipelineStatus::Failed(format!("{err}")),
        _ => PipelineStatus::Pending,
    };
    PolledPipeline { id, status }
}

} // verus!
