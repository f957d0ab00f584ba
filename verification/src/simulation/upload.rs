use vstd::prelude::*;

verus! {

/// Initial contents of the merge index buffers uploaded with a new body state.
#[derive(Debug)]
pub struct MergeIndexBuffers {
    /// Head of each spatial-hash bucket's list: all empty (`u32::MAX`).
    pub merge_bucket_heads: Vec<u32>,
    /// Per-body auxiliary words (two per body): all zero.
    pub merge_aux: Vec<u32>,
    /// Merge owner of each body: all `body_count`, meaning no owner.
    pub merge_owner: Vec<u32>,
}

/// The index buffers of a fresh upload: empty buckets, cleared auxiliary words, and
/// no body owned by any other.
pub fn initial_merge_index_buffers(body_count: usize, merge_bucket_count: usize) -> (buffers: MergeIndexBuffers)
    requires
        body_count <= u32::MAX,
        2 * body_count <= usize::MAX,
    ensures
        buffers.merge_bucket_heads@ == Seq::new(merge_bucket_count as nat, |i: int| u32::MAX),
        buffers.merge_aux@ == Seq::new(2 * body_count as nat, |i: int| 0u32),
        buffers.merge_owner@ == Seq::new(body_count as nat, |i: int| body_count as u32),
{
    let heads = vec![u32::MAX; merge_bucket_count];
    let aux = vec![0u32; body_count * 2];
    let owner = vec![body_count as u32; body_count];
    assert(heads@ =~= Seq::new(merge_bucket_count as nat, |i: int| u32::MAX));
    assert(aux@ =~= Seq::new(2 * body_count as nat, |i: int| 0u32));
    assert(owner@ =~= Seq::new(body_count as nat, |i: int| body_count as u32));
    MergeIndexBuffers { merge_bucket_heads: heads, merge_aux: aux, merge_owner: owner }
}

} // verus!
