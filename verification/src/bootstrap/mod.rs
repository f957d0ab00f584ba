use vstd::prelude::*;

verus! {

/// Decides when the loading overlay goes away: the first frame on which the body meshes
/// exist. Returns whether to hide it now; `done` latches so it is hidden once.
pub fn hide_loading_when_ready(done: &mut bool, has_bodies: bool) -> (hide_now: bool)
    ensures
        hide_now == (!*old(done) && has_bodies),
        *final(done) == (*old(done) || has_bodies),
{
    if *done || !has_bodies {
        return false;
    }
    *done = true;
    true
}

} // verus!
