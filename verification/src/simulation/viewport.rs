use vstd::prelude::*;

verus! {

/// `max_texture_dimension_2d` of WebGPU / Metal on many Apple GPUs.
pub const MAX_VIEWPORT_PHYSICAL: u32 = 8192;

/// Physical extent of the camera viewport along one axis, from the rounded scaled logical
/// extent: no larger than the window or the maximal texture dimension, and at least 1.
pub fn clamp_viewport_extent(rounded: u32, window_physical: u32) -> (extent: u32)
    ensures
        extent == (if rounded <= window_physical && rounded <= MAX_VIEWPORT_PHYSICAL {
            if rounded == 0 { 1 } else { rounded }
        } else if window_physical <= MAX_VIEWPORT_PHYSICAL {
            if window_physical == 0 { 1 } else { window_physical }
        } else {
            MAX_VIEWPORT_PHYSICAL
        }),
        1 <= extent <= MAX_VIEWPORT_PHYSICAL,
        window_physical > 0 ==> extent <= window_physical,
        extent <= rounded || rounded == 0,
{
    let mut extent = rounded;
    if window_physical < extent {
        extent = window_physical;
    }
    if MAX_VIEWPORT_PHYSICAL < extent {
        extent = MAX_VIEWPORT_PHYSICAL;
    }
    if extent < 1 {
        extent = 1;
    }
    extent
}

} // verus!
