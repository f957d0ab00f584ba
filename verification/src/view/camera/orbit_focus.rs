use vstd::prelude::*;

verus! {

/// How many touches orbit the camera.
#[derive(Debug, Clone, Copy, PartialEq, Eq, Structural)]
pub enum TouchControls {
    OneFingerOrbit,
    TwoFingerOrbit,
}

/// Whether the mouse orbit input is held: the orbit modifier (if one is configured) is
/// pressed, the orbit button is pressed, and the pan modifier (if one is configured) is not.
/// A modifier is given as `Some(pressed)` when configured.
pub fn orbit_pressed(orbit_modifier: Option<bool>, orbit_button: bool, pan_modifier: Option<bool>) -> (pressed: bool)
    ensures
        pressed == (match orbit_modifier {
            Some(p) => p,
            None => true,
        } && orbit_button && match pan_modifier {
            Some(p) => !p,
            None => true,
        }),
{
    let orbit_ok = match orbit_modifier {
        Some(p) => p,
        None => true,
    };
    let pan_ok = match pan_modifier {
        Some(p) => !p,
        None => true,
    };
    orbit_ok && orbit_button && pan_ok
}

/// Whether an orbit gesture is under way: by mouse, or, with touch enabled, by as many
/// touches as the touch controls orbit with.
pub fn orbit_gesture_active(
    mouse_orbit_pressed: bool,
    touch_enabled: bool,
    controls: TouchControls,
    touch_count: usize,
) -> (active: bool)
    ensures
        active == (mouse_orbit_pressed || (touch_enabled && match controls {
            TouchControls::OneFingerOrbit => touch_count == 1,
            TouchControls::TwoFingerOrbit => touch_count == 2,
        })),
{
    if mouse_orbit_pressed {
        return true;
    }
    if !touch_enabled {
        return false;
    }
    match controls {
        TouchControls::OneFingerOrbit => touch_count == 1,
        TouchControls::TwoFingerOrbit => touch_count == 2,
    }
}

/// Tracking of the orbit gesture that recenters the orbit focus on the screen center.
#[derive(Debug, Clone, Copy, PartialEq, Eq, Structural)]
pub struct OrbitFocusState {
    pub gesture_active: bool,
    pub syncing: bool,
}

/// State after a frame and whether the frame should try to recenter the focus.
pub open spec fn begin_frame_spec(state: OrbitFocusState, gesture_active: bool) -> (OrbitFocusState, bool) {
    if !gesture_active {
        (OrbitFocusState { gesture_active: false, syncing: false }, false)
    } else if !state.gesture_active {
        (OrbitFocusState { gesture_active: true, syncing: false }, true)
    } else {
        (state, !state.syncing)
    }
}

impl OrbitFocusState {
    pub fn new() -> (state: Self)
        ensures
            !state.gesture_active,
            !state.syncing,
    {
        OrbitFocusState { gesture_active: false, syncing: false }
    }

    /// Starts a frame: a frame without a gesture resets the tracking; a gesture that has
    /// not recentered yet asks for a recenter (once the motion and pivot allow it).
    pub fn begin_frame(&mut self, gesture_active: bool) -> (try_recenter: bool)
        ensures
            (*final(self), try_recenter) == begin_frame_spec(*old(self), gesture_active),
    {
        if !gesture_active {
            self.gesture_active = false;
            self.syncing = false;
            return false;
        }
        if !self.gesture_active {
            self.gesture_active = true;
            self.syncing = false;
        }
        !self.syncing
    }

    /// Notes that the focus was recentered for the current gesture.
    pub fn mark_recentered(&mut self)
        ensures
            final(self).syncing,
            final(self).gesture_active == old(self).gesture_active,
    {
        self.syncing = true;
    }
}

/// The focus is recentered at most once per gesture: after a recenter, no frame of the
/// same gesture asks for another, however long it lasts; a new gesture asks again.
pub proof fn lemma_recenter_once_per_gesture(state: OrbitFocusState)
    requires
        state.gesture_active,
        state.syncing,
    ensures
        begin_frame_spec(state, true) == (state, false),
        !begin_frame_spec(begin_frame_spec(state, false).0, true).0.syncing,
        begin_frame_spec(begin_frame_spec(state, false).0, true).1,
{
}

/// One frame during a gesture: the state after it and whether the focus was recentered,
/// which happens when the frame asks for it and the motion and pivot allow it
/// (`can_recenter`).
pub open spec fn gesture_frame_spec(state: OrbitFocusState, can_recenter: bool) -> (OrbitFocusState, bool) {
    let (s1, try_recenter) = begin_frame_spec(state, true);
    if try_recenter && can_recenter {
        (OrbitFocusState { syncing: true, ..s1 }, true)
    } else {
        (s1, false)
    }
}

/// The state after a run of gesture frames and how many of them recentered the focus.
pub open spec fn gesture_run(state: OrbitFocusState, frames: Seq<bool>) -> (OrbitFocusState, nat)
    decreases frames.len(),
{
    if frames.len() == 0 {
        (state, 0)
    } else {
        let (s1, recentered) = gesture_frame_spec(state, frames[0]);
        let (s2, count) = gesture_run(s1, frames.drop_first());
        (s2, count + if recentered { 1nat } else { 0nat })
    }
}

proof fn lemma_synced_gesture_run(state: OrbitFocusState, frames: Seq<bool>)
    requires
        state.gesture_active,
        state.syncing,
    ensures
        gesture_run(state, frames) == (state, 0nat),
    decreases frames.len(),
{
    if frames.len() > 0 {
        lemma_synced_gesture_run(state, frames.drop_first());
    }
}

/// Over any run of consecutive gesture frames, whatever the motion and pivot allow on each,
/// the focus is recentered at most once; once it was, the run recenters no more.
pub proof fn lemma_gesture_run_recenters_at_most_once(state: OrbitFocusState, frames: Seq<bool>)
    ensures
        gesture_run(state, frames).1 <= 1,
        state.gesture_active && state.syncing ==> gesture_run(state, frames).1 == 0,
    decreases frames.len(),
{
    if frames.len() > 0 {
        let (s1, recentered) = gesture_frame_spec(state, frames[0]);
        if recentered {
            lemma_synced_gesture_run(s1, frames.drop_first());
        } else {
            lemma_gesture_run_recenters_at_most_once(s1, frames.drop_first());
            if state.gesture_active && state.syncing {
                lemma_synced_gesture_run(state, frames);
            }
        }
    }
}

} // verus!
