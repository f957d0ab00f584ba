use gravitium::bootstrap::hide_loading_when_ready;
use gravitium::simulation::shaders::inject_shader_constants;
use gravitium::url::sync::{
    detect_applied_changes, hydration_query, queue_initial_url_flush, should_replace_fragment,
    take_pending_flush,
    UrlFlushState,
};
use gravitium::url::{PendingUrlSync, UrlHydrated};
use gravitium::view::camera::orbit_focus::{
    orbit_gesture_active, orbit_pressed, OrbitFocusState, TouchControls,
};

#[test]
fn shader_constants_are_substituted() {
    let source = "let n = #{BODY_COUNT}u; let f = #{MERGE_FLASH_FRAMES}; \
                  v[#{MERGE_SCRATCH_VEL_RADIUS_OFFSET}] m[#{MERGE_SCRATCH_METADATA_INDEX}] \
                  p[#{MERGE_SCRATCH_PARTIAL_RADIUS_OFFSET}] #{BODY_COUNT} #{UNKNOWN}";
    let injected = inject_shader_constants(source, 30, 10_000);
    assert_eq!(
        injected,
        "let n = 10000u; let f = 30; v[10000] m[20000] p[20001] 10000 #{UNKNOWN}"
    );
}

#[test]
fn shader_constants_match_str_replace() {
    let source = "#{BODY_COUNT}#{BODY_COUNT}} ##{BODY_COUNT #{MERGE_FLASH_FRAMES}ü #{MERGE_SCRATCH_METADATA_INDEX}";
    let expected = source
        .replace("#{MERGE_FLASH_FRAMES}", &0.to_string())
        .replace("#{BODY_COUNT}", &7.to_string())
        .replace("#{MERGE_SCRATCH_VEL_RADIUS_OFFSET}", &7.to_string())
        .replace("#{MERGE_SCRATCH_METADATA_INDEX}", &14.to_string())
        .replace("#{MERGE_SCRATCH_PARTIAL_RADIUS_OFFSET}", &15.to_string());
    assert_eq!(inject_shader_constants(source, 0, 7), expected);
    assert_eq!(inject_shader_constants("", 1, 2), "");
}

#[test]
fn url_flush_queue() {
    let mut pending = PendingUrlSync::default();
    queue_initial_url_flush(&UrlHydrated(true), &mut pending);
    assert!(!pending.0);
    queue_initial_url_flush(&UrlHydrated(false), &mut pending);
    assert!(pending.0);
    assert!(take_pending_flush(&mut pending));
    assert!(!pending.0);
    assert!(!take_pending_flush(&mut pending));
    detect_applied_changes(false, false, &mut pending);
    assert!(!pending.0);
    detect_applied_changes(false, true, &mut pending);
    assert!(pending.0);
    assert!(!UrlHydrated::default().0);
}

#[test]
fn hydration_needs_versioned_fragment() {
    assert_eq!(hydration_query("  v=1&n=10 \n"), Some("v=1&n=10"));
    assert_eq!(hydration_query("v="), Some("v="));
    assert_eq!(hydration_query("\u{3000}v=2\u{2028}"), Some("v=2"));
    assert_eq!(hydration_query("x=1"), None);
    assert_eq!(hydration_query("v"), None);
    assert_eq!(hydration_query("   "), None);
    assert_eq!(hydration_query(" V=1"), None);
}

#[test]
fn url_flush_writes_each_state_once() {
    let mut state = UrlFlushState::new();
    assert!(state.needs_write("v=1"));
    state.record("v=1".to_string(), false);
    assert!(state.needs_write("v=1"));
    state.record("v=1".to_string(), true);
    assert!(!state.needs_write("v=1"));
    assert!(state.needs_write("v=2"));
    state.record("v=2".to_string(), true);
    assert_eq!(state.last_token.as_deref(), Some("v=2"));
}

#[test]
fn orbit_pressed_respects_modifiers() {
    assert!(orbit_pressed(None, true, None));
    assert!(!orbit_pressed(None, false, None));
    assert!(orbit_pressed(Some(true), true, Some(false)));
    assert!(!orbit_pressed(Some(false), true, None));
    assert!(!orbit_pressed(None, true, Some(true)));
}

#[test]
fn orbit_gesture_by_touch() {
    assert!(orbit_gesture_active(true, false, TouchControls::OneFingerOrbit, 0));
    assert!(orbit_gesture_active(false, true, TouchControls::OneFingerOrbit, 1));
    assert!(!orbit_gesture_active(false, true, TouchControls::OneFingerOrbit, 2));
    assert!(orbit_gesture_active(false, true, TouchControls::TwoFingerOrbit, 2));
    assert!(!orbit_gesture_active(false, false, TouchControls::TwoFingerOrbit, 2));
}

#[test]
fn orbit_focus_recenters_once_per_gesture() {
    let mut state = OrbitFocusState::new();
    assert!(!state.begin_frame(false));
    assert!(state.begin_frame(true));
    // motion too small this frame: no recenter yet, ask again next frame
    assert!(state.begin_frame(true));
    state.mark_recentered();
    assert!(!state.begin_frame(true));
    assert!(!state.begin_frame(true));
    assert!(!state.begin_frame(false));
    assert!(state.begin_frame(true));
}

#[test]
fn loading_overlay_hides_once() {
    let mut done = false;
    assert!(!hide_loading_when_ready(&mut done, false));
    assert!(!done);
    assert!(hide_loading_when_ready(&mut done, true));
    assert!(done);
    assert!(!hide_loading_when_ready(&mut done, true));
}

#[test]
fn fragment_is_replaced_only_when_it_differs() {
    assert!(should_replace_fragment(false));
    assert!(!should_replace_fragment(true));
}
