use std::collections::hash_map::DefaultHasher;
use std::hash::{Hash, Hasher};

use gravitium::simulation::profiling::{
    automated_profiling_active, dump_render_pass_label, env_flag_enabled, env_u32_or,
    other_render_pass_base, percentile_slot, physics_state_hash, physics_state_hash_in_order,
    render_pass_label,
    profiling_enabled, BenchTick, BenchTracker, ChecksumTick, ChecksumTracker, ProfilingDumpState,
    ProfilingFlags,
};

fn bits(v: [f32; 3]) -> [u32; 3] {
    [v[0].to_bits(), v[1].to_bits(), v[2].to_bits()]
}

fn std_hash(positions: &[[f32; 3]], masses: &[f32], count: usize) -> u64 {
    let mut hasher = DefaultHasher::new();
    for i in 0..count {
        for component in positions[i] {
            component.to_bits().hash(&mut hasher);
        }
        masses[i].to_bits().hash(&mut hasher);
    }
    hasher.finish()
}

#[test]
fn physics_state_hash_is_stable_for_known_input() {
    let positions = vec![bits([1.0, 2.0, 3.0]), bits([4.0, 5.0, 6.0])];
    let masses = vec![1.0f32.to_bits(), 2.0f32.to_bits()];
    let h1 = physics_state_hash(&positions, &masses, 2);
    let h2 = physics_state_hash(&positions, &masses, 2);
    assert_eq!(h1, h2);
}

#[test]
fn physics_state_hash_matches_hashing_each_bit_pattern() {
    let raw_positions = [[1.0f32, 2.0, 3.0], [4.0, 5.0, 6.0], [-7.5, 0.25, 9.0]];
    let raw_masses = [1.0f32, 2.0, 0.5];
    let positions: Vec<[u32; 3]> = raw_positions.iter().map(|p| bits(*p)).collect();
    let masses: Vec<u32> = raw_masses.iter().map(|m| m.to_bits()).collect();
    assert_eq!(
        physics_state_hash(&positions, &masses, 3),
        std_hash(&raw_positions, &raw_masses, 3)
    );
    assert_eq!(
        physics_state_hash(&positions, &masses, 2),
        std_hash(&raw_positions, &raw_masses, 2)
    );
}

#[test]
fn physics_state_hash_ignores_bodies_beyond_the_arrays() {
    let raw_positions = [[1.0f32, 2.0, 3.0], [4.0, 5.0, 6.0]];
    let raw_masses = [1.0f32];
    let positions: Vec<[u32; 3]> = raw_positions.iter().map(|p| bits(*p)).collect();
    let masses: Vec<u32> = raw_masses.iter().map(|m| m.to_bits()).collect();
    let expected = std_hash(&raw_positions, &raw_masses, 1);
    assert_eq!(physics_state_hash(&positions, &masses, 10), expected);
    assert_ne!(physics_state_hash(&positions, &masses, 0), expected);
    assert_eq!(physics_state_hash(&positions, &masses, 0), DefaultHasher::new().finish());
}

#[test]
fn physics_state_hash_depends_on_every_word() {
    let positions = vec![bits([1.0, 2.0, 3.0])];
    let masses = vec![1.0f32.to_bits()];
    let base = physics_state_hash(&positions, &masses, 1);
    let moved = vec![bits([1.0, 2.0, 3.5])];
    assert_ne!(physics_state_hash(&moved, &masses, 1), base);
    let heavier = vec![2.0f32.to_bits()];
    assert_ne!(physics_state_hash(&positions, &heavier, 1), base);
}

#[test]
fn profiling_flags_combine() {
    let none = ProfilingFlags { profile: false, bench: false, checksum: false, dump: false };
    assert!(!profiling_enabled(none));
    assert!(!automated_profiling_active(none));
    let profile = ProfilingFlags { profile: true, ..none };
    assert!(profiling_enabled(profile));
    assert!(!automated_profiling_active(profile));
    for flags in [
        ProfilingFlags { bench: true, ..none },
        ProfilingFlags { checksum: true, ..none },
        ProfilingFlags { dump: true, ..none },
    ] {
        assert!(automated_profiling_active(flags));
        assert!(profiling_enabled(flags));
    }
}

#[test]
fn env_flag_accepts_one_and_true() {
    assert!(env_flag_enabled(Some("1")));
    assert!(env_flag_enabled(Some("true")));
    assert!(env_flag_enabled(Some("TRUE")));
    assert!(env_flag_enabled(Some("TrUe")));
    assert!(!env_flag_enabled(Some("0")));
    assert!(!env_flag_enabled(Some("yes")));
    assert!(!env_flag_enabled(Some("true ")));
    assert!(!env_flag_enabled(Some("11")));
    assert!(!env_flag_enabled(Some("")));
    assert!(!env_flag_enabled(Some("trüe")));
    assert!(!env_flag_enabled(None));
}

#[test]
fn env_u32_parses_like_str_parse() {
    let cases = [
        "600", "+5", "", "+", "-1", "4294967295", "4294967296", "12a", "007", " 7", "99999999999999999999",
        "0", "+0", "++1", "٣",
    ];
    for case in cases {
        let expected = case.parse::<u32>().unwrap_or(42);
        assert_eq!(env_u32_or(Some(case), 42), expected, "value {case:?}");
    }
    assert_eq!(env_u32_or(None, 180), 180);
    assert_eq!(env_u32_or(Some("4294967295"), 1), u32::MAX);
}

#[test]
fn profiling_dump_fires_once_per_snapshot_frame() {
    let mut state = ProfilingDumpState::new();
    let mut labels = Vec::new();
    for _ in 0..700 {
        if let Some(label) = state.step(true) {
            labels.push((state.frames, label));
        }
    }
    assert_eq!(labels, vec![(180, 180), (600, 600)]);
    assert_eq!(state.dumped, vec![180, 600]);
    assert_eq!(state.frames, 700);
}

#[test]
fn profiling_dump_disabled_counts_nothing() {
    let mut state = ProfilingDumpState::new();
    for _ in 0..200 {
        assert_eq!(state.step(false), None);
    }
    assert_eq!(state.frames, 0);
}

#[test]
fn profiling_dump_skips_an_already_dumped_label() {
    let mut state = ProfilingDumpState { frames: 179, dumped: vec![180] };
    assert_eq!(state.step(true), None);
    assert_eq!(state.dumped, vec![180]);
}

#[test]
fn bench_records_exactly_target_samples() {
    let target = 3;
    let warmup = 2;
    let mut tracker = BenchTracker::new();
    let mut samples = 0;
    let mut finished_at = None;
    for frame in 1..=20u32 {
        let tick = tracker.step(true, target, warmup);
        if tick.record_sample {
            samples += 1;
        }
        if tick.finish {
            assert_eq!(finished_at, None);
            finished_at = Some(frame);
        }
    }
    assert_eq!(samples, target);
    assert_eq!(finished_at, Some(target + warmup + 1));
    assert!(tracker.done);
    assert_eq!(tracker.frames_seen, target + warmup + 1);
}

#[test]
fn bench_reports_progress_every_fifty_frames() {
    let mut tracker = BenchTracker::new();
    let mut progress = Vec::new();
    for frame in 1..=120u32 {
        if tracker.step(true, 600, 180).report_progress {
            progress.push(frame);
        }
    }
    assert_eq!(progress, vec![50, 100]);
}

#[test]
fn bench_disabled_does_nothing() {
    let mut tracker = BenchTracker::new();
    let tick = tracker.step(false, 1, 1);
    assert_eq!(tick, BenchTick { record_sample: false, report_progress: false, finish: false });
    assert_eq!(tracker, BenchTracker::new());
}

#[test]
fn percentile_slot_stays_in_range() {
    assert_eq!(percentile_slot(19, 20), 18);
    assert_eq!(percentile_slot(20, 20), 19);
    assert_eq!(percentile_slot(25, 20), 19);
    assert_eq!(percentile_slot(0, 5), 0);
    assert_eq!(percentile_slot(1, 1), 0);
}

#[test]
fn checksum_emits_once_when_ready() {
    let mut tracker = ChecksumTracker::new();
    assert_eq!(tracker.step(true, 3, true, false), ChecksumTick::Wait);
    assert_eq!(tracker.step(true, 3, true, false), ChecksumTick::Wait);
    assert_eq!(tracker.step(true, 3, false, false), ChecksumTick::Wait);
    assert_eq!(tracker.step(true, 3, true, false), ChecksumTick::Emit { exit: true });
    assert!(tracker.done);
    assert_eq!(tracker.step(true, 3, true, false), ChecksumTick::Wait);
    assert_eq!(tracker.frames_seen, 4);
}

#[test]
fn checksum_keeps_running_with_bench() {
    let mut tracker = ChecksumTracker::new();
    assert_eq!(tracker.step(true, 1, true, true), ChecksumTick::Emit { exit: false });
    let mut disabled = ChecksumTracker::new();
    assert_eq!(disabled.step(false, 0, true, true), ChecksumTick::Wait);
    assert_eq!(disabled.frames_seen, 0);
}

#[test]
fn physics_state_hash_in_order_matches_explicit_encodings() {
    let positions = vec![[1u32, 2, 3], [0x0102_0304, 5, 6]];
    let masses = vec![7u32, 8];
    let mut le = DefaultHasher::new();
    let mut be = DefaultHasher::new();
    for i in 0..2 {
        for w in [positions[i][0], positions[i][1], positions[i][2], masses[i]] {
            le.write(&w.to_le_bytes());
            be.write(&w.to_be_bytes());
        }
    }
    assert_eq!(physics_state_hash_in_order(&positions, &masses, 2, true), le.finish());
    assert_eq!(physics_state_hash_in_order(&positions, &masses, 2, false), be.finish());
    assert_ne!(le.finish(), be.finish());
    let native = if 1u32.to_ne_bytes()[0] == 1 { le.finish() } else { be.finish() };
    assert_eq!(physics_state_hash(&positions, &masses, 2), native);
}

#[test]
fn physics_state_hash_reads_only_covered_bodies() {
    let a_positions = vec![[1u32, 2, 3], [4, 5, 6], [9, 9, 9]];
    let a_masses = vec![10u32, 11];
    let b_positions = vec![[1u32, 2, 3], [4, 5, 6]];
    let b_masses = vec![10u32, 11, 12, 13];
    for order in [true, false] {
        assert_eq!(
            physics_state_hash_in_order(&a_positions, &a_masses, 5, order),
            physics_state_hash_in_order(&b_positions, &b_masses, 2, order)
        );
    }
}

#[test]
fn other_render_pass_paths() {
    assert_eq!(other_render_pass_base("render/shadow_pass/elapsed_cpu"), Some("render/shadow_pass"));
    assert_eq!(other_render_pass_base("render/sim/gravity/elapsed_cpu"), None);
    assert_eq!(other_render_pass_base("render/shadow_pass/elapsed_gpu"), None);
    assert_eq!(other_render_pass_base("frame_time/elapsed_cpu"), None);
    assert_eq!(render_pass_label("render/shadow_pass"), "shadow_pass");
    assert_eq!(render_pass_label("other"), "other");
    assert_eq!(dump_render_pass_label("render/shadow_pass/elapsed_cpu"), Some("shadow_pass"));
    assert_eq!(dump_render_pass_label("frame/elapsed_cpu"), Some("frame"));
    assert_eq!(dump_render_pass_label("render/sim/colors/elapsed_cpu"), None);
    assert_eq!(dump_render_pass_label("render/shadow_pass/elapsed_gpu"), None);
}
