use vstd::prelude::*;
use std::collections::hash_map::DefaultHasher;
use std::hash::Hasher;
use vstd::std_specs::hash::DefaultHasherAdditionalSpecFns;

verus! {

/// The profiling switches read from the environment.
#[derive(Debug, Clone, Copy, PartialEq, Eq, Structural)]
pub struct ProfilingFlags {
    /// `GRAVITIUM_PROFILE`: interactive overlay and pass timing.
    pub profile: bool,
    /// `GRAVITIUM_BENCH`: unattended frame-time benchmark.
    pub bench: bool,
    /// `GRAVITIUM_CHECKSUM`: unattended physics checksum.
    pub checksum: bool,
    /// `GRAVITIUM_PROFILE_DUMP`: one-shot stdout dumps.
    pub dump: bool,
}

/// Unattended bench / checksum / stdout dump (these also enable diagnostics).
pub fn automated_profiling_active(flags: ProfilingFlags) -> (active: bool)
    ensures
        active == (flags.bench || flags.checksum || flags.dump),
{
    flags.bench || flags.checksum || flags.dump
}

/// Interactive overlay and pass timing, also on whenever automated profiling is.
pub fn profiling_enabled(flags: ProfilingFlags) -> (enabled: bool)
    ensures
        enabled == (flags.profile || flags.bench || flags.checksum || flags.dump),
{
    flags.profile || automated_profiling_active(flags)
}

/// Whether an environment flag's text switches it on: `1`, or `true` in any ASCII case.
pub open spec fn flag_text_enabled(s: Seq<char>) -> bool {
    ||| s == seq!['1']
    ||| (s.len() == 4 && (s[0] == 't' || s[0] == 'T') && (s[1] == 'r' || s[1] == 'R') && (
    s[2] == 'u' || s[2] == 'U') && (s[3] == 'e' || s[3] == 'E'))
}

/// `a` and `b` are the same character up to ASCII case.
pub open spec fn same_char_ignoring_ascii_case(a: char, b: char) -> bool {
    ||| a == b
    ||| ('A' as u32 <= a as u32 <= 'Z' as u32 && b as u32 == a as u32 + 32)
    ||| ('A' as u32 <= b as u32 <= 'Z' as u32 && a as u32 == b as u32 + 32)
}

/// `s` and `t` are the same text up to ASCII case.
pub open spec fn eq_ignoring_ascii_case(s: Seq<char>, t: Seq<char>) -> bool {
    s.len() == t.len() && forall|i: int| 0 <= i < s.len() ==> same_char_ignoring_ascii_case(s[i], t[i])
}

proof fn lemma_char_eq_by_code(a: char, b: char)
    requires
        a as u32 == b as u32,
    ensures
        a == b,
{
    assert((a as u32) as char == a);
    assert((b as u32) as char == b);
}

/// A flag's text switches it on exactly when it is `1` or equals `true` ignoring ASCII
/// case; every other text (`false`, `0`, `yes`, the empty text, ...) leaves it off.
pub proof fn lemma_flag_text_enabled_iff(s: Seq<char>)
    ensures
        flag_text_enabled(s) <==> (s == "1"@ || eq_ignoring_ascii_case(s, "true"@)),
{
    reveal_strlit("1");
    reveal_strlit("true");
    let t = "true"@;
    if s == "1"@ {
        assert(s =~= seq!['1']);
    }
    if s.len() == 4 {
        if s[0] as u32 == 'T' as u32 { lemma_char_eq_by_code(s[0], 'T'); }
        if s[1] as u32 == 'R' as u32 { lemma_char_eq_by_code(s[1], 'R'); }
        if s[2] as u32 == 'U' as u32 { lemma_char_eq_by_code(s[2], 'U'); }
        if s[3] as u32 == 'E' as u32 { lemma_char_eq_by_code(s[3], 'E'); }
        assert(same_char_ignoring_ascii_case(s[0], t[0]) <==> (s[0] == 't' || s[0] == 'T'));
        assert(same_char_ignoring_ascii_case(s[1], t[1]) <==> (s[1] == 'r' || s[1] == 'R'));
        assert(same_char_ignoring_ascii_case(s[2], t[2]) <==> (s[2] == 'u' || s[2] == 'U'));
        assert(same_char_ignoring_ascii_case(s[3], t[3]) <==> (s[3] == 'e' || s[3] == 'E'));
        if eq_ignoring_ascii_case(s, t) {
            assert(same_char_ignoring_ascii_case(s[0], t[0]));
            assert(same_char_ignoring_ascii_case(s[1], t[1]));
            assert(same_char_ignoring_ascii_case(s[2], t[2]));
            assert(same_char_ignoring_ascii_case(s[3], t[3]));
        }
        if flag_text_enabled(s) {
            assert forall|i: int| 0 <= i < s.len() implies same_char_ignoring_ascii_case(s[i], t[i]) by {
                assert(i == 0 || i == 1 || i == 2 || i == 3);
            }
        }
    }
    if s == seq!['1'] {
        assert(s =~= "1"@);
    }
}

/// Whether an environment flag with this value (`None` when unset or not Unicode) is on.
pub fn env_flag_enabled(value: Option<&str>) -> (enabled: bool)
    ensures
        enabled == match value {
            Some(s) => flag_text_enabled(s@),
            None => false,
        },
        enabled == match value {
            Some(s) => s@ == "1"@ || eq_ignoring_ascii_case(s@, "true"@),
            None => false,
        },
{
    proof {
        if let Some(s) = value {
            lemma_flag_text_enabled_iff(s@);
        }
    }
    match value {
        None => false,
        Some(s) => {
            let n = s.unicode_len();
            if n == 1 {
                let c = s.get_char(0);
                proof {
                    if c == '1' {
                        assert(s@ =~= seq!['1']);
                    }
                }
                c == '1'
            } else if n == 4 {
                let c0 = s.get_char(0);
                let c1 = s.get_char(1);
                let c2 = s.get_char(2);
                let c3 = s.get_char(3);
                (c0 == 't' || c0 == 'T') && (c1 == 'r' || c1 == 'R') && (c2 == 'u' || c2 == 'U') && (
                c3 == 'e' || c3 == 'E')
            } else {
                false
            }
        },
    }
}

/// Whether `c` is an ASCII decimal digit.
pub open spec fn is_digit(c: char) -> bool {
    '0' as u32 <= c as u32 <= '9' as u32
}

/// Value of the decimal digit `c`.
pub open spec fn digit_value(c: char) -> int {
    c as u32 - '0' as u32
}

/// Value of a sequence of decimal digits, most significant first.
pub open spec fn digits_value(s: Seq<char>) -> int
    decreases s.len(),
{
    if s.len() == 0 {
        0
    } else {
        digits_value(s.drop_last()) * 10 + digit_value(s.last())
    }
}

/// The digits of an unsigned integer's text, after an optional leading `+`.
pub open spec fn unsigned_digits(s: Seq<char>) -> Seq<char> {
    if s.len() > 0 && s[0] == '+' {
        s.drop_first()
    } else {
        s
    }
}

/// What parsing `s` as a `u32` gives: an optional `+`, then one or more decimal
/// digits whose value fits in a `u32`.
pub open spec fn parse_u32_spec(s: Seq<char>) -> Option<u32> {
    let d = unsigned_digits(s);
    if d.len() > 0 && (forall|i: int| 0 <= i < d.len() ==> is_digit(#[trigger] d[i])) && digits_value(d)
        <= u32::MAX {
        Some(digits_value(d) as u32)
    } else {
        None
    }
}

proof fn lemma_digits_value_nonneg(s: Seq<char>)
    requires
        forall|i: int| 0 <= i < s.len() ==> is_digit(#[trigger] s[i]),
    ensures
        digits_value(s) >= 0,
    decreases s.len(),
{
    if s.len() > 0 {
        let p = s.drop_last();
        assert forall|i: int| 0 <= i < p.len() implies is_digit(#[trigger] p[i]) by {
            assert(p[i] == s[i]);
        }
        lemma_digits_value_nonneg(p);
        assert(is_digit(s[s.len() - 1]));
    }
}

/// A digit string is worth at least as much as any of its prefixes.
proof fn lemma_digits_value_prefix(s: Seq<char>, k: int)
    requires
        0 <= k <= s.len(),
        forall|i: int| 0 <= i < s.len() ==> is_digit(#[trigger] s[i]),
    ensures
        digits_value(s.subrange(0, k)) <= digits_value(s),
    decreases s.len() - k,
{
    if k < s.len() {
        let p = s.subrange(0, k + 1);
        assert forall|i: int| 0 <= i < p.len() implies is_digit(#[trigger] p[i]) by {
            assert(p[i] == s[i]);
        }
        lemma_digits_value_prefix(s, k + 1);
        assert(p.drop_last() =~= s.subrange(0, k));
        let q = s.subrange(0, k);
        assert forall|i: int| 0 <= i < q.len() implies is_digit(#[trigger] q[i]) by {
            assert(q[i] == s[i]);
        }
        lemma_digits_value_nonneg(q);
        assert(is_digit(p[k]));
    } else {
        assert(s.subrange(0, k) =~= s);
    }
}

/// Parses an environment value as a `u32` as `str::parse::<u32>` does, falling back to
/// `default` when the value is unset or does not parse.
pub fn env_u32_or(value: Option<&str>, default: u32) -> (n: u32)
    ensures
        n == match value {
            Some(s) => match parse_u32_spec(s@) {
                Some(v) => v,
                None => default,
            },
            None => default,
        },
{
    let s = match value {
        None => {
            return default;
        },
        Some(s) => s,
    };
    let n = s.unicode_len();
    let mut start: usize = 0;
    if n > 0 && s.get_char(0) == '+' {
        start = 1;
    }
    let ghost d = unsigned_digits(s@);
    assert(d =~= s@.subrange(start as int, n as int));
    if start == n {
        return default;
    }
    let mut i: usize = start;
    let mut acc: u64 = 0;
    while i < n
        invariant
            n == s@.len(),
            start <= i <= n,
            start < n,
            d == s@.subrange(start as int, n as int),
            d == unsigned_digits(s@),
            value == Some(s),
            forall|k: int| 0 <= k < i - start ==> is_digit(#[trigger] d[k]),
            acc == digits_value(d.subrange(0, i - start)),
            acc <= u32::MAX,
        decreases n - i,
    {
        let c = s.get_char(i);
        assert(c == d[i - start]);
        let code = c as u32;
        if !(48 <= code && code <= 57) {
            assert(!is_digit(d[i - start]));
            return default;
        }
        let digit = (code - 48) as u64;
        let ghost prefix = d.subrange(0, i - start + 1);
        assert(prefix.drop_last() =~= d.subrange(0, i - start));
        assert(prefix.last() == c);
        acc = acc * 10 + digit;
        i = i + 1;
        assert(acc == digits_value(prefix));
        assert(prefix == d.subrange(0, i - start));
        if acc > u32::MAX as u64 {
            proof {
                if forall|k: int| 0 <= k < d.len() ==> is_digit(#[trigger] d[k]) {
                    lemma_digits_value_prefix(d, i - start);
                }
            }
            return default;
        }
    }
    assert(d.subrange(0, i - start) =~= d);
    acc as u32
}

/// Frames at which the one-shot profiling dump prints a snapshot.
pub open spec fn is_snapshot_frame(frame: u32) -> bool {
    frame == 180 || frame == 600
}

/// The snapshot label due at `frame`, if that snapshot frame has not been dumped yet.
pub open spec fn snapshot_label_spec(frame: u32, dumped: Seq<u32>) -> Option<u32> {
    if frame == 180 && !dumped.contains(180) {
        Some(180u32)
    } else if frame == 600 && !dumped.contains(600) {
        Some(600u32)
    } else {
        None
    }
}

/// Whether no label occurs twice.
pub open spec fn no_duplicates(s: Seq<u32>) -> bool {
    forall|i: int, j: int| 0 <= i < j < s.len() ==> s[i] != s[j]
}

proof fn lemma_push_contains(s: Seq<u32>, x: u32, v: u32)
    ensures
        s.push(x).contains(v) == (s.contains(v) || x == v),
{
    let t = s.push(x);
    if x == v {
        assert(t[s.len() as int] == v);
    }
    if s.contains(v) {
        let k = choose|k: int| 0 <= k < s.len() && s[k] == v;
        assert(t[k] == v);
    }
    if t.contains(v) {
        let k = choose|k: int| 0 <= k < t.len() && t[k] == v;
        if k < s.len() {
            assert(s[k] == v);
        }
    }
}

/// Frame counter and dumped labels of the one-shot profiling dump.
#[derive(Debug)]
pub struct ProfilingDumpState {
    pub frames: u32,
    pub dumped: Vec<u32>,
}

impl ProfilingDumpState {
    pub fn new() -> (state: Self)
        ensures
            state.frames == 0,
            state.dumped@.len() == 0,
    {
        ProfilingDumpState { frames: 0, dumped: Vec::new() }
    }

    /// Counts one frame while dumping is enabled and returns the snapshot label to print
    /// now, recording it so that each snapshot frame is dumped once.
    pub fn step(&mut self, enabled: bool) -> (label: Option<u32>)
        requires
            enabled ==> old(self).frames < u32::MAX,
        ensures
            !enabled ==> label is None && final(self).frames == old(self).frames
                && final(self).dumped@ == old(self).dumped@,
            enabled ==> final(self).frames == old(self).frames + 1,
            enabled ==> label == snapshot_label_spec(final(self).frames, old(self).dumped@),
            enabled ==> final(self).dumped@ == match label {
                Some(l) => old(self).dumped@.push(l),
                None => old(self).dumped@,
            },
            enabled ==> (final(self).frames, final(self).dumped@, label) == dump_step_spec(
                old(self).frames,
                old(self).dumped@,
            ),
            no_duplicates(old(self).dumped@) ==> no_duplicates(final(self).dumped@),
            label matches Some(l) ==> is_snapshot_frame(l),
    {
        if !enabled {
            return None;
        }
        self.frames = self.frames + 1;
        let frame = self.frames;
        let mut seen180 = false;
        let mut seen600 = false;
        let mut i: usize = 0;
        while i < self.dumped.len()
            invariant
                0 <= i <= self.dumped@.len(),
                seen180 == self.dumped@.subrange(0, i as int).contains(180),
                seen600 == self.dumped@.subrange(0, i as int).contains(600),
            decreases self.dumped.len() - i,
        {
            let ghost before = self.dumped@.subrange(0, i as int);
            let d = self.dumped[i];
            assert(self.dumped@.subrange(0, i + 1) =~= before.push(d));
            proof {
                lemma_push_contains(before, d, 180);
                lemma_push_contains(before, d, 600);
            }
            if d == 180 {
                seen180 = true;
            }
            if d == 600 {
                seen600 = true;
            }
            i = i + 1;
        }
        assert(self.dumped@.subrange(0, i as int) =~= self.dumped@);
        let label = if frame == 180 && !seen180 {
            Some(180u32)
        } else if frame == 600 && !seen600 {
            Some(600u32)
        } else {
            None
        };
        let ghost old_dumped = self.dumped@;
        if let Some(l) = label {
            self.dumped.push(l);
            proof {
                assert forall|a: int, b: int| 0 <= a < b < self.dumped@.len() && no_duplicates(old_dumped)
                    implies self.dumped@[a] != self.dumped@[b] by {
                    if b == old_dumped.len() {
                        assert(old_dumped.contains(old_dumped[a]));
                    }
                }
            }
        }
        label
    }
}

/// Frame count, dumped labels and label returned after one enabled dump step.
pub open spec fn dump_step_spec(frames: u32, dumped: Seq<u32>) -> (u32, Seq<u32>, Option<u32>) {
    let f = (frames + 1) as u32;
    let label = snapshot_label_spec(f, dumped);
    (
        f,
        match label {
            Some(l) => dumped.push(l),
            None => dumped,
        },
        label,
    )
}

/// Frame count and dumped labels after `n` enabled steps from a fresh dump state.
pub open spec fn dump_run(n: nat) -> (u32, Seq<u32>)
    decreases n,
{
    if n == 0 {
        (0u32, Seq::<u32>::empty())
    } else {
        let (f, d) = dump_run((n - 1) as nat);
        let (f2, d2, _) = dump_step_spec(f, d);
        (f2, d2)
    }
}

/// The label returned by the `k`-th enabled step (`k >= 1`) from a fresh dump state.
pub open spec fn dump_label_at(k: nat) -> Option<u32> {
    let (f, d) = dump_run((k - 1) as nat);
    dump_step_spec(f, d).2
}

/// Labels dumped after `n` enabled steps: 180 once 180 frames were seen, 600 once 600 were.
pub open spec fn dumped_after(n: nat) -> Seq<u32> {
    if n >= 600 {
        seq![180u32, 600u32]
    } else if n >= 180 {
        seq![180u32]
    } else {
        Seq::<u32>::empty()
    }
}

proof fn lemma_dump_run(n: nat)
    requires
        n < u32::MAX,
    ensures
        dump_run(n) == (n as u32, dumped_after(n)),
    decreases n,
{
    if n > 0 {
        let m = (n - 1) as nat;
        lemma_dump_run(m);
        let d = dumped_after(m);
        if m >= 600 {
            assert(d[0] == 180u32 && d[1] == 600u32);
        } else if m >= 180 {
            assert(d[0] == 180u32);
            assert(!d.contains(600u32)) by {
                if d.contains(600u32) {
                    let k = choose|k: int| 0 <= k < d.len() && d[k] == 600u32;
                }
            }
            if n == 600 {
                assert(d.push(600u32) =~= dumped_after(n));
            }
        } else {
            assert(!d.contains(180u32));
            if n == 180 {
                assert(d.push(180u32) =~= dumped_after(n));
            }
        }
    }
}

/// With dumping enabled throughout, a fresh dump state prints a snapshot at exactly the
/// 180th and the 600th step, labelled with that frame, and at no other step.
pub proof fn lemma_dump_fires_at_snapshot_frames(k: nat)
    requires
        1 <= k < u32::MAX,
    ensures
        dump_label_at(k) == (if k == 180 {
            Some(180u32)
        } else if k == 600 {
            Some(600u32)
        } else {
            None
        }),
{
    let m = (k - 1) as nat;
    lemma_dump_run(m);
    let d = dumped_after(m);
    if m >= 600 {
        assert(d[0] == 180u32 && d[1] == 600u32);
    } else if m >= 180 {
        assert(d[0] == 180u32);
        assert(!d.contains(600u32)) by {
            if d.contains(600u32) {
                let j = choose|j: int| 0 <= j < d.len() && d[j] == 600u32;
            }
        }
    } else {
        assert(!d.contains(180u32));
        assert(!d.contains(600u32));
    }
}

/// What one benchmark frame asks of the caller.
#[derive(Debug, Clone, Copy, PartialEq, Eq, Structural)]
pub struct BenchTick {
    /// Record the time since the previous frame as a sample.
    pub record_sample: bool,
    /// Print a progress line.
    pub report_progress: bool,
    /// The benchmark is over: report the samples and exit.
    pub finish: bool,
}

/// Frame counting of the unattended benchmark.
#[derive(Debug, Clone, Copy, PartialEq, Eq, Structural)]
pub struct BenchTracker {
    pub frames_seen: u32,
    pub done: bool,
    pub has_last_frame: bool,
}

/// The benchmark tracker and tick after one enabled frame.
pub open spec fn bench_step_spec(state: BenchTracker, target: u32, warmup: u32) -> (BenchTracker, BenchTick) {
    if state.done {
        (state, BenchTick { record_sample: false, report_progress: false, finish: false })
    } else {
        let seen = (state.frames_seen + 1) as u32;
        let finish = seen > target + warmup;
        (
            BenchTracker { frames_seen: seen, done: finish, has_last_frame: true },
            BenchTick {
                record_sample: state.has_last_frame && state.frames_seen > warmup,
                report_progress: seen % 50 == 0,
                finish,
            },
        )
    }
}

impl BenchTracker {
    pub open spec fn fresh() -> Self {
        BenchTracker { frames_seen: 0, done: false, has_last_frame: false }
    }

    pub fn new() -> (state: Self)
        ensures
            state == Self::fresh(),
    {
        BenchTracker { frames_seen: 0, done: false, has_last_frame: false }
    }

    /// Advances the benchmark by one frame: samples are taken after `warmup` frames,
    /// progress is reported every 50 frames, and the benchmark finishes once more than
    /// `target + warmup` frames were seen.
    pub fn step(&mut self, enabled: bool, target: u32, warmup: u32) -> (tick: BenchTick)
        requires
            target + warmup <= u32::MAX,
            enabled && !old(self).done ==> old(self).frames_seen < u32::MAX,
        ensures
            !enabled ==> *final(self) == *old(self) && !tick.record_sample && !tick.report_progress
                && !tick.finish,
            enabled ==> (*final(self), tick) == bench_step_spec(*old(self), target, warmup),
    {
        if !enabled || self.done {
            return BenchTick { record_sample: false, report_progress: false, finish: false };
        }
        let record_sample = self.has_last_frame && self.frames_seen > warmup;
        self.has_last_frame = true;
        self.frames_seen = self.frames_seen + 1;
        let report_progress = self.frames_seen % 50 == 0;
        let finish = self.frames_seen > target + warmup;
        if finish {
            self.done = true;
        }
        BenchTick { record_sample, report_progress, finish }
    }
}

/// Tracker state and number of recorded samples after `n` enabled frames from `state`.
pub open spec fn bench_run(state: BenchTracker, target: u32, warmup: u32, n: nat) -> (BenchTracker, nat)
    decreases n,
{
    if n == 0 {
        (state, 0)
    } else {
        let (prev, count) = bench_run(state, target, warmup, (n - 1) as nat);
        let (next, tick) = bench_step_spec(prev, target, warmup);
        (next, if tick.record_sample { count + 1 } else { count })
    }
}

proof fn lemma_bench_run_prefix(target: u32, warmup: u32, n: nat)
    requires
        target + warmup < u32::MAX,
        n <= target + warmup + 1,
    ensures
        bench_run(BenchTracker::fresh(), target, warmup, n).0 == (BenchTracker {
            frames_seen: n as u32,
            done: n == target + warmup + 1,
            has_last_frame: n > 0,
        }),
        bench_run(BenchTracker::fresh(), target, warmup, n).1 == if n > warmup + 1 {
            (n - warmup - 1) as nat
        } else {
            0nat
        },
    decreases n,
{
    if n > 0 {
        lemma_bench_run_prefix(target, warmup, (n - 1) as nat);
    }
}

proof fn lemma_bench_run_done(target: u32, warmup: u32, n: nat)
    requires
        target + warmup < u32::MAX,
        n >= target + warmup + 1,
    ensures
        bench_run(BenchTracker::fresh(), target, warmup, n) == bench_run(
            BenchTracker::fresh(),
            target,
            warmup,
            (target + warmup + 1) as nat,
        ),
    decreases n,
{
    if n > target + warmup + 1 {
        lemma_bench_run_done(target, warmup, (n - 1) as nat);
        lemma_bench_run_prefix(target, warmup, (target + warmup + 1) as nat);
    }
}

/// A benchmark run from a fresh tracker finishes at frame `target + warmup + 1` having
/// recorded exactly `target` samples, and changes nothing after that.
pub proof fn lemma_bench_records_target_samples(target: u32, warmup: u32, n: nat)
    requires
        target + warmup < u32::MAX,
        n >= target + warmup + 1,
    ensures
        bench_run(BenchTracker::fresh(), target, warmup, n).0.done,
        bench_run(BenchTracker::fresh(), target, warmup, n).1 == target,
        bench_run(BenchTracker::fresh(), target, warmup, n).0.frames_seen == target + warmup + 1,
{
    lemma_bench_run_done(target, warmup, n);
    lemma_bench_run_prefix(target, warmup, (target + warmup + 1) as nat);
}

/// The tick of the `k`-th enabled frame (`k >= 1`) of a benchmark from a fresh tracker.
pub open spec fn bench_tick_at(target: u32, warmup: u32, k: nat) -> BenchTick {
    bench_step_spec(bench_run(BenchTracker::fresh(), target, warmup, (k - 1) as nat).0, target, warmup).1
}

/// Frame by frame, a benchmark from a fresh tracker finishes at frame `target + warmup + 1`
/// and at no other frame, records a sample at frames `warmup + 2 ..= target + warmup + 1`,
/// and asks for nothing after it finished.
pub proof fn lemma_bench_tick_at(target: u32, warmup: u32, k: nat)
    requires
        target + warmup < u32::MAX,
        k >= 1,
    ensures
        bench_tick_at(target, warmup, k).finish <==> k == target + warmup + 1,
        bench_tick_at(target, warmup, k).record_sample <==> (warmup + 2 <= k
            <= target + warmup + 1),
        k > target + warmup + 1 ==> bench_tick_at(target, warmup, k) == (BenchTick {
            record_sample: false,
            report_progress: false,
            finish: false,
        }),
{
    let m = (k - 1) as nat;
    if m <= target + warmup + 1 {
        lemma_bench_run_prefix(target, warmup, m);
    } else {
        lemma_bench_run_done(target, warmup, m);
        lemma_bench_run_prefix(target, warmup, (target + warmup + 1) as nat);
    }
}

/// Position of the sample that a percentile of rank `rank` (1-based, as `ceil(len * p)`)
/// picks in a sorted list of `len` samples, kept inside the list.
pub fn percentile_slot(rank: usize, len: usize) -> (slot: usize)
    ensures
        slot == if rank == 0 { 0 } else if rank - 1 < len - 1 { rank - 1 } else if len == 0 { 0 } else { len - 1 },
        len > 0 ==> slot < len,
{
    let r = if rank == 0 { 0 } else { rank - 1 };
    let last = if len == 0 { 0 } else { len - 1 };
    if r < last { r } else { last }
}

/// What one checksum frame asks of the caller.
#[derive(Debug, Clone, Copy, PartialEq, Eq, Structural)]
pub enum ChecksumTick {
    /// Nothing to do this frame.
    Wait,
    /// Compute and print the physics checksum now; exit afterwards when `exit`.
    Emit { exit: bool },
}

/// Frame counting of the unattended physics checksum.
#[derive(Debug, Clone, Copy, PartialEq, Eq, Structural)]
pub struct ChecksumTracker {
    pub frames_seen: u32,
    pub done: bool,
}

impl ChecksumTracker {
    pub fn new() -> (state: Self)
        ensures
            state.frames_seen == 0,
            !state.done,
    {
        ChecksumTracker { frames_seen: 0, done: false }
    }

    /// Counts one frame; once `target` frames were seen and the CPU snapshot is ready,
    /// asks for the checksum, once. The app exits afterwards unless a benchmark also runs.
    pub fn step(&mut self, enabled: bool, target: u32, snapshot_ready: bool, bench_enabled: bool) -> (tick: ChecksumTick)
        requires
            enabled && !old(self).done ==> old(self).frames_seen < u32::MAX,
        ensures
            !enabled || old(self).done ==> *final(self) == *old(self) && tick == ChecksumTick::Wait,
            enabled && !old(self).done ==> final(self).frames_seen == old(self).frames_seen + 1,
            enabled && !old(self).done ==> tick == (if final(self).frames_seen >= target && snapshot_ready {
                ChecksumTick::Emit { exit: !bench_enabled }
            } else {
                ChecksumTick::Wait
            }),
            final(self).done == (old(self).done || tick is Emit),
    {
        if !enabled || self.done {
            return ChecksumTick::Wait;
        }
        self.frames_seen = self.frames_seen + 1;
        if self.frames_seen < target {
            return ChecksumTick::Wait;
        }
        if !snapshot_ready {
            return ChecksumTick::Wait;
        }
        self.done = true;
        ChecksumTick::Emit { exit: !bench_enabled }
    }
}

/// Whether `s` starts with `p`.
pub open spec fn has_prefix(s: Seq<char>, p: Seq<char>) -> bool {
    p.len() <= s.len() && s.subrange(0, p.len() as int) == p
}

/// Whether `s` ends with `p`.
pub open spec fn has_suffix(s: Seq<char>, p: Seq<char>) -> bool {
    p.len() <= s.len() && s.subrange(s.len() - p.len(), s.len() as int) == p
}

/// `s` without the prefix `p` when it has it.
pub open spec fn strip_prefix_or_self(s: Seq<char>, p: Seq<char>) -> Seq<char> {
    if has_prefix(s, p) {
        s.subrange(p.len() as int, s.len() as int)
    } else {
        s
    }
}

/// `s` without the suffix `p` when it has it.
pub open spec fn strip_suffix_or_self(s: Seq<char>, p: Seq<char>) -> Seq<char> {
    if has_suffix(s, p) {
        s.subrange(0, s.len() - p.len())
    } else {
        s
    }
}

fn starts_with_text(s: &str, p: &str) -> (found: bool)
    ensures
        found == has_prefix(s@, p@),
{
    let n = s.unicode_len();
    let m = p.unicode_len();
    if m > n {
        return false;
    }
    let mut k: usize = 0;
    while k < m
        invariant
            n == s@.len(),
            m == p@.len(),
            m <= n,
            0 <= k <= m,
            forall|j: int| 0 <= j < k ==> s@[j] == p@[j],
        decreases m - k,
    {
        if s.get_char(k) != p.get_char(k) {
            assert(s@.subrange(0, m as int)[k as int] != p@[k as int]);
            return false;
        }
        k = k + 1;
    }
    assert(s@.subrange(0, m as int) =~= p@);
    true
}

fn ends_with_text(s: &str, p: &str) -> (found: bool)
    ensures
        found == has_suffix(s@, p@),
{
    let n = s.unicode_len();
    let m = p.unicode_len();
    if m > n {
        return false;
    }
    let start = n - m;
    let mut k: usize = 0;
    while k < m
        invariant
            n == s@.len(),
            m == p@.len(),
            start == n - m,
            0 <= k <= m,
            forall|j: int| 0 <= j < k ==> s@[start + j] == p@[j],
        decreases m - k,
    {
        if s.get_char(start + k) != p.get_char(k) {
            assert(s@.subrange(start as int, n as int)[k as int] != p@[k as int]);
            return false;
        }
        k = k + 1;
    }
    assert(s@.subrange(start as int, n as int) =~= p@);
    true
}

fn strip_prefix_text<'a>(s: &'a str, p: &str) -> (t: &'a str)
    ensures
        t@ == strip_prefix_or_self(s@, p@),
{
    if starts_with_text(s, p) {
        s.substring_char(p.unicode_len(), s.unicode_len())
    } else {
        s
    }
}

fn strip_suffix_text<'a>(s: &'a str, p: &str) -> (t: &'a str)
    ensures
        t@ == strip_suffix_or_self(s@, p@),
{
    if ends_with_text(s, p) {
        s.substring_char(0, s.unicode_len() - p.unicode_len())
    } else {
        s
    }
}

/// Whether a diagnostic path is the CPU timing of a render pass outside the simulation
/// passes, as the overlay lists them: under `render/`, not under `render/sim/`, ending in
/// `/elapsed_cpu`.
pub open spec fn is_other_render_pass_path(path: Seq<char>) -> bool {
    has_prefix(path, "render/"@) && !has_prefix(path, "render/sim/"@) && has_suffix(path, "/elapsed_cpu"@)
}

/// For the overlay's list of other render passes: the path without `/elapsed_cpu` when
/// the path is such a pass, else nothing.
pub fn other_render_pass_base(path: &str) -> (base: Option<&str>)
    ensures
        match base {
            Some(b) => is_other_render_pass_path(path@) && b@ == strip_suffix_or_self(path@, "/elapsed_cpu"@),
            None => !is_other_render_pass_path(path@),
        },
{
    if !starts_with_text(path, "render/") || starts_with_text(path, "render/sim/") || !ends_with_text(path, "/elapsed_cpu") {
        return None;
    }
    Some(strip_suffix_text(path, "/elapsed_cpu"))
}

/// The label the overlay shows for a render pass: its base path without `render/`.
pub fn render_pass_label(base: &str) -> (label: &str)
    ensures
        label@ == strip_prefix_or_self(base@, "render/"@),
{
    strip_prefix_text(base, "render/")
}

/// For the stdout dump: the label of a diagnostic path that is a render pass's CPU timing
/// outside the simulation passes (not under `render/sim/`, ending in `/elapsed_cpu`),
/// with `render/` and then `/elapsed_cpu` removed.
pub fn dump_render_pass_label(path: &str) -> (label: Option<&str>)
    ensures
        match label {
            Some(l) => !has_prefix(path@, "render/sim/"@) && has_suffix(path@, "/elapsed_cpu"@)
                && l@ == strip_suffix_or_self(strip_prefix_or_self(path@, "render/"@), "/elapsed_cpu"@),
            None => has_prefix(path@, "render/sim/"@) || !has_suffix(path@, "/elapsed_cpu"@),
        },
{
    if starts_with_text(path, "render/sim/") || !ends_with_text(path, "/elapsed_cpu") {
        return None;
    }
    let label = strip_prefix_text(path, "render/");
    Some(strip_suffix_text(label, "/elapsed_cpu"))
}

/// Little-endian bytes of `w`.
pub open spec fn le_bytes(w: u32) -> Seq<u8> {
    seq![
        (w % 256) as u8,
        ((w / 256) % 256) as u8,
        ((w / 65536) % 256) as u8,
        ((w / 16777216) % 256) as u8,
    ]
}

/// Big-endian bytes of `w`.
pub open spec fn be_bytes(w: u32) -> Seq<u8> {
    le_bytes(w).reverse()
}

/// The words that the physics checksum hashes: for each of the first `count` bodies,
/// the bit patterns of position x, y, z, then of the mass.
pub open spec fn state_words(positions: Seq<[u32; 3]>, masses: Seq<u32>, count: nat) -> Seq<u32>
    decreases count,
{
    if count == 0 {
        Seq::<u32>::empty()
    } else {
        let i = count - 1;
        state_words(positions, masses, (count - 1) as nat) + seq![
            positions[i][0],
            positions[i][1],
            positions[i][2],
            masses[i],
        ]
    }
}

/// The checksum's words for `count` covered bodies are four per body, in body order:
/// word `4 i` to `4 i + 2` are body `i`'s position x, y, z and word `4 i + 3` its mass.
/// So every covered body's position and mass is hashed, and two states that differ in
/// any of them feed the hasher different words.
pub proof fn lemma_state_words_layout(positions: Seq<[u32; 3]>, masses: Seq<u32>, count: nat)
    requires
        count <= positions.len(),
        count <= masses.len(),
    ensures
        state_words(positions, masses, count).len() == 4 * count,
        forall|i: int|
            #![trigger positions[i]]
            #![trigger masses[i]]
            0 <= i < count ==> {
                let words = state_words(positions, masses, count);
                &&& words[4 * i] == positions[i][0]
                &&& words[4 * i + 1] == positions[i][1]
                &&& words[4 * i + 2] == positions[i][2]
                &&& words[4 * i + 3] == masses[i]
            },
    decreases count,
{
    if count > 0 {
        let m = (count - 1) as nat;
        lemma_state_words_layout(positions, masses, m);
        let prev = state_words(positions, masses, m);
        let words = state_words(positions, masses, count);
        assert(words == prev + seq![positions[m as int][0], positions[m as int][1], positions[m as int][2], masses[m as int]]);
        assert forall|i: int|
            #![trigger positions[i]]
            #![trigger masses[i]]
            0 <= i < count implies {
                &&& words[4 * i] == positions[i][0]
                &&& words[4 * i + 1] == positions[i][1]
                &&& words[4 * i + 2] == positions[i][2]
                &&& words[4 * i + 3] == masses[i]
            } by {
        }
    }
}

proof fn lemma_word_bytes_injective(a: u32, b: u32, little_endian: bool)
    requires
        word_bytes(a, little_endian) == word_bytes(b, little_endian),
    ensures
        a == b,
{
    assert(a == (a % 256) + 256 * ((a / 256) % 256) + 65536 * ((a / 65536) % 256) + 16777216 * ((a / 16777216) % 256))
        by (bit_vector);
    assert(b == (b % 256) + 256 * ((b / 256) % 256) + 65536 * ((b / 65536) % 256) + 16777216 * ((b / 16777216) % 256))
        by (bit_vector);
    let la = le_bytes(a);
    let lb = le_bytes(b);
    if !little_endian {
        assert(la == word_bytes(a, little_endian).reverse());
        assert(lb == word_bytes(b, little_endian).reverse());
    }
    assert(la[0] == lb[0] && la[1] == lb[1] && la[2] == lb[2] && la[3] == lb[3]);
}

/// The checksum hashes every covered body's mass: two states that cover the same bodies
/// and differ only in the mass of one of them feed the hasher different writes.
pub proof fn lemma_state_hash_reads_every_mass(
    positions: Seq<[u32; 3]>,
    m1: Seq<u32>,
    m2: Seq<u32>,
    count: nat,
    j: int,
    little_endian: bool,
)
    requires
        count <= positions.len(),
        count <= m1.len(),
        m1.len() == m2.len(),
        0 <= j < count,
        m1[j] != m2[j],
    ensures
        encoded_writes(state_words(positions, m1, count), little_endian) != encoded_writes(
            state_words(positions, m2, count),
            little_endian,
        ),
{
    lemma_state_words_layout(positions, m1, count);
    lemma_state_words_layout(positions, m2, count);
    let e1 = encoded_writes(state_words(positions, m1, count), little_endian);
    let e2 = encoded_writes(state_words(positions, m2, count), little_endian);
    if e1 == e2 {
        assert(e1[4 * j + 3] == word_bytes(m1[j], little_endian));
        assert(e2[4 * j + 3] == word_bytes(m2[j], little_endian));
        lemma_word_bytes_injective(m1[j], m2[j], little_endian);
    }
}

/// The bytes of `w` in the given byte order.
pub open spec fn word_bytes(w: u32, little_endian: bool) -> Seq<u8> {
    if little_endian {
        le_bytes(w)
    } else {
        be_bytes(w)
    }
}

/// One write per word, each word encoded in the same byte order.
pub open spec fn encoded_writes(words: Seq<u32>, little_endian: bool) -> Seq<Seq<u8>> {
    Seq::new(words.len(), |i: int| word_bytes(words[i], little_endian))
}

/// Number of bodies that the checksum covers.
pub open spec fn checksum_count(positions_len: int, masses_len: int, active_count: int) -> int {
    if active_count <= positions_len && active_count <= masses_len {
        active_count
    } else if positions_len <= masses_len {
        positions_len
    } else {
        masses_len
    }
}

/// The physics checksum: `DefaultHasher` fed, for each covered body, the bit patterns of
/// its position (x, y, z) and its mass, every word in the byte order `little_endian`.
pub open spec fn state_hash_spec(
    positions: Seq<[u32; 3]>,
    masses: Seq<u32>,
    active_count: int,
    little_endian: bool,
) -> u64 {
    DefaultHasher::spec_finish(
        encoded_writes(
            state_words(
                positions,
                masses,
                checksum_count(positions.len() as int, masses.len() as int, active_count) as nat,
            ),
            little_endian,
        ),
    )
}

/// The bytes of `w` in the given byte order.
fn word_bytes_exec(w: u32, little_endian: bool) -> (bytes: [u8; 4])
    ensures
        bytes@ == word_bytes(w, little_endian),
{
    let b0 = (w % 256) as u8;
    let b1 = ((w / 256) % 256) as u8;
    let b2 = ((w / 65536) % 256) as u8;
    let b3 = ((w / 16777216) % 256) as u8;
    let bytes = if little_endian {
        [b0, b1, b2, b3]
    } else {
        [b3, b2, b1, b0]
    };
    assert(bytes@ =~= word_bytes(w, little_endian));
    bytes
}

/// The physics checksum with every word written in the byte order `little_endian`: for
/// each active body (bodies beyond the shorter of the two arrays are ignored), the bit
/// patterns of position x, y, z, then of the mass.
pub fn physics_state_hash_in_order(
    positions: &[[u32; 3]],
    masses: &[u32],
    active_count: usize,
    little_endian: bool,
) -> (hash: u64)
    ensures
        hash == state_hash_spec(positions@, masses@, active_count as int, little_endian),
{
    let mut count = active_count;
    if positions.len() < count {
        count = positions.len();
    }
    if masses.len() < count {
        count = masses.len();
    }
    assert(count == checksum_count(positions@.len() as int, masses@.len() as int, active_count as int));
    let mut hasher = DefaultHasher::new();
    let mut i: usize = 0;
    assert(hasher@ =~= encoded_writes(state_words(positions@, masses@, 0), little_endian));
    while i < count
        invariant
            0 <= i <= count,
            count <= positions@.len(),
            count <= masses@.len(),
            hasher@ == encoded_writes(state_words(positions@, masses@, i as nat), little_endian),
        decreases count - i,
    {
        let ghost words_before = state_words(positions@, masses@, i as nat);
        let p = positions[i];
        let b0 = word_bytes_exec(p[0], little_endian);
        hasher.write(&b0);
        let b1 = word_bytes_exec(p[1], little_endian);
        hasher.write(&b1);
        let b2 = word_bytes_exec(p[2], little_endian);
        hasher.write(&b2);
        let b3 = word_bytes_exec(masses[i], little_endian);
        hasher.write(&b3);
        i = i + 1;
        proof {
            let words = state_words(positions@, masses@, i as nat);
            assert(words == words_before + seq![p[0], p[1], p[2], masses@[i - 1]]);
            assert(hasher@ =~= encoded_writes(words, little_endian));
        }
    }
    hasher.finish()
}

/// Hash of the CPU physics state, as `u32::hash` feeds `DefaultHasher`: every word in the
/// machine's byte order, found by encoding the word 1.
pub fn physics_state_hash(positions: &[[u32; 3]], masses: &[u32], active_count: usize) -> (hash: u64)
    ensures
        exists|little_endian: bool|
            hash == state_hash_spec(positions@, masses@, active_count as int, little_endian),
{
    let probe = native_endian_bytes(1);
    let little_endian = probe[0] == 1;
    physics_state_hash_in_order(positions, masses, active_count, little_endian)
}

proof fn lemma_state_words_prefix(
    p1: Seq<[u32; 3]>,
    m1: Seq<u32>,
    p2: Seq<[u32; 3]>,
    m2: Seq<u32>,
    count: nat,
)
    requires
        count <= p1.len(),
        count <= m1.len(),
        count <= p2.len(),
        count <= m2.len(),
        forall|i: int| 0 <= i < count ==> p1[i] == p2[i] && m1[i] == m2[i],
    ensures
        state_words(p1, m1, count) == state_words(p2, m2, count),
    decreases count,
{
    if count > 0 {
        lemma_state_words_prefix(p1, m1, p2, m2, (count - 1) as nat);
    }
}

/// The checksum reads only the covered bodies: two states that cover the same number of
/// bodies and agree on them hash alike in either byte order.
pub proof fn lemma_state_hash_reads_covered_bodies_only(
    p1: Seq<[u32; 3]>,
    m1: Seq<u32>,
    p2: Seq<[u32; 3]>,
    m2: Seq<u32>,
    active_count: int,
    little_endian: bool,
)
    requires
        active_count >= 0,
        checksum_count(p1.len() as int, m1.len() as int, active_count) == checksum_count(
            p2.len() as int,
            m2.len() as int,
            active_count,
        ),
        forall|i: int|
            0 <= i < checksum_count(p1.len() as int, m1.len() as int, active_count) ==> p1[i]
                == p2[i] && m1[i] == m2[i],
    ensures
        state_hash_spec(p1, m1, active_count, little_endian) == state_hash_spec(
            p2,
            m2,
            active_count,
            little_endian,
        ),
{
    let c = checksum_count(p1.len() as int, m1.len() as int, active_count);
    lemma_state_words_prefix(p1, m1, p2, m2, c as nat);
}

/// `u32::to_ne_bytes`: the bytes of `w` in the machine's byte order, which is
/// little-endian or big-endian; which of the two is not stated.
#[verifier::external_body]
fn native_endian_bytes(w: u32) -> (bytes: [u8; 4])
    ensures
        bytes@ == le_bytes(w) || bytes@ == be_bytes(w),
{
    w.to_ne_bytes()
}

} // verus!
