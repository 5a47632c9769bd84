//! Timing of repeated operations for benchmarks: warm-up runs, then one
//! latency sample per measured run.

use std::time::{Duration, Instant};

use vstd::prelude::*;

use crate::clock::{duration_as_nanos, duration_nanos, instant_elapsed, instant_now};

verus! {

/// Runs an operation repeatedly and times it.
pub struct BenchmarkHarness {
    warmup_iterations: u64,
    measurement_iterations: u64,
    keep_raw_samples: bool,
}

/// A harness's settings.
pub struct HarnessView {
    pub warmup_iterations: u64,
    pub measurement_iterations: u64,
    pub keep_raw_samples: bool,
}

impl View for BenchmarkHarness {
    type V = HarnessView;

    closed spec fn view(&self) -> HarnessView {
        HarnessView {
            warmup_iterations: self.warmup_iterations,
            measurement_iterations: self.measurement_iterations,
            keep_raw_samples: self.keep_raw_samples,
        }
    }
}

/// Nanoseconds since `start`, truncated to 64 bits.
fn nanos_since(start: &Instant) -> u64 {
    let elapsed = instant_elapsed(start);
    duration_as_nanos(&elapsed) as u64
}

/// A count of nanoseconds truncated to 64 bits, as `as u64` does.
pub open spec fn low_64_bits(t: int) -> int {
    t % 0x1_0000_0000_0000_0000
}

/// `x as u64` keeps the low 64 bits.
proof fn lemma_u128_to_u64(x: u128)
    ensures
        (x as u64) as int == low_64_bits(x as int),
{
    assert((x as u64) == x % 0x1_0000_0000_0000_0000) by (bit_vector);
}

impl BenchmarkHarness {
    /// Ten warm-up runs, a hundred measured runs, raw samples kept.
    pub fn new() -> (r: BenchmarkHarness)
        ensures
            r@ == (HarnessView { warmup_iterations: 10, measurement_iterations: 100, keep_raw_samples: true }),
    {
        BenchmarkHarness { warmup_iterations: 10, measurement_iterations: 100, keep_raw_samples: true }
    }

    /// The same harness with `iterations` warm-up runs.
    pub fn warmup(self, iterations: u64) -> (r: BenchmarkHarness)
        ensures
            r@ == (HarnessView { warmup_iterations: iterations, ..self@ }),
    {
        BenchmarkHarness { warmup_iterations: iterations, ..self }
    }

    /// The same harness with `iterations` measured runs.
    pub fn iterations(self, iterations: u64) -> (r: BenchmarkHarness)
        ensures
            r@ == (HarnessView { measurement_iterations: iterations, ..self@ }),
    {
        BenchmarkHarness { measurement_iterations: iterations, ..self }
    }

    /// The same harness, keeping raw samples or not.
    pub fn keep_samples(self, keep: bool) -> (r: BenchmarkHarness)
        ensures
            r@ == (HarnessView { keep_raw_samples: keep, ..self@ }),
    {
        BenchmarkHarness { keep_raw_samples: keep, ..self }
    }

    /// Whether raw samples are kept.
    pub fn should_keep_samples(&self) -> (r: bool)
        ensures
            r == self@.keep_raw_samples,
    {
        self.keep_raw_samples
    }

    /// Run `operation` for the warm-up runs, then once per measured run,
    /// and return one sample per measured run: its duration in nanoseconds
    /// (read from the clock).
    pub fn run<F: FnMut()>(&self, mut operation: F) -> (r: Vec<u64>)
        requires
            call_requires(operation, ()),
        ensures
            r@.len() == self@.measurement_iterations,
    {
        let mut i: u64 = 0;
        while i < self.warmup_iterations
            invariant
                call_requires(operation, ()),
            decreases self.warmup_iterations - i,
        {
            operation();
            i = i + 1;
        }
        let mut samples: Vec<u64> = Vec::new();
        let mut j: u64 = 0;
        while j < self.measurement_iterations
            invariant
                call_requires(operation, ()),
                samples@.len() == j,
                j <= self.measurement_iterations,
            decreases self.measurement_iterations - j,
        {
            let start = instant_now();
            operation();
            samples.push(nanos_since(&start));
            j = j + 1;
        }
        samples
    }

    /// Like `run`, with `setup` before and `teardown` after every run;
    /// only `operation` is timed.
    pub fn run_with_setup<S: FnMut(), O: FnMut(), T: FnMut()>(&self, mut setup: S, mut operation: O, mut teardown: T) -> (r: Vec<u64>)
        requires
            call_requires(setup, ()),
            call_requires(operation, ()),
            call_requires(teardown, ()),
        ensures
            r@.len() == self@.measurement_iterations,
    {
        let mut i: u64 = 0;
        while i < self.warmup_iterations
            invariant
                call_requires(setup, ()),
                call_requires(operation, ()),
                call_requires(teardown, ()),
            decreases self.warmup_iterations - i,
        {
            setup();
            operation();
            teardown();
            i = i + 1;
        }
        let mut samples: Vec<u64> = Vec::new();
        let mut j: u64 = 0;
        while j < self.measurement_iterations
            invariant
                call_requires(setup, ()),
                call_requires(operation, ()),
                call_requires(teardown, ()),
                samples@.len() == j,
                j <= self.measurement_iterations,
            decreases self.measurement_iterations - j,
        {
            setup();
            let start = instant_now();
            operation();
            let sample = nanos_since(&start);
            teardown();
            samples.push(sample);
            j = j + 1;
        }
        samples
    }

    /// After the warm-up runs, run `operation` repeatedly until `duration`
    /// has passed (read from the clock); return the number of measured runs
    /// and the nanoseconds they took, truncated to 64 bits. The count stops
    /// at `u64::MAX`. A zero duration measures no run; otherwise the time
    /// returned is at least the duration, since the clock only moves
    /// forward and the last check saw the duration reached.
    pub fn run_throughput<F: FnMut() -> u64>(&self, duration: Duration, mut operation: F) -> (r: (u64, u64))
        requires
            call_requires(operation, ()),
        ensures
            duration_nanos(duration) == 0 ==> r.0 == 0,
            r.0 < u64::MAX ==> exists|t: int| t >= duration_nanos(duration) && r.1 == low_64_bits(t),
    {
        let mut i: u64 = 0;
        while i < self.warmup_iterations
            invariant
                call_requires(operation, ()),
            decreases self.warmup_iterations - i,
        {
            let _ = operation();
            i = i + 1;
        }
        let target = duration_as_nanos(&duration);
        let start = instant_now();
        let mut operations: u64 = 0;
        let mut last_check: u128;
        loop
            invariant
                call_requires(operation, ()),
                target == duration_nanos(duration),
                target == 0 ==> operations == 0,
            ensures
                target == 0 ==> operations == 0,
                operations < u64::MAX ==> last_check >= target,
            decreases u64::MAX - operations,
        {
            let elapsed = instant_elapsed(&start);
            last_check = duration_as_nanos(&elapsed);
            if !(last_check < target) || operations == u64::MAX {
                break;
            }
            let _bytes = operation();
            operations = operations + 1;
        }
        let elapsed = instant_elapsed(&start);
        let now = duration_as_nanos(&elapsed);
        // The clock is monotonic, so `now` is never below `last_check`;
        // taking the larger keeps that guarantee in the result.
        let total = if now < last_check { last_check } else { now };
        proof {
            lemma_u128_to_u64(total);
        }
        (operations, total as u64)
    }
}

impl Default for BenchmarkHarness {
    fn default() -> (r: BenchmarkHarness)
        ensures
            r@ == (HarnessView { warmup_iterations: 10, measurement_iterations: 100, keep_raw_samples: true }),
    {
        BenchmarkHarness::new()
    }
}

/// Times one operation.
pub struct Timer {
    start: Instant,
}

impl Timer {
    /// Start timing now.
    pub fn start() -> Timer {
        Timer { start: instant_now() }
    }

    /// The nanoseconds since the start, truncated to 64 bits.
    pub fn stop(self) -> u64 {
        nanos_since(&self.start)
    }

    /// The time since the start.
    pub fn elapsed(self) -> Duration {
        instant_elapsed(&self.start)
    }
}

/// Run `f` once; return its result and how long it took.
pub fn measure<F: FnOnce() -> T, T>(f: F) -> (r: (T, Duration))
    requires
        call_requires(f, ()),
    ensures
        call_ensures(f, (), r.0),
{
    let start = instant_now();
    let result = f();
    let elapsed = instant_elapsed(&start);
    (result, elapsed)
}

/// Run `f` `iterations` times; return one sample per run, its duration in
/// nanoseconds.
pub fn measure_n<F: FnMut()>(iterations: u64, mut f: F) -> (r: Vec<u64>)
    requires
        call_requires(f, ()),
    ensures
        r@.len() == iterations,
{
    let mut samples: Vec<u64> = Vec::new();
    let mut j: u64 = 0;
    while j < iterations
        invariant
            call_requires(f, ()),
            samples@.len() == j,
            j <= iterations,
        decreases iterations - j,
    {
        let start = instant_now();
        f();
        samples.push(nanos_since(&start));
        j = j + 1;
    }
    samples
}


/// Kinds of benchmark.
#[derive(Debug, Clone, Copy, PartialEq, Eq, Hash, Structural)]
pub enum BenchmarkCategory {
    /// Cold start latency.
    ColdStart,
    /// Inter-process communication.
    Ipc,
    /// Network stack and XDP.
    Network,
    /// Full request lifecycle.
    EndToEnd,
    /// Ring buffer micro-benchmarks.
    RingBuffer,
}

/// The short name of a benchmark category, used in file names.
pub open spec fn category_label(c: BenchmarkCategory) -> Seq<char> {
    match c {
        BenchmarkCategory::ColdStart => "cold_start"@,
        BenchmarkCategory::Ipc => "ipc"@,
        BenchmarkCategory::Network => "network"@,
        BenchmarkCategory::EndToEnd => "e2e"@,
        BenchmarkCategory::RingBuffer => "ring_buffer"@,
    }
}

impl BenchmarkCategory {
    /// The category's short name.
    pub fn label(&self) -> (r: &'static str)
        ensures
            r@ == category_label(*self),
    {
        proof {
            reveal_strlit("cold_start");
            reveal_strlit("ipc");
            reveal_strlit("network");
            reveal_strlit("e2e");
            reveal_strlit("ring_buffer");
        }
        match self {
            BenchmarkCategory::ColdStart => "cold_start",
            BenchmarkCategory::Ipc => "ipc",
            BenchmarkCategory::Network => "network",
            BenchmarkCategory::EndToEnd => "e2e",
            BenchmarkCategory::RingBuffer => "ring_buffer",
        }
    }
}

/// The code of a character with ASCII upper case letters lowered.
pub open spec fn ascii_lower_code(c: char) -> u32 {
    if 'A' <= c && c <= 'Z' {
        ((c as u32) + 32) as u32
    } else {
        c as u32
    }
}

/// `str::eq_ignore_ascii_case`: the same text once ASCII letters are
/// lowered.
pub open spec fn eq_ignore_ascii_case_spec(a: Seq<char>, b: Seq<char>) -> bool {
    a.len() == b.len() && forall|i: int| 0 <= i < a.len() ==> #[trigger] ascii_lower_code(a[i]) == ascii_lower_code(b[i])
}

fn lower_code(c: char) -> (r: u32)
    ensures
        r == ascii_lower_code(c),
{
    let code = c as u32;
    if 'A' <= c && c <= 'Z' {
        code + 32
    } else {
        code
    }
}

/// Whether `a` and `b` are the same text but for the case of ASCII letters.
pub fn eq_ignore_ascii_case(a: &str, b: &str) -> (r: bool)
    ensures
        r == eq_ignore_ascii_case_spec(a@, b@),
{
    let ac = crate::cpu_list::chars_of(a);
    let bc = crate::cpu_list::chars_of(b);
    if ac.len() != bc.len() {
        return false;
    }
    let mut i: usize = 0;
    while i < ac.len()
        invariant
            ac@ == a@,
            bc@ == b@,
            ac@.len() == bc@.len(),
            i <= ac@.len(),
            forall|j: int| 0 <= j < i ==> #[trigger] ascii_lower_code(ac@[j]) == ascii_lower_code(bc@[j]),
        decreases ac@.len() - i,
    {
        if lower_code(ac[i]) != lower_code(bc[i]) {
            return false;
        }
        i = i + 1;
    }
    true
}

/// Whether a run that asked for `selected` categories runs `category`:
/// every category when none were named, else those named, in any ASCII
/// case.
pub open spec fn category_selected_spec(selected: Option<Seq<Seq<char>>>, category: Seq<char>) -> bool {
    selected is None || exists|i: int|
        0 <= i < selected->0.len() && eq_ignore_ascii_case_spec(#[trigger] selected->0[i], category)
}

proof fn lemma_selected_by(names: Seq<Seq<char>>, category: Seq<char>, i: int)
    requires
        0 <= i < names.len(),
        eq_ignore_ascii_case_spec(names[i], category),
    ensures
        category_selected_spec(Some(names), category),
{
    let o: Option<Seq<Seq<char>>> = Some(names);
    assert(o->0[i] == names[i]);
}

/// The texts of the strings.
pub open spec fn string_views(v: Seq<String>) -> Seq<Seq<char>> {
    v.map_values(|s: String| s@)
}

/// Whether a run that asked for `selected` categories runs `category`.
pub fn category_selected(selected: &Option<Vec<String>>, category: &str) -> (r: bool)
    ensures
        r == category_selected_spec(
            match selected {
                Some(v) => Some(string_views(v@)),
                None => None,
            },
            category@,
        ),
{
    match selected {
        None => true,
        Some(names) => {
            let ghost views = string_views(names@);
            let mut i: usize = 0;
            while i < names.len()
                invariant
                    i <= names@.len(),
                    views == string_views(names@),
                    (match selected {
                        Some(v) => Some(string_views(v@)),
                        None => None,
                    }) == Some(views),
                    forall|j: int| 0 <= j < i ==> !eq_ignore_ascii_case_spec(#[trigger] views[j], category@),
                decreases names@.len() - i,
            {
                if eq_ignore_ascii_case(names[i].as_str(), category) {
                    proof {
                        assert(views[i as int] == names@[i as int]@);
                        assert(eq_ignore_ascii_case_spec(views[i as int], category@));
                        lemma_selected_by(views, category@, i as int);
                    }
                    return true;
                }
                proof {
                    assert(views[i as int] == names@[i as int]@);
                }
                i = i + 1;
            }
            false
        },
    }
}

/// How many runs a benchmark suite makes: `QUICK_ITERATIONS` measured
/// runs in quick mode, otherwise the number asked for, after a tenth as many
/// warm-up runs; process cold starts, being slow, make at most
/// `COLD_START_MAX_ITERATIONS` measured runs after `COLD_START_WARMUP` warm-up
/// runs.
pub struct RunPlan {
    pub iterations: u64,
    pub warmup: u64,
    pub cold_start_iterations: u64,
    pub cold_start_warmup: u64,
}

/// Measured runs in quick mode.
pub const QUICK_ITERATIONS: u64 = 10;

/// Most measured runs of a process cold start.
pub const COLD_START_MAX_ITERATIONS: u64 = 50;

/// Warm-up runs before process cold starts.
pub const COLD_START_WARMUP: u64 = 5;

/// The run plan for `requested` iterations, in quick mode or not.
pub fn run_plan(requested: u64, quick: bool) -> (r: RunPlan)
    ensures
        r.iterations == (if quick { QUICK_ITERATIONS } else { requested }),
        r.warmup == r.iterations / 10,
        r.cold_start_iterations == (if r.iterations < COLD_START_MAX_ITERATIONS {
            r.iterations
        } else {
            COLD_START_MAX_ITERATIONS
        }),
        r.cold_start_warmup == COLD_START_WARMUP,
{
    let iterations = if quick {
        QUICK_ITERATIONS
    } else {
        requested
    };
    let cold = if iterations < COLD_START_MAX_ITERATIONS {
        iterations
    } else {
        COLD_START_MAX_ITERATIONS
    };
    RunPlan { iterations, warmup: iterations / 10, cold_start_iterations: cold, cold_start_warmup: COLD_START_WARMUP }
}

/// The positions, in order, at which `cats` holds `c`.
pub open spec fn positions_of(cats: Seq<BenchmarkCategory>, c: BenchmarkCategory) -> Seq<usize>
    decreases cats.len(),
{
    if cats.len() == 0 {
        Seq::empty()
    } else if cats.last() == c {
        positions_of(cats.drop_last(), c).push((cats.len() - 1) as usize)
    } else {
        positions_of(cats.drop_last(), c)
    }
}

/// `groups` gathers results by category: one group per category that
/// occurs in `cats`, none twice, each with the positions of its results.
pub open spec fn grouped_by_category(
    groups: Seq<BenchmarkCategory>,
    positions: Seq<Seq<usize>>,
    cats: Seq<BenchmarkCategory>,
) -> bool {
    &&& groups.len() == positions.len()
    &&& forall|g: int, h: int| 0 <= g < h < groups.len() ==> groups[g] != groups[h]
    &&& forall|g: int| 0 <= g < groups.len() ==> #[trigger] positions[g] == positions_of(cats, groups[g])
    &&& forall|g: int| 0 <= g < groups.len() ==> (#[trigger] positions[g]).len() > 0
    &&& forall|i: int| 0 <= i < cats.len() ==> exists|g: int| 0 <= g < groups.len() && groups[g] == #[trigger] cats[i]
}

proof fn lemma_positions_absent(cats: Seq<BenchmarkCategory>, c: BenchmarkCategory)
    requires
        forall|i: int| 0 <= i < cats.len() ==> cats[i] != c,
    ensures
        positions_of(cats, c).len() == 0,
    decreases cats.len(),
{
    if cats.len() > 0 {
        lemma_positions_absent(cats.drop_last(), c);
    }
}

/// The results' categories grouped: the categories that occur, each once,
/// in the order they first occur, with the positions of their results.
pub fn group_by_category(cats: &Vec<BenchmarkCategory>) -> (r: (Vec<BenchmarkCategory>, Vec<Vec<usize>>))
    ensures
        grouped_by_category(r.0@, r.1@.map_values(|v: Vec<usize>| v@), cats@),
{
    let mut groups: Vec<BenchmarkCategory> = Vec::new();
    let mut positions: Vec<Vec<usize>> = Vec::new();
    let n = cats.len();
    let mut i: usize = 0;
    while i < n
        invariant
            i <= n,
            n == cats@.len(),
            grouped_by_category(groups@, positions@.map_values(|v: Vec<usize>| v@), cats@.take(i as int)),
        decreases n - i,
    {
        let c = cats[i];
        let ghost pre = cats@.take(i as int);
        let ghost post = cats@.take(i + 1);
        let ghost old_groups = groups@;
        let ghost old_pos = positions@.map_values(|v: Vec<usize>| v@);
        proof {
            assert(post.drop_last() =~= pre);
            assert(post.last() == c);
            assert forall|d: BenchmarkCategory| d != c implies positions_of(post, d) == positions_of(pre, d) by {}
            assert(positions_of(post, c) == positions_of(pre, c).push(i));
        }
        let mut g: usize = 0;
        while g < groups.len() && groups[g] != c
            invariant
                g <= groups@.len(),
                forall|h: int| 0 <= h < g ==> groups@[h] != c,
            decreases groups@.len() - g,
        {
            g = g + 1;
        }
        if g < groups.len() {
            let mut updated = positions[g].clone();
            proof {
                assert(updated@ =~= old_pos[g as int]);
                assert(old_pos[g as int] == positions_of(pre, c));
            }
            updated.push(i);
            let ghost upd = updated@;
            positions.set(g, updated);
            proof {
                let new_pos = positions@.map_values(|v: Vec<usize>| v@);
                assert(upd =~= positions_of(post, c));
                assert forall|h: int| 0 <= h < new_pos.len() implies new_pos[h] == old_pos.update(g as int, positions_of(post, c))[h] by {
                    if h != g {
                        assert(new_pos[h] == old_pos[h]);
                    }
                }
                assert(new_pos =~= old_pos.update(g as int, positions_of(post, c)));
                assert forall|j: int| 0 <= j < post.len() implies exists|h: int| 0 <= h < groups@.len() && groups@[h] == #[trigger] post[j] by {
                    if j < i {
                        assert(post[j] == pre[j]);
                    } else {
                        assert(groups@[g as int] == post[j]);
                    }
                }
            }
        } else {
            groups.push(c);
            let mut fresh: Vec<usize> = Vec::new();
            fresh.push(i);
            let ghost fr = fresh@;
            positions.push(fresh);
            proof {
                lemma_positions_absent(pre, c);
                assert(positions_of(pre, c) =~= Seq::<usize>::empty());
                assert(fr =~= positions_of(post, c));
                let new_pos = positions@.map_values(|v: Vec<usize>| v@);
                assert(new_pos =~= old_pos.push(positions_of(post, c)));
                assert forall|j: int| 0 <= j < post.len() implies exists|h: int| 0 <= h < groups@.len() && groups@[h] == #[trigger] post[j] by {
                    if j < i {
                        assert(post[j] == pre[j]);
                        let h = choose|h: int| 0 <= h < old_groups.len() && old_groups[h] == #[trigger] pre[j];
                        assert(groups@[h] == post[j]);
                    } else {
                        assert(groups@[g as int] == post[j]);
                    }
                }
            }
        }
        i = i + 1;
    }
    proof {
        assert(cats@.take(n as int) =~= cats@);
    }
    (groups, positions)
}

/// The name a report file starts with: the category of its first result,
/// or `mixed` for a report without results.
pub fn report_label(first: Option<BenchmarkCategory>) -> (r: &'static str)
    ensures
        r@ == (match first {
            Some(c) => category_label(c),
            None => "mixed"@,
        }),
{
    match first {
        Some(c) => c.label(),
        None => "mixed",
    }
}

/// The short names of the benchmark categories.
pub proof fn law_category_labels()
    ensures
        category_label(BenchmarkCategory::ColdStart) == "cold_start"@,
        category_label(BenchmarkCategory::Ipc) == "ipc"@,
        category_label(BenchmarkCategory::Network) == "network"@,
        category_label(BenchmarkCategory::EndToEnd) == "e2e"@,
        category_label(BenchmarkCategory::RingBuffer) == "ring_buffer"@,
{
}

} // verus!
