//! Order statistics of latency samples: the samples sorted, their least,
//! greatest and middle values, their total, and the evenly spaced subset
//! kept for plotting when a run is long.

use vstd::prelude::*;

verus! {

/// Runs longer than this keep only an evenly spaced subset of their samples.
pub const RAW_SAMPLE_LIMIT: usize = 10000;

/// About this many samples are kept of a long run.
pub const RAW_SAMPLE_TARGET: usize = 1000;

/// The largest `u64`, as an integer.
pub open spec fn u64_max() -> int {
    0xffff_ffff_ffff_ffffint
}

/// `s` is in ascending order.
pub open spec fn ascending(s: Seq<u64>) -> bool {
    forall|i: int, j: int| 0 <= i <= j < s.len() ==> s[i] <= s[j]
}

/// The sum of the samples.
pub open spec fn total(s: Seq<u64>) -> int
    decreases s.len(),
{
    if s.len() == 0 {
        0
    } else {
        total(s.drop_last()) + s.last()
    }
}

/// `r` holds the samples of `s` at indices `0, step, 2 * step, ...` below
/// `s.len()`, in that order, and nothing more.
pub open spec fn every_nth(r: Seq<u64>, s: Seq<u64>, step: nat) -> bool {
    &&& r.len() * step >= s.len()
    &&& r.len() > 0 ==> (r.len() - 1) * step < s.len()
    &&& forall|k: int| 0 <= k < r.len() ==> #[trigger] r[k] == s[k * step]
}

/// `slice::sort_unstable` on the samples. Claimed, as std documents it: the
/// samples end in ascending order, and they are the same samples, each as
/// often as before.
#[verifier::external_body]
fn sort_ascending(samples: &mut Vec<u64>)
    ensures
        ascending(final(samples)@),
        final(samples)@.to_multiset() == old(samples)@.to_multiset(),
{
    samples.sort_unstable();
}

proof fn lemma_total_bound(s: Seq<u64>)
    ensures
        0 <= total(s) <= s.len() * u64_max(),
    decreases s.len(),
{
    if s.len() > 0 {
        lemma_total_bound(s.drop_last());
        assert((s.len() - 1) * u64_max() + u64_max() == s.len() * u64_max()) by (nonlinear_arith);
    }
}

proof fn lemma_same_members(a: Seq<u64>, b: Seq<u64>, x: u64)
    requires
        a.to_multiset() == b.to_multiset(),
    ensures
        a.contains(x) <==> b.contains(x),
{
    broadcast use vstd::seq_lib::to_multiset_contains;

    assert(a.contains(x) <==> a.to_multiset().count(x) > 0);
    assert(b.contains(x) <==> b.to_multiset().count(x) > 0);
}

proof fn lemma_every_nth_push(prev: Seq<u64>, s: Seq<u64>, step: usize, i: int)
    requires
        forall|k: int| 0 <= k < prev.len() ==> #[trigger] prev[k] == s[k * step],
        i == prev.len() * step,
        0 <= i < s.len(),
    ensures
        forall|k: int| 0 <= k < prev.push(s[i]).len() ==> #[trigger] prev.push(s[i])[k] == s[k * step],
        prev.push(s[i]).len() * step == i + step,
        (prev.push(s[i]).len() - 1) * step < s.len(),
{
    let next = prev.push(s[i]);
    assert((prev.len() + 1) * step == prev.len() * step + step) by (nonlinear_arith);
    assert forall|k: int| 0 <= k < next.len() implies #[trigger] next[k] == s[k * step] by {
        if k < prev.len() {
            assert(next[k] == prev[k]);
        }
    }
}

/// The sum of the samples (a `u128`, which no run of `u64` samples can
/// overflow).
pub fn sample_total(samples: &Vec<u64>) -> (r: u128)
    ensures
        r == total(samples@),
{
    let n = samples.len();
    let mut sum: u128 = 0;
    let mut i: usize = 0;
    while i < n
        invariant
            i <= n,
            n == samples@.len(),
            sum == total(samples@.take(i as int)),
        decreases n - i,
    {
        proof {
            let t = samples@.take(i + 1);
            assert(t.drop_last() =~= samples@.take(i as int));
            assert(t.last() == samples@[i as int]);
            lemma_total_bound(t);
            assert(t.len() * u64_max() <= 0xffff_ffff_ffff_ffffint * u64_max()) by (nonlinear_arith)
                requires
                    t.len() <= 0xffff_ffff_ffff_ffffint,
            ;
        }
        sum = sum + samples[i] as u128;
        i = i + 1;
    }
    proof {
        assert(samples@.take(n as int) =~= samples@);
    }
    sum
}

/// The samples of a run in ascending order, with their order statistics.
pub struct SampleOrder {
    /// The samples, ascending.
    pub sorted: Vec<u64>,
    /// The least sample.
    pub min_ns: u64,
    /// The greatest sample.
    pub max_ns: u64,
    /// The sample at the middle index (index `len / 2`) of the sorted run.
    pub median_ns: u64,
    /// The sum of the samples.
    pub total_ns: u128,
}

/// Sorts a run of samples and reads off its order statistics; `None` for a
/// run without samples.
pub fn order_samples(samples: Vec<u64>) -> (r: Option<SampleOrder>)
    ensures
        r is None <==> samples@.len() == 0,
        r matches Some(o) ==> {
            &&& ascending(o.sorted@)
            &&& o.sorted@.to_multiset() == samples@.to_multiset()
            &&& samples@.contains(o.min_ns)
            &&& samples@.contains(o.max_ns)
            &&& forall|i: int| 0 <= i < samples@.len() ==> o.min_ns <= #[trigger] samples@[i] <= o.max_ns
            &&& o.median_ns == o.sorted@[(samples@.len() / 2) as int]
            &&& o.min_ns <= o.median_ns <= o.max_ns
            &&& o.total_ns == total(samples@)
        },
{
    if samples.len() == 0 {
        return None;
    }
    let total_ns = sample_total(&samples);
    let ghost given = samples@;
    let mut sorted = samples;
    sort_ascending(&mut sorted);
    let len = sorted.len();
    proof {
        broadcast use vstd::seq_lib::group_to_multiset_ensures;

        assert(sorted@.to_multiset().len() == given.to_multiset().len());
        assert(len == given.len());
    }
    let min_ns = sorted[0];
    let max_ns = sorted[len - 1];
    let median_ns = sorted[len / 2];
    proof {
        lemma_same_members(given, sorted@, min_ns);
        lemma_same_members(given, sorted@, max_ns);
        assert(sorted@.contains(min_ns));
        assert(sorted@.contains(max_ns));
        assert forall|i: int| 0 <= i < given.len() implies min_ns <= #[trigger] given[i] <= max_ns by {
            lemma_same_members(given, sorted@, given[i]);
            assert(given.contains(given[i]));
            let j = choose|j: int| 0 <= j < sorted@.len() && sorted@[j] == given[i];
            assert(sorted@[0] <= sorted@[j]);
            assert(sorted@[j] <= sorted@[len - 1]);
        }
    }
    Some(SampleOrder { sorted, min_ns, max_ns, median_ns, total_ns })
}

/// The raw samples a run keeps: none unless asked; all of them for a run of
/// at most `RAW_SAMPLE_LIMIT` samples; otherwise every `len / RAW_SAMPLE_TARGET`-th
/// one, starting with the first.
pub fn kept_samples(sorted: Vec<u64>, keep_raw: bool) -> (r: Option<Vec<u64>>)
    ensures
        !keep_raw ==> r is None,
        keep_raw && sorted@.len() <= RAW_SAMPLE_LIMIT ==> (r matches Some(v) && v@ == sorted@),
        keep_raw && sorted@.len() > RAW_SAMPLE_LIMIT ==> (r matches Some(v) && every_nth(
            v@,
            sorted@,
            sorted@.len() / (RAW_SAMPLE_TARGET as nat),
        )),
{
    if !keep_raw {
        return None;
    }
    let len = sorted.len();
    if len <= RAW_SAMPLE_LIMIT {
        return Some(sorted);
    }
    let step = len / RAW_SAMPLE_TARGET;
    let ghost s = sorted@;
    let mut out: Vec<u64> = Vec::new();
    let mut i: usize = 0;
    while i < len
        invariant_except_break
            i as int == out@.len() * step,
        invariant
            len == s.len(),
            s == sorted@,
            step == len / RAW_SAMPLE_TARGET,
            step >= 10,
            out@.len() > 0 ==> (out@.len() - 1) * step < len,
            forall|k: int| 0 <= k < out@.len() ==> #[trigger] out@[k] == s[k * step],
        ensures
            out@.len() * step >= len,
        decreases len - i,
    {
        let ghost prev = out@;
        let x = sorted[i];
        proof {
            lemma_every_nth_push(prev, s, step, i as int);
        }
        out.push(x);
        match i.checked_add(step) {
            Some(next) => {
                i = next;
                if i >= len {
                    break;
                }
            },
            None => {
                break;
            },
        }
    }
    Some(out)
}

} // verus!
