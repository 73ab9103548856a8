use vstd::prelude::*;
use vstd::arithmetic::div_mod::{lemma_div_is_ordered, lemma_div_multiples_vanish};
use vstd::arithmetic::mul::{lemma_mul_is_commutative, lemma_mul_inequality};
use crate::harness::{run_kernel, KernelKind};

verus! {

#[verifier::external_type_specification]
#[verifier::external_body]
pub struct ExInstant(std::time::Instant);

/// Relies on std::time::Instant::now: an opaque reading of the monotonic
/// clock. Nothing is assumed of the value.
#[verifier::external_body]
fn clock_now() -> std::time::Instant {
    std::time::Instant::now()
}

/// Relies on std::time::Instant::elapsed: the time since the instant, as an
/// opaque Duration. Nothing is assumed of the value.
#[verifier::external_body]
fn clock_elapsed(start: &std::time::Instant) -> std::time::Duration {
    start.elapsed()
}

/// Relies on std::time::Duration::as_nanos: the whole duration in nanoseconds.
/// Nothing is assumed of a clock-dependent value.
#[verifier::external_body]
fn duration_nanos(d: &std::time::Duration) -> u128 {
    d.as_nanos()
}

/// Relies on core::hint::black_box: the documentation states it is an identity
/// function whose only effect is to keep the optimizer from eliding the value
/// as dead code.
pub assume_specification<T>[ core::hint::black_box::<T> ](dummy: T) -> (r: T)
    ensures
        r == dummy,
;

/// The sum of a sequence of timing samples.
pub open spec fn nanos_sum(s: Seq<u64>) -> nat
    decreases s.len(),
{
    if s.len() == 0 {
        0
    } else {
        nanos_sum(s.drop_last()) + s.last() as nat
    }
}

/// The performance report for one (kernel, input) pair: the sample count, the
/// mean as central estimate, and the min..max spread as the indication of
/// variance.
#[derive(Clone, Copy, Debug)]
pub struct PerfSummary {
    pub kernel: KernelKind,
    pub n: u32,
    pub samples: usize,
    pub mean_nanos: u64,
    pub min_nanos: u64,
    pub max_nanos: u64,
}

/// One timed sample: one kernel call under the clock, input and result both
/// routed through an opaque use so the measured call cannot be elided. The
/// elapsed nanoseconds are saturated into 64 bits. The value itself depends on
/// the clock, so nothing more can be promised of it.
fn time_one(kind: KernelKind, n: u32) -> u64
    requires
        n < u32::MAX,
{
    let start = clock_now();
    let input = core::hint::black_box(n);
    let value = run_kernel(kind, input);
    let _ = core::hint::black_box(value);
    let d = clock_elapsed(&start);
    let nanos = duration_nanos(&d);
    if nanos > u64::MAX as u128 {
        u64::MAX
    } else {
        nanos as u64
    }
}

/// The timing samples for one (kernel, input) pair: `rounds` repeated measured
/// calls, in order.
pub fn measure_kernel(kind: KernelKind, n: u32, rounds: usize) -> (r: Vec<u64>)
    requires
        n < u32::MAX,
    ensures
        r@.len() == rounds,
{
    let mut samples: Vec<u64> = Vec::new();
    let mut i: usize = 0;
    while i < rounds
        invariant
            samples@.len() == i,
            i <= rounds,
            n < u32::MAX,
        decreases rounds - i,
    {
        let s = time_one(kind, n);
        samples.push(s);
        i = i + 1;
    }
    samples
}

/// Reduces one group's samples to its report: the exact integer mean of the
/// samples, and an attained minimum and maximum.
pub fn summarize(kind: KernelKind, n: u32, samples: &Vec<u64>) -> (r: PerfSummary)
    requires
        samples@.len() > 0,
    ensures
        r.kernel == kind,
        r.n == n,
        r.samples == samples@.len(),
        r.mean_nanos == nanos_sum(samples@) / samples@.len(),
        forall|i: int|
            0 <= i < samples@.len() ==> r.min_nanos <= #[trigger] samples@[i] <= r.max_nanos,
        exists|i: int| 0 <= i < samples@.len() && samples@[i] == r.min_nanos,
        exists|i: int| 0 <= i < samples@.len() && samples@[i] == r.max_nanos,
{
    let first = samples[0];
    let mut sum: u128 = first as u128;
    let mut mn: u64 = first;
    let mut mx: u64 = first;
    let mut i: usize = 1;
    proof {
        assert(samples@.take(1).drop_last() =~= Seq::<u64>::empty());
        assert(samples@.take(1).last() == samples@[0]);
        assert(nanos_sum(Seq::<u64>::empty()) == 0);
        assert(nanos_sum(samples@.take(1)) == samples@[0] as nat);
    }
    while i < samples.len()
        invariant
            1 <= i <= samples@.len(),
            sum == nanos_sum(samples@.take(i as int)),
            sum <= (i as nat) * (u64::MAX as nat),
            forall|j: int| 0 <= j < i ==> mn <= #[trigger] samples@[j] <= mx,
            exists|j: int| 0 <= j < i && samples@[j] == mn,
            exists|j: int| 0 <= j < i && samples@[j] == mx,
        decreases samples@.len() - i,
    {
        let s = samples[i];
        proof {
            lemma_mul_inequality(i as int, u64::MAX as int, u64::MAX as int);
            assert(samples@.take(i + 1).drop_last() =~= samples@.take(i as int));
            assert(samples@.take(i + 1).last() == samples@[i as int]);
        }
        sum = sum + (s as u128);
        if s < mn {
            mn = s;
        }
        if s > mx {
            mx = s;
        }
        i = i + 1;
    }
    proof {
        assert(samples@.take(samples@.len() as int) =~= samples@);
        lemma_div_is_ordered(
            sum as int,
            (samples@.len() as int) * (u64::MAX as int),
            samples@.len() as int,
        );
        lemma_div_multiples_vanish(u64::MAX as int, samples@.len() as int);
        lemma_mul_is_commutative(samples@.len() as int, u64::MAX as int);
    }
    let len128 = samples.len() as u128;
    let mean = (sum / len128) as u64;
    PerfSummary {
        kernel: kind,
        n,
        samples: samples.len(),
        mean_nanos: mean,
        min_nanos: mn,
        max_nanos: mx,
    }
}

/// One measurement group, run to completion on its own: one kernel, a sweep of
/// inputs, each input measured `rounds` times.
pub fn sweep_group(kind: KernelKind, inputs: &Vec<u32>, rounds: usize) -> (r: Vec<PerfSummary>)
    requires
        rounds > 0,
        forall|i: int| 0 <= i < inputs@.len() ==> #[trigger] inputs@[i] < u32::MAX,
    ensures
        r@.len() == inputs@.len(),
        forall|i: int|
            0 <= i < r@.len() ==> (#[trigger] r@[i]).kernel == kind && r@[i].n == inputs@[i]
                && r@[i].samples == rounds,
{
    let mut out: Vec<PerfSummary> = Vec::new();
    let mut i: usize = 0;
    while i < inputs.len()
        invariant
            i <= inputs@.len(),
            out@.len() == i,
            rounds > 0,
            forall|k: int| 0 <= k < inputs@.len() ==> #[trigger] inputs@[k] < u32::MAX,
            forall|k: int|
                0 <= k < i ==> (#[trigger] out@[k]).kernel == kind && out@[k].n == inputs@[k]
                    && out@[k].samples == rounds,
        decreases inputs@.len() - i,
    {
        let n = inputs[i];
        let samples = measure_kernel(kind, n, rounds);
        let summary = summarize(kind, n, &samples);
        out.push(summary);
        i = i + 1;
    }
    out
}

/// The representative inputs for a kernel's sweep: the recursive baseline gets
/// the small bounded set its exponential cost allows; the other three share a
/// larger one.
pub fn default_inputs(kind: KernelKind) -> (r: Vec<u32>)
    ensures
        kind == KernelKind::Recursive ==> r@ == seq![10u32, 15, 20, 25, 30],
        kind != KernelKind::Recursive ==> r@ == seq![
            10u32,
            20,
            30,
            40,
            50,
            60,
            70,
            80,
            90,
            100,
        ],
        r@.len() > 0,
        forall|i: int| 0 <= i < r@.len() ==> #[trigger] r@[i] < u32::MAX,
{
    match kind {
        KernelKind::Recursive => {
            let v = vec![10u32, 15, 20, 25, 30];
            proof {
                assert(v@ =~= seq![10u32, 15, 20, 25, 30]);
            }
            v
        },
        _ => {
            let v = vec![10u32, 20, 30, 40, 50, 60, 70, 80, 90, 100];
            proof {
                assert(v@ =~= seq![10u32, 20, 30, 40, 50, 60, 70, 80, 90, 100]);
            }
            v
        },
    }
}

/// The head-to-head group: all four kernels at the one common index 30 — small
/// enough for the recursive baseline to finish, large enough to separate the
/// other three.
pub fn head_to_head(rounds: usize) -> (r: Vec<PerfSummary>)
    requires
        rounds > 0,
    ensures
        r@.len() == 4,
        forall|i: int| 0 <= i < r@.len() ==> (#[trigger] r@[i]).n == 30 && r@[i].samples == rounds,
        r@[0].kernel == KernelKind::Recursive,
        r@[1].kernel == KernelKind::Iterative,
        r@[2].kernel == KernelKind::Memoized,
        r@[3].kernel == KernelKind::Matrix,
{
    let mut out: Vec<PerfSummary> = Vec::new();
    let s0 = measure_kernel(KernelKind::Recursive, 30, rounds);
    out.push(summarize(KernelKind::Recursive, 30, &s0));
    let s1 = measure_kernel(KernelKind::Iterative, 30, rounds);
    out.push(summarize(KernelKind::Iterative, 30, &s1));
    let s2 = measure_kernel(KernelKind::Memoized, 30, rounds);
    out.push(summarize(KernelKind::Memoized, 30, &s2));
    let s3 = measure_kernel(KernelKind::Matrix, 30, rounds);
    out.push(summarize(KernelKind::Matrix, 30, &s3));
    out
}

} // verus!
