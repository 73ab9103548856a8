use vstd::prelude::*;
use crate::fib::{fib_iterative, fib_memoized, fib_recursive, fib_wrapped, lemma_fib_small_values};
use crate::matrix::fib_matrix;

verus! {

/// The four Fibonacci kernels, by strategy.
#[derive(Clone, Copy, PartialEq, Eq, Structural, Debug)]
pub enum KernelKind {
    Recursive,
    Iterative,
    Memoized,
    Matrix,
}

/// One disagreement found by a validation sweep: which kernel diverged, at
/// which index, and the expected against the actual value.
#[derive(Clone, Copy, Debug)]
pub struct Mismatch {
    pub n: u32,
    pub kernel: KernelKind,
    pub expected: u64,
    pub actual: u64,
}

/// One kernel, chosen at run time. All four meet the same contract, so a
/// caller learns the same value whichever strategy it picks.
pub fn run_kernel(kind: KernelKind, n: u32) -> (r: u64)
    requires
        n < u32::MAX,
    ensures
        r == fib_wrapped(n as nat),
{
    match kind {
        KernelKind::Recursive => fib_recursive(n),
        KernelKind::Iterative => fib_iterative(n),
        KernelKind::Memoized => fib_memoized(n),
        KernelKind::Matrix => fib_matrix(n),
    }
}

/// The precomputed expected sequence for the small validation range.
fn expected_small(i: u32) -> (r: u64)
    requires
        i <= 10,
    ensures
        r == fib_wrapped(i as nat),
{
    proof {
        lemma_fib_small_values();
    }
    match i {
        0 => 0,
        1 => 1,
        2 => 1,
        3 => 2,
        4 => 3,
        5 => 5,
        6 => 8,
        7 => 13,
        8 => 21,
        9 => 34,
        _ => 55,
    }
}

/// Runs one kernel at one index and compares against an expected value,
/// reporting the divergence on mismatch. The kernel provably returns
/// `fib_wrapped(n)`, so the check succeeds exactly when the expectation is
/// that value.
fn check_one(kind: KernelKind, n: u32, expected: u64) -> (r: Result<(), Mismatch>)
    requires
        n < u32::MAX,
    ensures
        r is Ok <==> expected == fib_wrapped(n as nat),
        r is Err ==> r->Err_0.n == n && r->Err_0.kernel == kind && r->Err_0.expected == expected
            && r->Err_0.actual == fib_wrapped(n as nat),
{
    let actual = run_kernel(kind, n);
    if actual != expected {
        Err(Mismatch { n, kernel: kind, expected, actual })
    } else {
        Ok(())
    }
}

/// Validates every kernel against the precomputed sequence on the range
/// 0..=10, fail-fast: the first mismatching index would abort the sweep and be
/// reported. No mismatch can arise, so the sweep is proved to return `Ok`.
pub fn check_small_range() -> (r: Result<(), Mismatch>)
    ensures
        r is Ok,
{
    let mut n: u32 = 0;
    while n <= 10
        invariant
            n <= 11,
        decreases 11 - n,
    {
        let expected = expected_small(n);
        match check_one(KernelKind::Recursive, n, expected) {
            Err(m) => { return Err(m); },
            Ok(()) => {},
        }
        match check_one(KernelKind::Iterative, n, expected) {
            Err(m) => { return Err(m); },
            Ok(()) => {},
        }
        match check_one(KernelKind::Memoized, n, expected) {
            Err(m) => { return Err(m); },
            Ok(()) => {},
        }
        match check_one(KernelKind::Matrix, n, expected) {
            Err(m) => { return Err(m); },
            Ok(()) => {},
        }
        n = n + 1;
    }
    Ok(())
}

/// Validates the kernels against each other on 0..=40 with the iterative
/// output as ground truth; the recursive kernel joins only up to 30, where its
/// exponential cost stays practical. Fail-fast, like the small sweep, and
/// likewise proved to return `Ok`.
pub fn check_extended_range() -> (r: Result<(), Mismatch>)
    ensures
        r is Ok,
{
    let mut n: u32 = 0;
    while n <= 40
        invariant
            n <= 41,
        decreases 41 - n,
    {
        let ground = fib_iterative(n);
        match check_one(KernelKind::Memoized, n, ground) {
            Err(m) => { return Err(m); },
            Ok(()) => {},
        }
        match check_one(KernelKind::Matrix, n, ground) {
            Err(m) => { return Err(m); },
            Ok(()) => {},
        }
        if n <= 30 {
            match check_one(KernelKind::Recursive, n, ground) {
                Err(m) => { return Err(m); },
                Ok(()) => {},
            }
        }
        n = n + 1;
    }
    Ok(())
}

/// The whole correctness harness: the small range against the precomputed
/// sequence, then the extended range against the iterative reference, stopping
/// at the first divergence. Every kernel returns `fib_wrapped(n)`, so the
/// harness is proved to pass.
pub fn verify_kernels() -> (r: Result<(), Mismatch>)
    ensures
        r is Ok,
{
    match check_small_range() {
        Err(m) => { return Err(m); },
        Ok(()) => {},
    }
    check_extended_range()
}

} // verus!
