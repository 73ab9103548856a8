use corex::fib::{fib_iterative, fib_memoized, fib_recursive};
use corex::harness::{check_extended_range, check_small_range, run_kernel, verify_kernels, KernelKind};
use corex::matrix::fib_matrix;

const KINDS: [KernelKind; 4] = [
    KernelKind::Recursive,
    KernelKind::Iterative,
    KernelKind::Memoized,
    KernelKind::Matrix,
];

#[test]
fn test_fibonacci_correctness() {
    let expected = vec![0, 1, 1, 2, 3, 5, 8, 13, 21, 34, 55];

    for (i, &expected_val) in expected.iter().enumerate() {
        let n = i as u32;
        assert_eq!(fib_recursive(n), expected_val, "recursive failed for n={}", n);
        assert_eq!(fib_iterative(n), expected_val, "iterative failed for n={}", n);
        assert_eq!(fib_memoized(n), expected_val, "memoized failed for n={}", n);
        assert_eq!(fib_matrix(n), expected_val, "matrix failed for n={}", n);
    }
}

#[test]
fn test_large_values() {
    for n in 20..=40 {
        let iterative_result = fib_iterative(n);
        assert_eq!(fib_memoized(n), iterative_result);
        assert_eq!(fib_matrix(n), iterative_result);
    }
}

#[test]
fn boundary_values() {
    for kind in KINDS {
        assert_eq!(run_kernel(kind, 0), 0);
        assert_eq!(run_kernel(kind, 1), 1);
    }
}

#[test]
fn scenario_values() {
    for kind in KINDS {
        assert_eq!(run_kernel(kind, 10), 55);
        assert_eq!(run_kernel(kind, 20), 6765);
        assert_eq!(run_kernel(kind, 30), 832040);
    }
}

#[test]
fn idempotent_repeated_calls() {
    for kind in KINDS {
        for n in [0, 1, 7, 25] {
            assert_eq!(run_kernel(kind, n), run_kernel(kind, n));
        }
    }
    // The memoized kernel's table must not survive a call: a second call from a
    // fresh table must agree with the first.
    assert_eq!(fib_memoized(40), fib_memoized(40));
}

#[test]
fn monotone_in_safe_range() {
    for n in 0..92 {
        assert!(fib_iterative(n + 1) >= fib_iterative(n));
    }
}

#[test]
fn wraparound_agreement_past_64_bits() {
    // fib(95) exceeds 2^64; every kernel must agree bit-for-bit on the wrapped
    // value (the recursive baseline is left out only because of its runtime).
    let expected95: u64 = 13493690561280548289;
    assert_eq!(fib_iterative(95), expected95);
    assert_eq!(fib_memoized(95), expected95);
    assert_eq!(fib_matrix(95), expected95);

    // The wrapped sequence still obeys the recurrence under wrapping addition.
    let a = fib_iterative(93);
    let b = fib_iterative(94);
    assert_eq!(fib_iterative(95), a.wrapping_add(b));

    for n in 94..=120 {
        let ground = fib_iterative(n);
        assert_eq!(fib_memoized(n), ground);
        assert_eq!(fib_matrix(n), ground);
    }
}

#[test]
fn last_exact_and_first_wrapped() {
    // fib(93) is the last value that fits in 64 bits exactly.
    assert_eq!(fib_iterative(93), 12200160415121876738);
    // fib(94) wraps: 19740274219868223167 - 2^64.
    assert_eq!(fib_iterative(94), 1293530146158671551);
    assert_eq!(fib_matrix(94), 1293530146158671551);
}

#[test]
fn harness_reports_pass() {
    assert!(check_small_range().is_ok());
    assert!(check_extended_range().is_ok());
    assert!(verify_kernels().is_ok());
}
