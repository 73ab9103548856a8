use vstd::prelude::*;
use vstd::arithmetic::div_mod::{
    lemma_add_mod_noop, lemma_mod_bound, lemma_mod_sub_multiples_vanish, lemma_small_mod,
};
use vstd::wrapping::u64_specs;

verus! {

/// The Fibonacci sequence: fib(0) = 0, fib(1) = 1, fib(n) = fib(n - 1) + fib(n - 2).
pub open spec fn fib(n: nat) -> nat
    decreases n,
{
    if n == 0 {
        0
    } else if n == 1 {
        1
    } else {
        fib((n - 1) as nat) + fib((n - 2) as nat)
    }
}

/// The modulus of 64-bit unsigned arithmetic.
pub open spec fn two_to_64() -> nat {
    0x1_0000_0000_0000_0000
}

/// What a 64-bit kernel returns for index `n`: the true Fibonacci number reduced
/// modulo 2^64. Up to `n == 93` this equals `fib(n)` itself; past that point the
/// value wraps, deterministically and identically for every kernel.
pub open spec fn fib_wrapped(n: nat) -> u64 {
    (fib(n) % two_to_64()) as u64
}

/// Wrapping 64-bit addition of two residues modulo 2^64 yields the residue of the
/// true sum.
pub(crate) proof fn lemma_wrapping_add_residues(x: nat, y: nat)
    ensures
        u64_specs::wrapping_add((x % two_to_64()) as u64, (y % two_to_64()) as u64) as nat == (x
            + y) % two_to_64(),
{
    let m = two_to_64() as int;
    lemma_mod_bound(x as int, m);
    lemma_mod_bound(y as int, m);
    lemma_add_mod_noop(x as int, y as int, m);
    let a = (x as int) % m;
    let b = (y as int) % m;
    if a + b <= u64::MAX {
        lemma_small_mod((a + b) as nat, two_to_64());
    } else {
        lemma_mod_sub_multiples_vanish(a + b, m);
        lemma_small_mod((a + b - m) as nat, two_to_64());
    }
}

/// The wrapped sequence obeys the Fibonacci recurrence under wrapping addition,
/// in either operand order.
pub proof fn lemma_fib_wrapped_step(n: nat)
    requires
        n >= 2,
    ensures
        u64_specs::wrapping_add(fib_wrapped((n - 1) as nat), fib_wrapped((n - 2) as nat))
            == fib_wrapped(n),
        u64_specs::wrapping_add(fib_wrapped((n - 2) as nat), fib_wrapped((n - 1) as nat))
            == fib_wrapped(n),
{
    lemma_wrapping_add_residues(fib((n - 1) as nat), fib((n - 2) as nat));
    lemma_wrapping_add_residues(fib((n - 2) as nat), fib((n - 1) as nat));
    assert(fib(n) == fib((n - 1) as nat) + fib((n - 2) as nat));
}

/// Boundary values: every kernel returns 0 at index 0 and 1 at index 1.
pub proof fn lemma_fib_boundary()
    ensures
        fib_wrapped(0) == 0,
        fib_wrapped(1) == 1,
{
    lemma_small_mod(0, two_to_64());
    lemma_small_mod(1, two_to_64());
}

/// While the true Fibonacci number still fits in 64 bits, the wrapped value is
/// the true value itself.
pub proof fn lemma_fib_wrapped_exact(n: nat)
    requires
        fib(n) < two_to_64(),
    ensures
        fib_wrapped(n) == fib(n),
{
    lemma_small_mod(fib(n), two_to_64());
}

/// The Fibonacci sequence never decreases.
pub proof fn lemma_fib_monotonic(n: nat)
    ensures
        fib(n) <= fib(n + 1),
{
    if n == 0 {
        assert(fib(0) == 0);
        assert(fib(1) == 1);
    } else {
        assert(fib(n + 1) == fib(n) + fib((n - 1) as nat));
    }
}

/// In the range where the successor still fits in 64 bits, kernel outputs never
/// decrease either.
pub proof fn lemma_fib_wrapped_monotonic(n: nat)
    requires
        fib(n + 1) < two_to_64(),
    ensures
        fib_wrapped(n) <= fib_wrapped(n + 1),
{
    lemma_fib_monotonic(n);
    lemma_fib_wrapped_exact(n);
    lemma_fib_wrapped_exact(n + 1);
}

/// Two results that each satisfy a kernel's contract for the same index are
/// identical. Every kernel's postcondition equates its result with
/// `fib_wrapped(n)` and no kernel keeps state between calls, so the kernels
/// agree pairwise at every index — including the wrapped region past `n == 93` —
/// and repeated calls of one kernel return the same value.
pub proof fn lemma_kernel_results_agree(n: nat, a: u64, b: u64)
    requires
        a == fib_wrapped(n),
        b == fib_wrapped(n),
    ensures
        a == b,
{
}

/// The first eleven values, written out.
pub proof fn lemma_fib_small_values()
    ensures
        fib_wrapped(0) == 0,
        fib_wrapped(1) == 1,
        fib_wrapped(2) == 1,
        fib_wrapped(3) == 2,
        fib_wrapped(4) == 3,
        fib_wrapped(5) == 5,
        fib_wrapped(6) == 8,
        fib_wrapped(7) == 13,
        fib_wrapped(8) == 21,
        fib_wrapped(9) == 34,
        fib_wrapped(10) == 55,
{
    reveal_with_fuel(fib, 12);
    lemma_fib_wrapped_exact(0);
    lemma_fib_wrapped_exact(1);
    lemma_fib_wrapped_exact(2);
    lemma_fib_wrapped_exact(3);
    lemma_fib_wrapped_exact(4);
    lemma_fib_wrapped_exact(5);
    lemma_fib_wrapped_exact(6);
    lemma_fib_wrapped_exact(7);
    lemma_fib_wrapped_exact(8);
    lemma_fib_wrapped_exact(9);
    lemma_fib_wrapped_exact(10);
}

/// Plain self-referential recursion, the deliberately inefficient baseline:
/// exponential time, no memoization.
pub fn fib_recursive(n: u32) -> (r: u64)
    ensures
        r == fib_wrapped(n as nat),
    decreases n,
{
    if n == 0 {
        proof {
            lemma_fib_boundary();
        }
        0
    } else if n == 1 {
        proof {
            lemma_fib_boundary();
        }
        1
    } else {
        let a = fib_recursive(n - 1);
        let b = fib_recursive(n - 2);
        proof {
            lemma_fib_wrapped_step(n as nat);
        }
        a.wrapping_add(b)
    }
}

/// Bottom-up single pass carrying the previous and current value: linear time,
/// constant space. The reference kernel the others are validated against.
pub fn fib_iterative(n: u32) -> (r: u64)
    ensures
        r == fib_wrapped(n as nat),
{
    if n == 0 {
        proof {
            lemma_fib_boundary();
        }
        return 0;
    }
    proof {
        lemma_fib_boundary();
    }
    let mut a: u64 = 0;
    let mut b: u64 = 1;
    let mut i: u32 = 1;
    while i < n
        invariant
            1 <= i <= n,
            a == fib_wrapped((i - 1) as nat),
            b == fib_wrapped(i as nat),
        decreases n - i,
    {
        let t = a.wrapping_add(b);
        proof {
            lemma_fib_wrapped_step((i + 1) as nat);
        }
        a = b;
        b = t;
        i = i + 1;
    }
    b
}

/// Entries of a memo table are either unknown or the wrapped Fibonacci value of
/// their index.
pub open spec fn memo_valid(memo: Seq<Option<u64>>) -> bool {
    forall|j: int|
        0 <= j < memo.len() && (#[trigger] memo[j]).is_some() ==> memo[j].unwrap()
            == fib_wrapped(j as nat)
}

/// Top-down recursion over a call-scoped table: each index is computed at most
/// once, consulted before it is recomputed, and recorded once known.
fn fib_memo_helper(n: u32, memo: &mut Vec<Option<u64>>) -> (r: u64)
    requires
        (n as int) < old(memo)@.len(),
        memo_valid(old(memo)@),
    ensures
        final(memo)@.len() == old(memo)@.len(),
        memo_valid(final(memo)@),
        r == fib_wrapped(n as nat),
    decreases n,
{
    if let Some(result) = memo[n as usize] {
        return result;
    }
    let result: u64 = if n == 0 {
        proof {
            lemma_fib_boundary();
        }
        0
    } else if n == 1 {
        proof {
            lemma_fib_boundary();
        }
        1
    } else {
        let a = fib_memo_helper(n - 1, memo);
        let b = fib_memo_helper(n - 2, memo);
        proof {
            lemma_fib_wrapped_step(n as nat);
        }
        a.wrapping_add(b)
    };
    let ghost pre = memo@;
    memo[n as usize] = Some(result);
    proof {
        assert forall|j: int|
            0 <= j < memo@.len() && (#[trigger] memo@[j]).is_some() implies memo@[j].unwrap()
            == fib_wrapped(j as nat) by {
            if j != n as int {
                assert(memo@[j] == pre[j]);
            }
        }
    }
    result
}

/// Top-down recursion with a memo table of size n + 1, owned by this one call
/// and discarded on return: no state survives between invocations.
pub fn fib_memoized(n: u32) -> (r: u64)
    requires
        n < u32::MAX,
    ensures
        r == fib_wrapped(n as nat),
{
    let size: usize = (n + 1) as usize;
    let mut memo: Vec<Option<u64>> = Vec::new();
    while memo.len() < size
        invariant
            memo@.len() <= size,
            forall|j: int| 0 <= j < memo@.len() ==> (#[trigger] memo@[j]).is_none(),
        decreases size - memo@.len(),
    {
        memo.push(None);
    }
    fib_memo_helper(n, &mut memo)
}

} // verus!
