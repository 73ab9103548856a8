//! Four kernels for the n-th Fibonacci number — plain recursion, a bottom-up
//! pass, call-scoped memoization, and 2x2 matrix exponentiation — each proved
//! to return the true value reduced modulo 2^64, so all four agree bit for bit
//! at every index, wrapped region included. A correctness harness validates
//! them against a precomputed sequence and against each other, and a
//! performance harness times them and reduces the samples to exact summaries.

use vstd::prelude::*;

pub mod fib;
pub mod harness;
pub mod matrix;
pub mod perf;

verus! {

/// Sum of two machine words; the caller keeps the sum within `u64`.
pub fn add(left: u64, right: u64) -> (r: u64)
    requires
        left + right <= u64::MAX,
    ensures
        r == left + right,
{
    left + right
}

/// A plain data holder: a name with an age.
#[derive(Debug, Clone)]
pub struct User {
    pub name: String,
    pub age: u8,
}

impl User {
    /// Builds the record from its two fields, both kept unchanged.
    pub fn new(name: String, age: u8) -> (r: Self)
        ensures
            r.name@ == name@,
            r.age == age,
    {
        User { name, age }
    }
}

} // verus!
