use vstd::prelude::*;
use vstd::arithmetic::div_mod::{lemma_mod_bound, lemma_mul_mod_noop, lemma_small_mod};
use vstd::arithmetic::mul::{
    lemma_mul_is_associative, lemma_mul_is_distributive_add, lemma_mul_is_distributive_add_other_way,
};
use vstd::wrapping::u64_specs;
use crate::fib::{fib, fib_wrapped, lemma_fib_boundary, two_to_64};

verus! {

/// A 2x2 matrix of machine words, row by row: [[a, b], [c, d]]. Fixed size,
/// stack-allocated; entries are residues modulo 2^64.
#[derive(Clone, Copy)]
pub struct Mat2 {
    pub a: u64,
    pub b: u64,
    pub c: u64,
    pub d: u64,
}

/// The mathematical counterpart of `Mat2`: a 2x2 matrix of unbounded naturals.
pub ghost struct SpecMat {
    pub a: nat,
    pub b: nat,
    pub c: nat,
    pub d: nat,
}

/// Exact 2x2 matrix product.
pub open spec fn smul(x: SpecMat, y: SpecMat) -> SpecMat {
    SpecMat {
        a: x.a * y.a + x.b * y.c,
        b: x.a * y.b + x.b * y.d,
        c: x.c * y.a + x.d * y.c,
        d: x.c * y.b + x.d * y.d,
    }
}

/// The identity matrix.
pub open spec fn sident() -> SpecMat {
    SpecMat { a: 1, b: 0, c: 0, d: 1 }
}

/// The Fibonacci transformation [[1, 1], [1, 0]].
pub open spec fn sbase() -> SpecMat {
    SpecMat { a: 1, b: 1, c: 1, d: 0 }
}

/// The k-th power of a matrix.
pub open spec fn spow(m: SpecMat, k: nat) -> SpecMat
    decreases k,
{
    if k == 0 {
        sident()
    } else {
        smul(m, spow(m, (k - 1) as nat))
    }
}

/// Each machine entry is the residue of the corresponding mathematical entry
/// modulo 2^64.
pub open spec fn congruent(m: Mat2, s: SpecMat) -> bool {
    &&& m.a == s.a % two_to_64()
    &&& m.b == s.b % two_to_64()
    &&& m.c == s.c % two_to_64()
    &&& m.d == s.d % two_to_64()
}

/// One entry of a triple product, rebracketed: multiplying the row (u, v) first
/// by the middle pair and then by the outer pair lands on the same value.
proof fn lemma_entry_assoc(u: int, v: int, p: int, q: int, r: int, s: int, w: int, t: int)
    ensures
        (u * p + v * q) * w + (u * r + v * s) * t == u * (p * w + r * t) + v * (q * w + s * t),
{
    lemma_mul_is_distributive_add_other_way(w, u * p, v * q);
    lemma_mul_is_distributive_add_other_way(t, u * r, v * s);
    lemma_mul_is_associative(u, p, w);
    lemma_mul_is_associative(v, q, w);
    lemma_mul_is_associative(u, r, t);
    lemma_mul_is_associative(v, s, t);
    lemma_mul_is_distributive_add(u, p * w, r * t);
    lemma_mul_is_distributive_add(v, q * w, s * t);
}

/// Matrix multiplication is associative.
proof fn lemma_smul_assoc(x: SpecMat, y: SpecMat, z: SpecMat)
    ensures
        smul(smul(x, y), z) == smul(x, smul(y, z)),
{
    lemma_entry_assoc(
        x.a as int,
        x.b as int,
        y.a as int,
        y.c as int,
        y.b as int,
        y.d as int,
        z.a as int,
        z.c as int,
    );
    lemma_entry_assoc(
        x.a as int,
        x.b as int,
        y.a as int,
        y.c as int,
        y.b as int,
        y.d as int,
        z.b as int,
        z.d as int,
    );
    lemma_entry_assoc(
        x.c as int,
        x.d as int,
        y.a as int,
        y.c as int,
        y.b as int,
        y.d as int,
        z.a as int,
        z.c as int,
    );
    lemma_entry_assoc(
        x.c as int,
        x.d as int,
        y.a as int,
        y.c as int,
        y.b as int,
        y.d as int,
        z.b as int,
        z.d as int,
    );
}

/// The identity matrix is neutral on both sides.
proof fn lemma_smul_identity(m: SpecMat)
    ensures
        smul(m, sident()) == m,
        smul(sident(), m) == m,
{
}

/// Powers compose: m^(i + j) == m^i * m^j.
proof fn lemma_spow_add(m: SpecMat, i: nat, j: nat)
    ensures
        spow(m, i + j) == smul(spow(m, i), spow(m, j)),
    decreases i,
{
    if i == 0 {
        lemma_smul_identity(spow(m, j));
    } else {
        lemma_spow_add(m, (i - 1) as nat, j);
        lemma_smul_assoc(m, spow(m, (i - 1) as nat), spow(m, j));
        assert(spow(m, i + j) == smul(m, spow(m, (i + j - 1) as nat)));
    }
}

/// The k-th power of the base matrix carries the Fibonacci numbers:
/// [[fib(k + 1), fib(k)], [fib(k), fib(k - 1)]], with bottom-right 1 at k == 0.
proof fn lemma_spow_fib(k: nat)
    ensures
        spow(sbase(), k).a == fib(k + 1),
        spow(sbase(), k).b == fib(k),
        spow(sbase(), k).c == fib(k),
        k >= 1 ==> spow(sbase(), k).d == fib((k - 1) as nat),
        k == 0 ==> spow(sbase(), k).d == 1,
    decreases k,
{
    if k == 0 {
        assert(fib(0) == 0);
        assert(fib(1) == 1);
    } else {
        lemma_spow_fib((k - 1) as nat);
        assert(spow(sbase(), k) == smul(sbase(), spow(sbase(), (k - 1) as nat)));
        assert(fib(k + 1) == fib(k) + fib((k - 1) as nat));
        if k >= 2 {
            assert(fib(k) == fib((k - 1) as nat) + fib((k - 2) as nat));
        }
    }
}

/// Wrapping 64-bit operations on residues compute the residue of p*q + r*s,
/// the shape of one entry of a matrix product.
proof fn lemma_wrap_mul_add(p: nat, q: nat, r: nat, s: nat)
    ensures
        u64_specs::wrapping_add(
            u64_specs::wrapping_mul((p % two_to_64()) as u64, (q % two_to_64()) as u64),
            u64_specs::wrapping_mul((r % two_to_64()) as u64, (s % two_to_64()) as u64),
        ) as nat == (p * q + r * s) % two_to_64(),
{
    let m = two_to_64() as int;
    lemma_mod_bound(p as int, m);
    lemma_mod_bound(q as int, m);
    lemma_mod_bound(r as int, m);
    lemma_mod_bound(s as int, m);
    lemma_mul_mod_noop(p as int, q as int, m);
    lemma_mul_mod_noop(r as int, s as int, m);
    crate::fib::lemma_wrapping_add_residues(p * q, r * s);
}

/// Entry-wise 2x2 product under wrapping 64-bit arithmetic: the machine image
/// of the exact product of the matrices the operands stand for.
fn mat_mul(x: &Mat2, y: &Mat2, Ghost(sx): Ghost<SpecMat>, Ghost(sy): Ghost<SpecMat>) -> (r: Mat2)
    requires
        congruent(*x, sx),
        congruent(*y, sy),
    ensures
        congruent(r, smul(sx, sy)),
{
    let r = Mat2 {
        a: x.a.wrapping_mul(y.a).wrapping_add(x.b.wrapping_mul(y.c)),
        b: x.a.wrapping_mul(y.b).wrapping_add(x.b.wrapping_mul(y.d)),
        c: x.c.wrapping_mul(y.a).wrapping_add(x.d.wrapping_mul(y.c)),
        d: x.c.wrapping_mul(y.b).wrapping_add(x.d.wrapping_mul(y.d)),
    };
    proof {
        lemma_wrap_mul_add(sx.a, sy.a, sx.b, sy.c);
        lemma_wrap_mul_add(sx.a, sy.b, sx.b, sy.d);
        lemma_wrap_mul_add(sx.c, sy.a, sx.d, sy.c);
        lemma_wrap_mul_add(sx.c, sy.b, sx.d, sy.d);
    }
    r
}

/// The n-th matrix power by square-and-multiply: halve the exponent each step,
/// square the half power, and multiply once more by the base on odd exponents.
fn matrix_pow(m: &Mat2, n: u32, Ghost(sm): Ghost<SpecMat>) -> (r: Mat2)
    requires
        n >= 1,
        congruent(*m, sm),
    ensures
        congruent(r, spow(sm, n as nat)),
    decreases n,
{
    if n == 1 {
        proof {
            lemma_smul_identity(sm);
            assert(spow(sm, 0) == sident());
            assert(spow(sm, 1) == smul(sm, spow(sm, 0)));
        }
        return *m;
    }
    let half = matrix_pow(m, n / 2, Ghost(sm));
    let half_squared = mat_mul(
        &half,
        &half,
        Ghost(spow(sm, (n / 2) as nat)),
        Ghost(spow(sm, (n / 2) as nat)),
    );
    proof {
        lemma_spow_add(sm, (n / 2) as nat, (n / 2) as nat);
    }
    if n % 2 == 0 {
        proof {
            assert((n / 2 + n / 2) as nat == n as nat);
        }
        half_squared
    } else {
        proof {
            assert((n / 2 + n / 2) as nat == (n - 1) as nat);
            lemma_spow_add(sm, (n - 1) as nat, 1);
            lemma_smul_identity(sm);
            assert(spow(sm, 0) == sident());
            assert(spow(sm, 1) == smul(sm, spow(sm, 0)));
        }
        mat_mul(&half_squared, m, Ghost(spow(sm, (n - 1) as nat)), Ghost(sm))
    }
}

/// The Fibonacci recurrence as repeated multiplication of [[1, 1], [1, 0]]:
/// logarithmically many 2x2 products, the result read from the top-right entry.
/// Index 0 is short-circuited before any matrix work.
pub fn fib_matrix(n: u32) -> (r: u64)
    ensures
        r == fib_wrapped(n as nat),
{
    if n == 0 {
        proof {
            lemma_fib_boundary();
        }
        return 0;
    }
    let base = Mat2 { a: 1, b: 1, c: 1, d: 0 };
    proof {
        lemma_small_mod(0, two_to_64());
        lemma_small_mod(1, two_to_64());
    }
    let result = matrix_pow(&base, n, Ghost(sbase()));
    proof {
        lemma_spow_fib(n as nat);
    }
    result.b
}

} // verus!
