//! Scalar arithmetic in the prime base field: operations on canonical
//! representatives in `[0, p)`, each proved against its mathematical
//! definition modulo `p`.

use vstd::prelude::*;
use vstd::arithmetic::div_mod::{
    lemma_add_mod_noop, lemma_mod_bound, lemma_mod_twice, lemma_small_mod,
};

verus! {

/// Sum of two canonical residues, reduced modulo `p`.
pub fn add_mod(a: u64, b: u64, p: u64) -> (r: u64)
    requires
        0 < p,
        a < p,
        b < p,
    ensures
        r == (a + b) % (p as int),
        r < p,
{
    proof {
        lemma_mod_bound(a + b, p as int);
    }
    let s: u128 = a as u128 + b as u128;
    let m: u128 = p as u128;
    (s % m) as u64
}

/// Difference of two canonical residues, reduced modulo `p`.
pub fn sub_mod(a: u64, b: u64, p: u64) -> (r: u64)
    requires
        0 < p,
        a < p,
        b < p,
    ensures
        r == (a - b) % (p as int),
        r < p,
{
    if a >= b {
        proof {
            lemma_small_mod((a - b) as nat, p as nat);
        }
        a - b
    } else {
        proof {
            lemma_small_mod((a + p - b) as nat, p as nat);
            vstd::arithmetic::div_mod::lemma_mod_add_multiples_vanish(a - b, p as int);
        }
        a + (p - b)
    }
}

/// Additive inverse of a canonical residue modulo `p`.
pub fn neg_mod(a: u64, p: u64) -> (r: u64)
    requires
        0 < p,
        a < p,
    ensures
        r == (0 - a) % (p as int),
        r < p,
{
    sub_mod(0, a, p)
}

/// Product of two canonical residues, reduced modulo `p`.
pub fn mul_mod(a: u64, b: u64, p: u64) -> (r: u64)
    requires
        0 < p,
        a < p,
        b < p,
    ensures
        r == (a * b) % (p as int),
        r < p,
{
    proof {
        lemma_mod_bound(a * b, p as int);
        vstd::arithmetic::mul::lemma_mul_upper_bound(
            a as int,
            0xffff_ffff_ffff_ffffu64 as int,
            b as int,
            0xffff_ffff_ffff_ffffu64 as int,
        );
    }
    let prod: u128 = a as u128 * b as u128;
    let m: u128 = p as u128;
    (prod % m) as u64
}

/// Congruent summands give congruent sums.
pub proof fn lemma_add_congruent2(m: int, x: int, x2: int, y: int, y2: int)
    requires
        0 < m,
        x % m == x2 % m,
        y % m == y2 % m,
    ensures
        (x + y) % m == (x2 + y2) % m,
{
    lemma_add_mod_noop(x, y, m);
    lemma_add_mod_noop(x2, y2, m);
}

/// Congruent minuends and subtrahends give congruent differences.
pub proof fn lemma_sub_congruent2(m: int, x: int, x2: int, y: int, y2: int)
    requires
        0 < m,
        x % m == x2 % m,
        y % m == y2 % m,
    ensures
        (x - y) % m == (x2 - y2) % m,
{
    vstd::arithmetic::div_mod::lemma_sub_mod_noop(x, y, m);
    vstd::arithmetic::div_mod::lemma_sub_mod_noop(x2, y2, m);
}

/// Congruent factors give congruent products.
pub proof fn lemma_mul_congruent2(m: int, x: int, x2: int, y: int, y2: int)
    requires
        0 < m,
        x % m == x2 % m,
        y % m == y2 % m,
    ensures
        (x * y) % m == (x2 * y2) % m,
{
    vstd::arithmetic::div_mod::lemma_mul_mod_noop(x, y, m);
    vstd::arithmetic::div_mod::lemma_mul_mod_noop(x2, y2, m);
}

/// Adding reduced representatives preserves the residue of the sum.
pub proof fn lemma_add_congruent(m: int, x: int, xr: int, y: int, yr: int)
    requires
        0 < m,
        xr == x % m,
        yr == y % m,
    ensures
        (xr + yr) % m == (x + y) % m,
{
    lemma_add_mod_noop(x, y, m);
    lemma_mod_twice(x, m);
    lemma_mod_twice(y, m);
    lemma_add_mod_noop(xr, yr, m);
}

/// Multiplying reduced representatives preserves the residue of the product.
pub proof fn lemma_mul_congruent(m: int, x: int, xr: int, y: int, yr: int)
    requires
        0 < m,
        xr == x % m,
        yr == y % m,
    ensures
        (xr * yr) % m == (x * y) % m,
{
    vstd::arithmetic::div_mod::lemma_mul_mod_noop(x, y, m);
    lemma_mod_twice(x, m);
    lemma_mod_twice(y, m);
    vstd::arithmetic::div_mod::lemma_mul_mod_noop(xr, yr, m);
}

/// A residue has at most one multiplicative inverse modulo `p`.
pub proof fn lemma_mod_inverse_unique(p: int, x: int, y1: int, y2: int)
    requires
        1 < p,
        0 <= y1 < p,
        0 <= y2 < p,
        (x * y1) % p == 1,
        (x * y2) % p == 1,
    ensures
        y1 == y2,
{
    lemma_small_mod(1nat, p as nat);
    lemma_small_mod(y1 as nat, p as nat);
    lemma_small_mod(y2 as nat, p as nat);
    assert(y1 * (x * y2) == (x * y1) * y2) by {
        vstd::arithmetic::mul::lemma_mul_is_associative(y1, x, y2);
        vstd::arithmetic::mul::lemma_mul_is_commutative(y1, x);
    }
    lemma_mul_congruent2(p, y1, y1, x * y2, 1);
    lemma_mul_congruent2(p, x * y1, 1, y2, y2);
}

/// The natural number denoted by a little-endian sequence of 64-bit
/// limbs.
pub open spec fn limbs_val(s: Seq<u64>) -> int
    decreases s.len(),
{
    if s.len() == 0 {
        0
    } else {
        s[0] + 0x10000000000000000 * limbs_val(s.drop_first())
    }
}

/// Euclid's greatest common divisor.
pub open spec fn gcd(a: nat, b: nat) -> nat
    decreases b,
{
    if b == 0 {
        a
    } else {
        gcd(b, a % b)
    }
}

/// The unique inverse of `x` modulo `p`, where one exists.
pub open spec fn base_inverse(p: int, x: int) -> int {
    choose|y: int| 0 <= y < p && #[trigger] ((x * y) % p) == 1
}

/// `d` divides `x`: some integer multiple of `d` equals `x`.
pub open spec fn divides(d: int, x: int) -> bool {
    exists|k: int| x == #[trigger] (k * d)
}

/// The greatest common divisor divides both of its arguments.
pub proof fn lemma_gcd_divides(a: nat, b: nat)
    ensures
        divides(gcd(a, b) as int, a as int),
        divides(gcd(a, b) as int, b as int),
    decreases b,
{
    let d = gcd(a, b) as int;
    if b == 0 {
        assert(a as int == 1 * d);
        assert(b as int == 0 * d);
    } else {
        lemma_gcd_divides(b, a % b);
        let k1 = choose|k: int| b as int == #[trigger] (k * d);
        let k2 = choose|k: int| (a % b) as int == #[trigger] (k * d);
        vstd::arithmetic::div_mod::lemma_fundamental_div_mod(a as int, b as int);
        let q = a as int / b as int;
        assert(a as int == (k1 * q + k2) * d) by (nonlinear_arith)
            requires
                b as int == k1 * d,
                (a % b) as int == k2 * d,
                a as int == (b as int) * q + (a % b) as int,
        ;
    }
}

/// When `x` and `p` share a factor, no residue inverts `x` modulo `p`:
/// the success condition of `inv_mod` is not an artifact of the
/// algorithm but a property of the inputs.
pub proof fn lemma_gcd_not_one_no_inverse(x: u64, p: u64)
    requires
        1 < p,
        gcd(x as nat, p as nat) != 1,
    ensures
        forall|y: int| #[trigger] (((x as int) * y) % (p as int)) != 1,
{
    let d = gcd(x as nat, p as nat) as int;
    lemma_gcd_divides(x as nat, p as nat);
    let k1 = choose|k: int| x as int == #[trigger] (k * d);
    let k2 = choose|k: int| p as int == #[trigger] (k * d);
    assert(d != 0) by {
        if d == 0 {
            assert(p as int == k2 * 0);
        }
    }
    assert forall|y: int| #[trigger] (((x as int) * y) % (p as int)) != 1 by {
        if ((x as int) * y) % (p as int) == 1 {
            vstd::arithmetic::div_mod::lemma_fundamental_div_mod(
                (x as int) * y,
                p as int,
            );
            let q = (x as int) * y / (p as int);
            assert(1 == (k1 * y - q * k2) * d) by (nonlinear_arith)
                requires
                    x as int == k1 * d,
                    p as int == k2 * d,
                    (x as int) * y == (p as int) * q + 1,
            ;
            assert(false) by (nonlinear_arith)
                requires
                    1 == (k1 * y - q * k2) * d,
                    d >= 2,
            ;
        }
    }
}

/// Multiplicative inverse modulo `p` by the extended Euclidean
/// algorithm, tracking the Bezout coefficient of `x` modulo `p`.
/// Succeeds exactly when `x` and `p` are coprime.
pub fn inv_mod(x: u64, p: u64) -> (r: Option<u64>)
    requires
        1 < p,
        x < p,
    ensures
        r is Some <==> gcd(x as nat, p as nat) == 1,
        r matches Some(y) ==> y < p && (x as int * y as int) % (p as int) == 1,
        r is None ==> forall|y: int| #[trigger] (((x as int) * y) % (p as int)) != 1,
        x == 0 ==> r is None,
{
    let mut r0: u64 = x;
    let mut r1: u64 = p;
    let mut s0: u64 = 1;
    let mut s1: u64 = 0;
    proof {
        lemma_small_mod(x as nat, p as nat);
        lemma_small_mod(1nat, p as nat);
        vstd::arithmetic::div_mod::lemma_mod_self_0(p as int);
    }
    while r1 != 0
        invariant
            1 < p,
            x < p,
            r0 <= p,
            r1 <= p,
            s0 < p,
            s1 < p,
            (s0 as int * x as int) % (p as int) == r0 as int % (p as int),
            (s1 as int * x as int) % (p as int) == r1 as int % (p as int),
            gcd(r0 as nat, r1 as nat) == gcd(x as nat, p as nat),
        decreases r1,
    {
        let q: u64 = r0 / r1;
        let rem: u64 = r0 % r1;
        let qr: u64 = q % p;
        let t: u64 = mul_mod(qr, s1, p);
        let s_new: u64 = sub_mod(s0, t, p);
        proof {
            let pi = p as int;
            let (xi, qi, r0i, r1i) = (x as int, q as int, r0 as int, r1 as int);
            let (s0i, s1i, ti) = (s0 as int, s1 as int, t as int);
            vstd::arithmetic::div_mod::lemma_fundamental_div_mod(r0i, r1i);
            // gcd is preserved: unfolding gcd(r0, r1) one step gives gcd(r1, rem).
            assert(gcd(r0 as nat, r1 as nat) == gcd(r1 as nat, rem as nat));
            // The Bezout residue carries over to (r1, rem).
            lemma_small_mod(s1 as nat, p as nat);
            lemma_small_mod(x as nat, p as nat);
            lemma_small_mod(t as nat, p as nat);
            lemma_mul_congruent(pi, qi, qr as int, s1i, s1i);
            lemma_mul_congruent2(pi, ti, qi * s1i, xi, xi);
            assert((ti * xi) % pi == (qi * r1i) % pi) by {
                assert((qi * s1i) * xi == qi * (s1i * xi)) by {
                    vstd::arithmetic::mul::lemma_mul_is_associative(qi, s1i, xi);
                }
                lemma_mul_congruent2(pi, qi, qi, s1i * xi, r1i);
            }
            assert(((s0i - ti) * xi) % pi == rem as int % pi) by {
                assert((s0i - ti) * xi == s0i * xi - ti * xi) by {
                    vstd::arithmetic::mul::lemma_mul_is_distributive_sub_other_way(
                        xi,
                        s0i,
                        ti,
                    );
                }
                lemma_sub_congruent2(pi, s0i * xi, r0i, ti * xi, qi * r1i);
                assert(r0i - qi * r1i == rem as int);
            }
            assert((s_new as int * xi) % pi == rem as int % pi) by {
                vstd::arithmetic::div_mod::lemma_mul_mod_noop_left(s0i - ti, xi, pi);
            }
        }
        r0 = r1;
        r1 = rem;
        s0 = s1;
        s1 = s_new;
    }
    proof {
        if x == 0 {
            assert(gcd(x as nat, p as nat) == gcd(p as nat, 0nat % (p as nat)));
            lemma_small_mod(0nat, p as nat);
            assert(gcd(p as nat, 0nat) == p as nat);
        }
    }
    if r0 == 1 {
        proof {
            lemma_small_mod(1nat, p as nat);
            vstd::arithmetic::mul::lemma_mul_is_commutative(s0 as int, x as int);
        }
        Some(s0)
    } else {
        proof {
            lemma_gcd_not_one_no_inverse(x, p);
        }
        None
    }
}

} // verus!
