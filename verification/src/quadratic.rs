//! The degree-2 optimal extension field `F_p[x]/(x^2 - W)`, with the
//! same norm-based inversion as the degree-4 field.

use vstd::prelude::*;
use vstd::arithmetic::power::pow;
use crate::modular::{add_mod, lemma_add_congruent, lemma_mul_congruent, mul_mod};
use crate::modular::base_inverse;

verus! {

/// Constant data of one degree-2 extension `F_p[x]/(x^2 - W)`.
#[derive(Clone, Copy)]
pub struct QuadraticParams {
    /// The base-field prime `p`.
    pub p: u64,
    /// The non-residue `W` of the extension polynomial `x^2 - W`.
    pub w: u64,
    /// The base-field element by which Frobenius scales the degree-1
    /// coefficient; a square root of unity modulo `p`.
    pub dth_root: u64,
}

impl QuadraticParams {
    /// The descriptor's invariant.
    pub open spec fn wf(self) -> bool {
        &&& 1 < self.p
        &&& 0 < self.w < self.p
        &&& 0 < self.dth_root < self.p
        &&& pow(self.dth_root as int, 2) % (self.p as int) == 1
    }

    /// Builds a descriptor, validating every invariant.
    pub fn new(p: u64, w: u64, dth_root: u64) -> (r: Option<QuadraticParams>)
        ensures
            r matches Some(d) ==> d.wf() && d.p == p && d.w == w && d.dth_root == dth_root,
            r is Some <==> (QuadraticParams { p, w, dth_root }).wf(),
    {
        if p <= 1 || w == 0 || w >= p || dth_root == 0 || dth_root >= p {
            return None;
        }
        let r2 = mul_mod(dth_root, dth_root, p);
        proof {
            assert(pow(dth_root as int, 2) == dth_root as int * dth_root as int) by {
                vstd::arithmetic::power::lemma_pow_adds(dth_root as int, 1, 1);
                vstd::arithmetic::power::lemma_pow1(dth_root as int);
            }
        }
        if r2 != 1 {
            return None;
        }
        Some(QuadraticParams { p, w, dth_root })
    }
}

/// The all-zero coefficient pair.
pub open spec fn zero2() -> Seq<int> {
    seq![0int, 0int]
}

/// The coefficient pair `[1, 0]`.
pub open spec fn one2() -> Seq<int> {
    seq![1int, 0int]
}

/// Componentwise reduction modulo `p`.
pub open spec fn reduce2(p: int, v: Seq<int>) -> Seq<int> {
    seq![v[0] % p, v[1] % p]
}

/// Degree-2 addition.
pub open spec fn add2_spec(p: int, a: Seq<int>, b: Seq<int>) -> Seq<int> {
    reduce2(p, seq![a[0] + b[0], a[1] + b[1]])
}

/// Degree-2 multiplication modulo `x^2 - w`.
pub open spec fn mul2_spec(p: int, w: int, a: Seq<int>, b: Seq<int>) -> Seq<int> {
    reduce2(p, seq![a[0] * b[0] + w * (a[1] * b[1]), a[0] * b[1] + a[1] * b[0]])
}

/// One application of Frobenius: the degree-1 coefficient is scaled by
/// the root.
pub open spec fn frobenius2_spec(p: int, r: int, a: Seq<int>) -> Seq<int> {
    reduce2(p, seq![a[0], a[1] * r])
}

/// The norm of `a` down to the base field: `a^(p+1)`.
pub open spec fn norm2_spec(d: QuadraticParams, a: Seq<int>) -> Seq<int> {
    mul2_spec(d.p as int, d.w as int, frobenius2_spec(d.p as int, d.dth_root as int, a), a)
}

/// The element the norm inversion returns for `a`.
pub open spec fn inverse2_val(d: QuadraticParams, a: Seq<int>) -> Seq<int> {
    reduce2(
        d.p as int,
        seq![
            frobenius2_spec(d.p as int, d.dth_root as int, a)[0] * base_inverse(
                d.p as int,
                norm2_spec(d, a)[0],
            ),
            frobenius2_spec(d.p as int, d.dth_root as int, a)[1] * base_inverse(
                d.p as int,
                norm2_spec(d, a)[0],
            ),
        ],
    )
}

/// Exactly when degree-2 inversion succeeds.
pub open spec fn inverse2_ok(d: QuadraticParams, a: Seq<int>) -> bool {
    &&& a != zero2()
    &&& norm2_spec(d, a)[1] == 0
    &&& crate::modular::gcd(norm2_spec(d, a)[0] as nat, d.p as nat) == 1
    &&& mul2_spec(d.p as int, d.w as int, a, inverse2_val(d, a)) == one2()
}

/// One element of the degree-2 extension: two canonical coefficients
/// `[a0, a1]` standing for `a0 + a1*x`.
#[derive(Clone, Copy, Hash, Debug)]
pub struct QuadraticExtension(pub [u64; 2]);

impl PartialEq for QuadraticExtension {
    fn eq(&self, other: &Self) -> (r: bool) {
        self.0[0] == other.0[0] && self.0[1] == other.0[1]
    }
}

impl Eq for QuadraticExtension {}

impl vstd::std_specs::cmp::PartialEqSpecImpl for QuadraticExtension {
    open spec fn obeys_eq_spec() -> bool {
        true
    }

    open spec fn eq_spec(&self, other: &Self) -> bool {
        self.0[0] == other.0[0] && self.0[1] == other.0[1]
    }
}

impl View for QuadraticExtension {
    type V = Seq<int>;

    open spec fn view(&self) -> Seq<int> {
        seq![self.0[0] as int, self.0[1] as int]
    }
}

impl QuadraticExtension {
    /// Both coefficients are canonical residues modulo `p`.
    pub open spec fn wf(self, p: u64) -> bool {
        self.0[0] < p && self.0[1] < p
    }

    /// The additive identity.
    pub fn zero() -> (r: Self)
        ensures
            r@ == zero2(),
            r == (QuadraticExtension([0u64, 0u64])),
    {
        let r = QuadraticExtension([0u64, 0u64]);
        proof {
            assert(r@ =~= zero2());
        }
        r
    }

    /// The multiplicative identity.
    pub fn one() -> (r: Self)
        ensures
            r@ == one2(),
            r == (QuadraticExtension([1u64, 0u64])),
    {
        let r = QuadraticExtension([1u64, 0u64]);
        proof {
            assert(r@ =~= one2());
        }
        r
    }

    /// Embeds a canonical base-field element.
    pub fn from_basefield(x: u64) -> (r: Self)
        ensures
            r == (QuadraticExtension([x, 0u64])),
            r@ == seq![x as int, 0int],
    {
        let r = QuadraticExtension([x, 0u64]);
        proof {
            assert(r@ =~= seq![x as int, 0int]);
        }
        r
    }

    /// True exactly of the zero element.
    pub fn is_zero(&self) -> (r: bool)
        ensures
            r <==> self@ == zero2(),
    {
        let r = self.0[0] == 0 && self.0[1] == 0;
        proof {
            if r {
                assert(self@ =~= zero2());
            }
        }
        r
    }

    /// Coefficientwise equality test.
    pub fn equals(&self, other: &Self) -> (r: bool)
        ensures
            r <==> self@ == other@,
    {
        let r = self.0[0] == other.0[0] && self.0[1] == other.0[1];
        proof {
            if r {
                assert(self@ =~= other@);
            }
        }
        r
    }

    /// Degree-2 addition: componentwise modulo `p`.
    pub fn add(self, rhs: Self, params: &QuadraticParams) -> (r: Self)
        requires
            params.wf(),
            self.wf(params.p),
            rhs.wf(params.p),
        ensures
            r@ == add2_spec(params.p as int, self@, rhs@),
            r.wf(params.p),
    {
        let p = params.p;
        let c0 = add_mod(self.0[0], rhs.0[0], p);
        let c1 = add_mod(self.0[1], rhs.0[1], p);
        let r = QuadraticExtension([c0, c1]);
        proof {
            assert(r@ =~= add2_spec(p as int, self@, rhs@));
        }
        r
    }

    /// Degree-2 multiplication modulo `x^2 - W`.
    pub fn mul(self, rhs: Self, params: &QuadraticParams) -> (r: Self)
        requires
            params.wf(),
            self.wf(params.p),
            rhs.wf(params.p),
        ensures
            r@ == mul2_spec(params.p as int, params.w as int, self@, rhs@),
            r.wf(params.p),
    {
        let p = params.p;
        let w = params.w;
        let (a0, a1) = (self.0[0], self.0[1]);
        let (b0, b1) = (rhs.0[0], rhs.0[1]);
        let m11 = mul_mod(a1, b1, p);
        let t = mul_mod(w, m11, p);
        let m00 = mul_mod(a0, b0, p);
        let c0 = add_mod(m00, t, p);
        let m01 = mul_mod(a0, b1, p);
        let m10 = mul_mod(a1, b0, p);
        let c1 = add_mod(m01, m10, p);
        let r = QuadraticExtension([c0, c1]);
        proof {
            let pi = p as int;
            let wi = w as int;
            let (x0, x1) = (a0 as int, a1 as int);
            let (y0, y1) = (b0 as int, b1 as int);
            vstd::arithmetic::div_mod::lemma_small_mod(w as nat, p as nat);
            lemma_mul_congruent(pi, wi, wi, x1 * y1, m11 as int);
            lemma_add_congruent(pi, x0 * y0, m00 as int, wi * (x1 * y1), t as int);
            lemma_add_congruent(pi, x0 * y1, m01 as int, x1 * y0, m10 as int);
            assert(r@ =~= mul2_spec(pi, wi, self@, rhs@));
        }
        r
    }

    /// The Frobenius endomorphism `e -> e^p`.
    pub fn frobenius(&self, params: &QuadraticParams) -> (r: Self)
        requires
            params.wf(),
            self.wf(params.p),
        ensures
            r@ == frobenius2_spec(params.p as int, params.dth_root as int, self@),
            r.wf(params.p),
    {
        let p = params.p;
        let c1 = mul_mod(self.0[1], params.dth_root, p);
        let r = QuadraticExtension([self.0[0], c1]);
        proof {
            vstd::arithmetic::div_mod::lemma_small_mod(self.0[0] as nat, p as nat);
            assert(r@ =~= frobenius2_spec(p as int, params.dth_root as int, self@));
        }
        r
    }

    /// Norm-based inversion: `a^(-1) = frobenius(a) / norm(a)`, the norm
    /// lying in the base field.  Zero yields `None`; so does a failed
    /// base-field check, which signals a misconfigured descriptor.
    pub fn try_inverse(&self, params: &QuadraticParams) -> (r: Option<Self>)
        requires
            params.wf(),
            self.wf(params.p),
        ensures
            r is Some <==> inverse2_ok(*params, self@),
            r matches Some(b) ==> b@ == inverse2_val(*params, self@) && b.wf(params.p)
                && mul2_spec(params.p as int, params.w as int, self@, b@) == one2(),
            self@ == zero2() ==> r is None,
    {
        if self.is_zero() {
            return None;
        }
        let conj = self.frobenius(params);
        let nrm = conj.mul(*self, params);
        if nrm.0[1] != 0 {
            return None;
        }
        let s = match crate::modular::inv_mod(nrm.0[0], params.p) {
            Some(s) => s,
            None => {
                return None;
            },
        };
        proof {
            let pi = params.p as int;
            let n0 = norm2_spec(*params, self@)[0];
            assert(0 <= s < pi && (n0 * s as int) % pi == 1);
            let y = base_inverse(pi, n0);
            assert(0 <= y < pi && (n0 * y) % pi == 1);
            crate::modular::lemma_mod_inverse_unique(pi, n0, y, s as int);
        }
        let p = params.p;
        let c0 = mul_mod(conj.0[0], s, p);
        let c1 = mul_mod(conj.0[1], s, p);
        let cand = QuadraticExtension([c0, c1]);
        proof {
            assert(cand@ =~= inverse2_val(*params, self@));
        }
        let check = self.mul(cand, params);
        let one = Self::one();
        if check.equals(&one) {
            Some(cand)
        } else {
            None
        }
    }
}

} // verus!
