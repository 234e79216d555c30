//! The degree-4 optimal extension field `F_p[x]/(x^4 - W)`.

use vstd::prelude::*;
use vstd::arithmetic::div_mod::lemma_mod_bound;
use crate::modular::{add_mod, base_inverse, lemma_add_congruent, lemma_mul_congruent, mul_mod, neg_mod, sub_mod};
use crate::params::OefParams;

verus! {

/// The all-zero coefficient sequence: the extension's additive identity.
pub open spec fn zero4() -> Seq<int> {
    seq![0int, 0int, 0int, 0int]
}

/// The coefficient sequence `[1, 0, 0, 0]`: the extension's one.
pub open spec fn one4() -> Seq<int> {
    seq![1int, 0int, 0int, 0int]
}

/// Componentwise reduction modulo `p`.
pub open spec fn reduce4(p: int, v: Seq<int>) -> Seq<int> {
    seq![v[0] % p, v[1] % p, v[2] % p, v[3] % p]
}

/// Unreduced componentwise sum.
pub open spec fn raw_add4(a: Seq<int>, b: Seq<int>) -> Seq<int> {
    seq![a[0] + b[0], a[1] + b[1], a[2] + b[2], a[3] + b[3]]
}

/// Unreduced componentwise difference.
pub open spec fn raw_sub4(a: Seq<int>, b: Seq<int>) -> Seq<int> {
    seq![a[0] - b[0], a[1] - b[1], a[2] - b[2], a[3] - b[3]]
}

/// Unreduced product in `F_p[x]/(x^4 - w)`: the degree-6 polynomial
/// product with every term of degree 4 and above folded back through
/// `x^4 = w`.
pub open spec fn raw_mul4(w: int, a: Seq<int>, b: Seq<int>) -> Seq<int> {
    seq![
        a[0] * b[0] + w * (a[1] * b[3] + a[2] * b[2] + a[3] * b[1]),
        a[0] * b[1] + a[1] * b[0] + w * (a[2] * b[3] + a[3] * b[2]),
        a[0] * b[2] + a[1] * b[1] + a[2] * b[0] + w * (a[3] * b[3]),
        a[0] * b[3] + a[1] * b[2] + a[2] * b[1] + a[3] * b[0],
    ]
}

/// Unreduced scaling of every coefficient by the base-field scalar `s`.
pub open spec fn raw_scale4(s: int, a: Seq<int>) -> Seq<int> {
    seq![a[0] * s, a[1] * s, a[2] * s, a[3] * s]
}

/// Extension addition: componentwise, reduced modulo `p`.
pub open spec fn add_spec(p: int, a: Seq<int>, b: Seq<int>) -> Seq<int> {
    reduce4(p, raw_add4(a, b))
}

/// Extension subtraction: componentwise, reduced modulo `p`.
pub open spec fn sub_spec(p: int, a: Seq<int>, b: Seq<int>) -> Seq<int> {
    reduce4(p, raw_sub4(a, b))
}

/// Extension negation: componentwise, reduced modulo `p`.
pub open spec fn neg_spec(p: int, a: Seq<int>) -> Seq<int> {
    reduce4(p, seq![0 - a[0], 0 - a[1], 0 - a[2], 0 - a[3]])
}

/// Extension multiplication modulo `x^4 - w`, reduced modulo `p`.
pub open spec fn mul_spec(p: int, w: int, a: Seq<int>, b: Seq<int>) -> Seq<int> {
    reduce4(p, raw_mul4(w, a, b))
}

/// Scalar multiplication by a base-field element, reduced modulo `p`.
pub open spec fn scale_spec(p: int, s: int, a: Seq<int>) -> Seq<int> {
    reduce4(p, raw_scale4(s, a))
}

/// The element lies in the image of the base-field embedding: every
/// non-constant coefficient is zero.
pub open spec fn in_basefield(a: Seq<int>) -> bool {
    a[1] == 0 && a[2] == 0 && a[3] == 0
}

/// Every coefficient is a canonical residue in `[0, p)`; the views of
/// well-formed elements are exactly the canonical sequences.
pub open spec fn canonical4(p: int, a: Seq<int>) -> bool {
    &&& a.len() == 4
    &&& 0 <= a[0] < p
    &&& 0 <= a[1] < p
    &&& 0 <= a[2] < p
    &&& 0 <= a[3] < p
}

/// The Frobenius map before reduction: the coefficient of `x^i` is
/// scaled by `r^i`.
pub open spec fn raw_frob4(r: int, a: Seq<int>) -> Seq<int> {
    seq![a[0], a[1] * r, a[2] * (r * r), a[3] * (r * (r * r))]
}

/// One application of the Frobenius endomorphism `e -> e^p`: the
/// base-field-linear map that scales the coefficient of `x^i` by `r^i`,
/// where `r` is the descriptor's fourth root of unity.
pub open spec fn frobenius_spec(p: int, r: int, a: Seq<int>) -> Seq<int> {
    reduce4(p, raw_frob4(r, a))
}

/// `k` applications of the Frobenius endomorphism, i.e. `e -> e^(p^k)`.
pub open spec fn repeated_frobenius_spec(p: int, r: int, a: Seq<int>, k: nat) -> Seq<int>
    decreases k,
{
    if k == 0 {
        a
    } else {
        frobenius_spec(p, r, repeated_frobenius_spec(p, r, a, (k - 1) as nat))
    }
}

/// Step 1 of the norm computation: `a^p`.
pub open spec fn norm_step_b1(d: OefParams, a: Seq<int>) -> Seq<int> {
    frobenius_spec(d.p as int, d.dth_root as int, a)
}

/// Step 2: `a^(p+1)`.
pub open spec fn norm_step_b2(d: OefParams, a: Seq<int>) -> Seq<int> {
    mul_spec(d.p as int, d.w as int, norm_step_b1(d, a), a)
}

/// Step 3: `a^(p^3 + p^2)`.
pub open spec fn norm_step_b3(d: OefParams, a: Seq<int>) -> Seq<int> {
    repeated_frobenius_spec(d.p as int, d.dth_root as int, norm_step_b2(d, a), 2)
}

/// Step 4: `a^(p^3 + p^2 + p)`, the norm divided by `a`.
pub open spec fn norm_minus_one(d: OefParams, a: Seq<int>) -> Seq<int> {
    mul_spec(d.p as int, d.w as int, norm_step_b3(d, a), norm_step_b1(d, a))
}

/// Step 5: the full norm `a^(p^3 + p^2 + p + 1)`; for a sound descriptor
/// it lies in the base field.
pub open spec fn norm_spec(d: OefParams, a: Seq<int>) -> Seq<int> {
    mul_spec(d.p as int, d.w as int, norm_minus_one(d, a), a)
}

/// The element the Frobenius-norm inversion algorithm returns for `a`.
pub open spec fn inverse_val(d: OefParams, a: Seq<int>) -> Seq<int> {
    scale_spec(d.p as int, base_inverse(d.p as int, norm_spec(d, a)[0]), norm_minus_one(d, a))
}

/// Exactly when inversion succeeds: the input is non-zero, the computed
/// norm lies in the base field and is coprime to `p`, and the candidate
/// passes the final `a * candidate == 1` check.  For a sound descriptor
/// this holds of every non-zero element.
pub open spec fn inverse_ok(d: OefParams, a: Seq<int>) -> bool {
    &&& a != zero4()
    &&& in_basefield(norm_spec(d, a))
    &&& crate::modular::gcd(norm_spec(d, a)[0] as nat, d.p as nat) == 1
    &&& mul_spec(d.p as int, d.w as int, a, inverse_val(d, a)) == one4()
}

/// One element of the degree-4 extension: four canonical base-field
/// coefficients `[a0, a1, a2, a3]` standing for
/// `a0 + a1*x + a2*x^2 + a3*x^3`.
#[derive(Clone, Copy, Hash, Debug)]
pub struct QuarticExtension(pub [u64; 4]);

impl PartialEq for QuarticExtension {
    fn eq(&self, other: &Self) -> (r: bool) {
        self.0[0] == other.0[0] && self.0[1] == other.0[1] && self.0[2] == other.0[2]
            && self.0[3] == other.0[3]
    }
}

impl Eq for QuarticExtension {}

impl vstd::std_specs::cmp::PartialEqSpecImpl for QuarticExtension {
    open spec fn obeys_eq_spec() -> bool {
        true
    }

    open spec fn eq_spec(&self, other: &Self) -> bool {
        self.0[0] == other.0[0] && self.0[1] == other.0[1] && self.0[2] == other.0[2]
            && self.0[3] == other.0[3]
    }
}

impl View for QuarticExtension {
    type V = Seq<int>;

    open spec fn view(&self) -> Seq<int> {
        seq![self.0[0] as int, self.0[1] as int, self.0[2] as int, self.0[3] as int]
    }
}

impl QuarticExtension {
    /// All four coefficients are canonical residues modulo `p`.
    pub open spec fn wf(self, p: u64) -> bool {
        &&& self.0[0] < p
        &&& self.0[1] < p
        &&& self.0[2] < p
        &&& self.0[3] < p
    }

    /// The additive identity `[0, 0, 0, 0]`.
    pub fn zero() -> (r: Self)
        ensures
            r@ == zero4(),
            r == (QuarticExtension([0u64, 0u64, 0u64, 0u64])),
    {
        let r = QuarticExtension([0u64, 0u64, 0u64, 0u64]);
        proof {
            assert(r@ =~= zero4());
        }
        r
    }

    /// The multiplicative identity `[1, 0, 0, 0]`.
    pub fn one() -> (r: Self)
        ensures
            r@ == one4(),
            r == (QuarticExtension([1u64, 0u64, 0u64, 0u64])),
    {
        let r = QuarticExtension([1u64, 0u64, 0u64, 0u64]);
        proof {
            assert(r@ =~= one4());
        }
        r
    }

    /// The canonical two, embedded in the extension.
    pub fn two(params: &OefParams) -> (r: Self)
        requires
            params.wf(),
        ensures
            r@ == seq![2int % (params.p as int), 0int, 0int, 0int],
            r.wf(params.p),
    {
        let t = add_mod(1, 1, params.p);
        let r = QuarticExtension([t, 0u64, 0u64, 0u64]);
        proof {
            assert(r@ =~= seq![2int % (params.p as int), 0int, 0int, 0int]);
        }
        r
    }

    /// The canonical negative one, embedded in the extension.
    pub fn neg_one(params: &OefParams) -> (r: Self)
        requires
            params.wf(),
        ensures
            r@ == neg_spec(params.p as int, one4()),
            r.wf(params.p),
    {
        let t = neg_mod(1, params.p);
        let r = QuarticExtension([t, 0u64, 0u64, 0u64]);
        proof {
            let pi = params.p as int;
            assert(0int % pi == 0) by {
                vstd::arithmetic::div_mod::lemma_mod_self_0(pi);
                vstd::arithmetic::div_mod::lemma_small_mod(0nat, params.p as nat);
            }
            assert(r@ =~= neg_spec(pi, one4()));
        }
        r
    }

    /// True exactly of the zero element.
    pub fn is_zero(&self) -> (r: bool)
        ensures
            r <==> self@ == zero4(),
    {
        let r = self.0[0] == 0 && self.0[1] == 0 && self.0[2] == 0 && self.0[3] == 0;
        proof {
            if r {
                assert(self@ =~= zero4());
            }
        }
        r
    }

    /// Coefficientwise equality test.
    pub fn equals(&self, other: &Self) -> (r: bool)
        ensures
            r <==> self@ == other@,
    {
        let r = self.0[0] == other.0[0] && self.0[1] == other.0[1] && self.0[2] == other.0[2]
            && self.0[3] == other.0[3];
        proof {
            if r {
                assert(self@ =~= other@);
            }
        }
        r
    }

    /// Extension addition: componentwise modulo `p`.
    pub fn add(self, rhs: Self, params: &OefParams) -> (r: Self)
        requires
            params.wf(),
            self.wf(params.p),
            rhs.wf(params.p),
        ensures
            r@ == add_spec(params.p as int, self@, rhs@),
            r.wf(params.p),
    {
        let p = params.p;
        let c0 = add_mod(self.0[0], rhs.0[0], p);
        let c1 = add_mod(self.0[1], rhs.0[1], p);
        let c2 = add_mod(self.0[2], rhs.0[2], p);
        let c3 = add_mod(self.0[3], rhs.0[3], p);
        let r = QuarticExtension([c0, c1, c2, c3]);
        proof {
            assert(r@ =~= add_spec(p as int, self@, rhs@));
        }
        r
    }

    /// Extension subtraction: componentwise modulo `p`.
    pub fn sub(self, rhs: Self, params: &OefParams) -> (r: Self)
        requires
            params.wf(),
            self.wf(params.p),
            rhs.wf(params.p),
        ensures
            r@ == sub_spec(params.p as int, self@, rhs@),
            r.wf(params.p),
    {
        let p = params.p;
        let c0 = sub_mod(self.0[0], rhs.0[0], p);
        let c1 = sub_mod(self.0[1], rhs.0[1], p);
        let c2 = sub_mod(self.0[2], rhs.0[2], p);
        let c3 = sub_mod(self.0[3], rhs.0[3], p);
        let r = QuarticExtension([c0, c1, c2, c3]);
        proof {
            assert(r@ =~= sub_spec(p as int, self@, rhs@));
        }
        r
    }

    /// Extension negation: componentwise modulo `p`.
    pub fn neg(self, params: &OefParams) -> (r: Self)
        requires
            params.wf(),
            self.wf(params.p),
        ensures
            r@ == neg_spec(params.p as int, self@),
            r.wf(params.p),
    {
        let p = params.p;
        let c0 = neg_mod(self.0[0], p);
        let c1 = neg_mod(self.0[1], p);
        let c2 = neg_mod(self.0[2], p);
        let c3 = neg_mod(self.0[3], p);
        let r = QuarticExtension([c0, c1, c2, c3]);
        proof {
            assert(r@ =~= neg_spec(p as int, self@));
        }
        r
    }

    /// Extension multiplication: the degree-6 polynomial product folded
    /// back through `x^4 = W`, every coefficient reduced modulo `p`.
    pub fn mul(self, rhs: Self, params: &OefParams) -> (r: Self)
        requires
            params.wf(),
            self.wf(params.p),
            rhs.wf(params.p),
        ensures
            r@ == mul_spec(params.p as int, params.w as int, self@, rhs@),
            r.wf(params.p),
    {
        let p = params.p;
        let w = params.w;
        let a0 = self.0[0];
        let a1 = self.0[1];
        let a2 = self.0[2];
        let a3 = self.0[3];
        let b0 = rhs.0[0];
        let b1 = rhs.0[1];
        let b2 = rhs.0[2];
        let b3 = rhs.0[3];

        // c0 = a0*b0 + w*(a1*b3 + a2*b2 + a3*b1)
        let m13 = mul_mod(a1, b3, p);
        let m22 = mul_mod(a2, b2, p);
        let m31 = mul_mod(a3, b1, p);
        let s0a = add_mod(m13, m22, p);
        let s0b = add_mod(s0a, m31, p);
        let t0 = mul_mod(w, s0b, p);
        let m00 = mul_mod(a0, b0, p);
        let c0 = add_mod(m00, t0, p);

        // c1 = a0*b1 + a1*b0 + w*(a2*b3 + a3*b2)
        let m01 = mul_mod(a0, b1, p);
        let m10 = mul_mod(a1, b0, p);
        let s1a = add_mod(m01, m10, p);
        let m23 = mul_mod(a2, b3, p);
        let m32 = mul_mod(a3, b2, p);
        let s1b = add_mod(m23, m32, p);
        let t1 = mul_mod(w, s1b, p);
        let c1 = add_mod(s1a, t1, p);

        // c2 = a0*b2 + a1*b1 + a2*b0 + w*(a3*b3)
        let m02 = mul_mod(a0, b2, p);
        let m11 = mul_mod(a1, b1, p);
        let m20 = mul_mod(a2, b0, p);
        let s2a = add_mod(m02, m11, p);
        let s2b = add_mod(s2a, m20, p);
        let m33 = mul_mod(a3, b3, p);
        let t2 = mul_mod(w, m33, p);
        let c2 = add_mod(s2b, t2, p);

        // c3 = a0*b3 + a1*b2 + a2*b1 + a3*b0
        let m03 = mul_mod(a0, b3, p);
        let m12 = mul_mod(a1, b2, p);
        let m21 = mul_mod(a2, b1, p);
        let m30 = mul_mod(a3, b0, p);
        let s3a = add_mod(m03, m12, p);
        let s3b = add_mod(s3a, m21, p);
        let c3 = add_mod(s3b, m30, p);

        let r = QuarticExtension([c0, c1, c2, c3]);
        proof {
            let pi = p as int;
            let wi = w as int;
            let (x0, x1, x2, x3) = (a0 as int, a1 as int, a2 as int, a3 as int);
            let (y0, y1, y2, y3) = (b0 as int, b1 as int, b2 as int, b3 as int);
            vstd::arithmetic::div_mod::lemma_small_mod(w as nat, p as nat);

            lemma_add_congruent(pi, x1 * y3, m13 as int, x2 * y2, m22 as int);
            lemma_add_congruent(pi, x1 * y3 + x2 * y2, s0a as int, x3 * y1, m31 as int);
            lemma_mul_congruent(pi, wi, wi, x1 * y3 + x2 * y2 + x3 * y1, s0b as int);
            lemma_add_congruent(pi, x0 * y0, m00 as int, wi * (x1 * y3 + x2 * y2 + x3 * y1), t0 as int);

            lemma_add_congruent(pi, x0 * y1, m01 as int, x1 * y0, m10 as int);
            lemma_add_congruent(pi, x2 * y3, m23 as int, x3 * y2, m32 as int);
            lemma_mul_congruent(pi, wi, wi, x2 * y3 + x3 * y2, s1b as int);
            lemma_add_congruent(pi, x0 * y1 + x1 * y0, s1a as int, wi * (x2 * y3 + x3 * y2), t1 as int);

            lemma_add_congruent(pi, x0 * y2, m02 as int, x1 * y1, m11 as int);
            lemma_add_congruent(pi, x0 * y2 + x1 * y1, s2a as int, x2 * y0, m20 as int);
            lemma_mul_congruent(pi, wi, wi, x3 * y3, m33 as int);
            lemma_add_congruent(pi, x0 * y2 + x1 * y1 + x2 * y0, s2b as int, wi * (x3 * y3), t2 as int);

            lemma_add_congruent(pi, x0 * y3, m03 as int, x1 * y2, m12 as int);
            lemma_add_congruent(pi, x0 * y3 + x1 * y2, s3a as int, x2 * y1, m21 as int);
            lemma_add_congruent(pi, x0 * y3 + x1 * y2 + x2 * y1, s3b as int, x3 * y0, m30 as int);

            assert(r@ =~= mul_spec(pi, wi, self@, rhs@));
        }
        r
    }

    /// In-place extension multiplication.
    pub fn mul_assign(&mut self, rhs: Self, params: &OefParams)
        requires
            params.wf(),
            old(self).wf(params.p),
            rhs.wf(params.p),
        ensures
            final(self)@ == mul_spec(params.p as int, params.w as int, old(self)@, rhs@),
            final(self).wf(params.p),
    {
        *self = (*self).mul(rhs, params);
    }

    /// Extension squaring, with each cross term computed once and
    /// doubled; provably the same element as `self.mul(self)`.
    pub fn square(&self, params: &OefParams) -> (r: Self)
        requires
            params.wf(),
            self.wf(params.p),
        ensures
            r@ == mul_spec(params.p as int, params.w as int, self@, self@),
            r.wf(params.p),
    {
        let p = params.p;
        let w = params.w;
        let a0 = self.0[0];
        let a1 = self.0[1];
        let a2 = self.0[2];
        let a3 = self.0[3];

        // c0 = a0^2 + w*(a1*(2*a3) + a2^2)
        let d3 = add_mod(a3, a3, p);
        let q13 = mul_mod(a1, d3, p);
        let q22 = mul_mod(a2, a2, p);
        let s0 = add_mod(q13, q22, p);
        let t0 = mul_mod(w, s0, p);
        let q00 = mul_mod(a0, a0, p);
        let c0 = add_mod(q00, t0, p);

        // c1 = 2*(a0*a1 + w*(a2*a3))
        let q01 = mul_mod(a0, a1, p);
        let q23 = mul_mod(a2, a3, p);
        let t1 = mul_mod(w, q23, p);
        let s1 = add_mod(q01, t1, p);
        let c1 = add_mod(s1, s1, p);

        // c2 = a0*(2*a2) + a1^2 + w*a3^2
        let d2 = add_mod(a2, a2, p);
        let q02 = mul_mod(a0, d2, p);
        let q11 = mul_mod(a1, a1, p);
        let s2 = add_mod(q02, q11, p);
        let q33 = mul_mod(a3, a3, p);
        let t2 = mul_mod(w, q33, p);
        let c2 = add_mod(s2, t2, p);

        // c3 = 2*(a0*a3 + a1*a2)
        let q03 = mul_mod(a0, a3, p);
        let q12 = mul_mod(a1, a2, p);
        let s3 = add_mod(q03, q12, p);
        let c3 = add_mod(s3, s3, p);

        let r = QuarticExtension([c0, c1, c2, c3]);
        proof {
            let pi = p as int;
            let wi = w as int;
            let (x0, x1, x2, x3) = (a0 as int, a1 as int, a2 as int, a3 as int);
            vstd::arithmetic::div_mod::lemma_small_mod(w as nat, p as nat);
            vstd::arithmetic::div_mod::lemma_small_mod(a0 as nat, p as nat);
            vstd::arithmetic::div_mod::lemma_small_mod(a1 as nat, p as nat);

            // coefficient 0
            lemma_mul_congruent(pi, x1, x1, x3 + x3, d3 as int);
            lemma_add_congruent(pi, x1 * (x3 + x3), q13 as int, x2 * x2, q22 as int);
            lemma_mul_congruent(pi, wi, wi, x1 * (x3 + x3) + x2 * x2, s0 as int);
            lemma_add_congruent(
                pi,
                x0 * x0,
                q00 as int,
                wi * (x1 * (x3 + x3) + x2 * x2),
                t0 as int,
            );
            assert(x1 * (x3 + x3) == x1 * x3 + x3 * x1) by {
                vstd::arithmetic::mul::lemma_mul_is_distributive_add(x1, x3, x3);
            }
            assert(c0 == (x0 * x0 + wi * (x1 * x3 + x2 * x2 + x3 * x1)) % pi);

            // coefficient 1
            lemma_mul_congruent(pi, wi, wi, x2 * x3, q23 as int);
            lemma_add_congruent(pi, x0 * x1, q01 as int, wi * (x2 * x3), t1 as int);
            lemma_add_congruent(
                pi,
                x0 * x1 + wi * (x2 * x3),
                s1 as int,
                x0 * x1 + wi * (x2 * x3),
                s1 as int,
            );
            assert(c1 == (x0 * x1 + x1 * x0 + wi * (x2 * x3 + x3 * x2)) % pi) by {
                assert(wi * (x2 * x3) + wi * (x2 * x3) == wi * (x2 * x3 + x3 * x2)) by {
                    vstd::arithmetic::mul::lemma_mul_is_distributive_add(wi, x2 * x3, x3 * x2);
                }
            }

            // coefficient 2
            lemma_mul_congruent(pi, x0, x0, x2 + x2, d2 as int);
            lemma_add_congruent(pi, x0 * (x2 + x2), q02 as int, x1 * x1, q11 as int);
            lemma_mul_congruent(pi, wi, wi, x3 * x3, q33 as int);
            lemma_add_congruent(
                pi,
                x0 * (x2 + x2) + x1 * x1,
                s2 as int,
                wi * (x3 * x3),
                t2 as int,
            );
            assert(x0 * (x2 + x2) == x0 * x2 + x2 * x0) by {
                vstd::arithmetic::mul::lemma_mul_is_distributive_add(x0, x2, x2);
            }
            assert(c2 == (x0 * x2 + x1 * x1 + x2 * x0 + wi * (x3 * x3)) % pi);

            // coefficient 3
            lemma_add_congruent(pi, x0 * x3, q03 as int, x1 * x2, q12 as int);
            lemma_add_congruent(
                pi,
                x0 * x3 + x1 * x2,
                s3 as int,
                x0 * x3 + x1 * x2,
                s3 as int,
            );
            assert(c3 == (x0 * x3 + x1 * x2 + x2 * x1 + x3 * x0) % pi);

            assert(r@ =~= mul_spec(pi, wi, self@, self@));
        }
        r
    }

    /// Scales every coefficient by the base-field element `s`.
    pub fn scalar_mul(&self, s: u64, params: &OefParams) -> (r: Self)
        requires
            params.wf(),
            self.wf(params.p),
            s < params.p,
        ensures
            r@ == scale_spec(params.p as int, s as int, self@),
            r.wf(params.p),
    {
        let p = params.p;
        let c0 = mul_mod(self.0[0], s, p);
        let c1 = mul_mod(self.0[1], s, p);
        let c2 = mul_mod(self.0[2], s, p);
        let c3 = mul_mod(self.0[3], s, p);
        let r = QuarticExtension([c0, c1, c2, c3]);
        proof {
            assert(r@ =~= scale_spec(p as int, s as int, self@));
        }
        r
    }

    /// The Frobenius endomorphism `e -> e^p`, computed as the linear map
    /// scaling the coefficient of `x^i` by `dth_root^i` — no `p`-bit
    /// exponentiation is ever performed.
    pub fn frobenius(&self, params: &OefParams) -> (r: Self)
        requires
            params.wf(),
            self.wf(params.p),
        ensures
            r@ == frobenius_spec(params.p as int, params.dth_root as int, self@),
            r.wf(params.p),
    {
        let p = params.p;
        let root = params.dth_root;
        let r2 = mul_mod(root, root, p);
        let r3 = mul_mod(root, r2, p);
        let c0 = self.0[0];
        let c1 = mul_mod(self.0[1], root, p);
        let c2 = mul_mod(self.0[2], r2, p);
        let c3 = mul_mod(self.0[3], r3, p);
        let r = QuarticExtension([c0, c1, c2, c3]);
        proof {
            let pi = p as int;
            let ri = root as int;
            let (x1, x2, x3) = (self.0[1] as int, self.0[2] as int, self.0[3] as int);
            vstd::arithmetic::div_mod::lemma_small_mod(c0 as nat, p as nat);
            vstd::arithmetic::div_mod::lemma_small_mod(root as nat, p as nat);
            vstd::arithmetic::div_mod::lemma_small_mod(self.0[2] as nat, p as nat);
            vstd::arithmetic::div_mod::lemma_small_mod(self.0[3] as nat, p as nat);
            lemma_mul_congruent(pi, x2, x2, ri * ri, r2 as int);
            lemma_mul_congruent(pi, ri, ri, ri * ri, r2 as int);
            lemma_mul_congruent(pi, x3, x3, ri * (ri * ri), r3 as int);
            assert(r@ =~= frobenius_spec(pi, ri, self@));
        }
        r
    }

    /// `k` successive applications of the Frobenius endomorphism,
    /// computing `e -> e^(p^k)`.
    pub fn repeated_frobenius(&self, k: usize, params: &OefParams) -> (r: Self)
        requires
            params.wf(),
            self.wf(params.p),
        ensures
            r@ == repeated_frobenius_spec(params.p as int, params.dth_root as int, self@, k as nat),
            r.wf(params.p),
    {
        let mut acc = *self;
        let mut i: usize = 0;
        while i < k
            invariant
                params.wf(),
                i <= k,
                acc.wf(params.p),
                acc@ == repeated_frobenius_spec(
                    params.p as int,
                    params.dth_root as int,
                    self@,
                    i as nat,
                ),
            decreases k - i,
        {
            acc = acc.frobenius(params);
            i = i + 1;
        }
        acc
    }

    /// Frobenius-norm inversion: multiply `a` by its Frobenius
    /// conjugates so the product falls into the base field, invert there,
    /// and scale back.  Zero has no inverse and yields `None`.  The norm
    /// is checked to lie in the base field and the candidate is checked
    /// to satisfy `a * candidate == 1`; a failure of either check means
    /// a misconfigured descriptor and also yields `None`.
    pub fn try_inverse(&self, params: &OefParams) -> (r: Option<Self>)
        requires
            params.wf(),
            self.wf(params.p),
        ensures
            r is Some <==> inverse_ok(*params, self@),
            r matches Some(b) ==> b@ == inverse_val(*params, self@) && b.wf(params.p)
                && mul_spec(params.p as int, params.w as int, self@, b@) == one4(),
            self@ == zero4() ==> r is None,
    {
        if self.is_zero() {
            return None;
        }
        let b1 = self.frobenius(params);
        let b2 = b1.mul(*self, params);
        let b3 = b2.repeated_frobenius(2, params);
        let rm1 = b3.mul(b1, params);
        let rfull = rm1.mul(*self, params);
        if !(rfull.0[1] == 0 && rfull.0[2] == 0 && rfull.0[3] == 0) {
            return None;
        }
        let s = match crate::modular::inv_mod(rfull.0[0], params.p) {
            Some(s) => s,
            None => {
                return None;
            },
        };
        proof {
            let pi = params.p as int;
            let n0 = norm_spec(*params, self@)[0];
            assert(0 <= s < pi && (n0 * s as int) % pi == 1);
            let y = base_inverse(pi, n0);
            assert(0 <= y < pi && (n0 * y) % pi == 1);
            crate::modular::lemma_mod_inverse_unique(pi, n0, y, s as int);
        }
        let cand = rm1.scalar_mul(s, params);
        let check = self.mul(cand, params);
        let one = Self::one();
        if check.equals(&one) {
            Some(cand)
        } else {
            None
        }
    }

    /// In-place extension addition.
    pub fn add_assign(&mut self, rhs: Self, params: &OefParams)
        requires
            params.wf(),
            old(self).wf(params.p),
            rhs.wf(params.p),
        ensures
            final(self)@ == add_spec(params.p as int, old(self)@, rhs@),
            final(self).wf(params.p),
    {
        *self = (*self).add(rhs, params);
    }

    /// In-place extension subtraction.
    pub fn sub_assign(&mut self, rhs: Self, params: &OefParams)
        requires
            params.wf(),
            old(self).wf(params.p),
            rhs.wf(params.p),
        ensures
            final(self)@ == sub_spec(params.p as int, old(self)@, rhs@),
            final(self).wf(params.p),
    {
        *self = (*self).sub(rhs, params);
    }

    /// Division by an invertible element: `self * rhs^(-1)`.
    pub fn div(self, rhs: Self, params: &OefParams) -> (r: Self)
        requires
            params.wf(),
            self.wf(params.p),
            rhs.wf(params.p),
            inverse_ok(*params, rhs@),
        ensures
            r@ == mul_spec(params.p as int, params.w as int, self@, inverse_val(*params, rhs@)),
            r.wf(params.p),
    {
        let inv = match rhs.try_inverse(params) {
            Some(i) => i,
            None => vstd::pervasive::unreached(),
        };
        self.mul(inv, params)
    }

    /// In-place division by an invertible element.
    pub fn div_assign(&mut self, rhs: Self, params: &OefParams)
        requires
            params.wf(),
            old(self).wf(params.p),
            rhs.wf(params.p),
            inverse_ok(*params, rhs@),
        ensures
            final(self)@ == mul_spec(
                params.p as int,
                params.w as int,
                old(self)@,
                inverse_val(*params, rhs@),
            ),
            final(self).wf(params.p),
    {
        *self = (*self).div(rhs, params);
    }

    /// The coefficient tuple of this element.
    pub fn to_basefield_array(&self) -> (r: [u64; 4])
        ensures
            r == self.0,
    {
        self.0
    }

    /// The element with the given coefficient tuple.
    pub fn from_basefield_array(arr: [u64; 4]) -> (r: Self)
        ensures
            r == (QuarticExtension(arr)),
    {
        QuarticExtension(arr)
    }

    /// Embeds a base-field element as the constant coefficient.
    pub fn from_basefield(x: u64) -> (r: Self)
        ensures
            r == (QuarticExtension([x, 0u64, 0u64, 0u64])),
            r@ == seq![x as int, 0int, 0int, 0int],
            in_basefield(r@),
    {
        let r = QuarticExtension([x, 0u64, 0u64, 0u64]);
        proof {
            assert(r@ =~= seq![x as int, 0int, 0int, 0int]);
        }
        r
    }

    /// Conversion from a base-field element; the same embedding as
    /// `from_basefield`.
    pub fn from(x: u64) -> (r: Self)
        ensures
            r == (QuarticExtension([x, 0u64, 0u64, 0u64])),
            in_basefield(r@),
    {
        Self::from_basefield(x)
    }

    /// True exactly when every non-constant coefficient is zero, i.e.
    /// the element lies in the embedded base field.
    pub fn is_in_basefield(&self) -> (r: bool)
        ensures
            r <==> in_basefield(self@),
    {
        self.0[1] == 0 && self.0[2] == 0 && self.0[3] == 0
    }

    /// Embeds a canonical `u64`; the caller asserts canonicity.
    pub fn from_canonical_u64(n: u64, params: &OefParams) -> (r: Self)
        requires
            params.wf(),
            n < params.p,
        ensures
            r@ == seq![n as int, 0int, 0int, 0int],
            r.wf(params.p),
            in_basefield(r@),
    {
        let _ = params.p;
        let r = QuarticExtension([n, 0u64, 0u64, 0u64]);
        proof {
            assert(r@ =~= seq![n as int, 0int, 0int, 0int]);
        }
        r
    }

    /// Embeds an arbitrary `u64`, reducing it modulo `p`.
    pub fn from_noncanonical_u64(n: u64, params: &OefParams) -> (r: Self)
        requires
            params.wf(),
        ensures
            r@ == seq![n as int % (params.p as int), 0int, 0int, 0int],
            r.wf(params.p),
            in_basefield(r@),
    {
        let c = n % params.p;
        let r = QuarticExtension([c, 0u64, 0u64, 0u64]);
        proof {
            assert(r@ =~= seq![n as int % (params.p as int), 0int, 0int, 0int]);
        }
        r
    }

    /// Embeds an arbitrary `u128`, reducing it modulo `p`.
    pub fn from_noncanonical_u128(n: u128, params: &OefParams) -> (r: Self)
        requires
            params.wf(),
        ensures
            r@ == seq![n as int % (params.p as int), 0int, 0int, 0int],
            r.wf(params.p),
            in_basefield(r@),
    {
        let c = (n % (params.p as u128)) as u64;
        proof {
            lemma_mod_bound(n as int, params.p as int);
        }
        let r = QuarticExtension([c, 0u64, 0u64, 0u64]);
        proof {
            assert(r@ =~= seq![n as int % (params.p as int), 0int, 0int, 0int]);
        }
        r
    }

    /// Embeds a signed `i64`, reducing its residue into `[0, p)`.
    pub fn from_noncanonical_i64(n: i64, params: &OefParams) -> (r: Self)
        requires
            params.wf(),
        ensures
            r@ == seq![n as int % (params.p as int), 0int, 0int, 0int],
            r.wf(params.p),
            in_basefield(r@),
    {
        let p = params.p;
        let c: u64 = if n >= 0 {
            (n as u64) % p
        } else {
            let mag: u64 = (-(n as i128)) as u64;
            let m = mag % p;
            proof {
                let pi = p as int;
                let k = mag as int / pi;
                assert(mag as int == 0 - n as int);
                vstd::arithmetic::div_mod::lemma_fundamental_div_mod(mag as int, pi);
                assert(mag as int == pi * k + (mag as int % pi));
                if m == 0 {
                    assert((0 - k) * pi == 0 - pi * k) by (nonlinear_arith);
                    vstd::arithmetic::div_mod::lemma_fundamental_div_mod_converse_mod(
                        n as int,
                        pi,
                        0 - k,
                        0,
                    );
                } else {
                    assert((0 - k - 1) * pi == 0 - pi * k - pi) by (nonlinear_arith);
                    vstd::arithmetic::div_mod::lemma_fundamental_div_mod_converse_mod(
                        n as int,
                        pi,
                        0 - k - 1,
                        pi - m,
                    );
                }
            }
            if m == 0 {
                0
            } else {
                p - m
            }
        };
        let r = QuarticExtension([c, 0u64, 0u64, 0u64]);
        proof {
            assert(r@ =~= seq![n as int % (params.p as int), 0int, 0int, 0int]);
        }
        r
    }

    /// Embeds an arbitrary-precision unsigned integer, given as
    /// little-endian 64-bit limbs, reducing it modulo `p`.
    pub fn from_noncanonical_biguint(limbs: &Vec<u64>, params: &OefParams) -> (r: Self)
        requires
            params.wf(),
        ensures
            r@ == seq![
                crate::modular::limbs_val(limbs@) % (params.p as int),
                0int,
                0int,
                0int,
            ],
            r.wf(params.p),
            in_basefield(r@),
    {
        let p = params.p;
        let n = limbs.len();
        let mut acc: u64 = 0;
        let mut j: usize = n;
        proof {
            assert(limbs@.subrange(n as int, n as int) =~= Seq::<u64>::empty());
            vstd::arithmetic::div_mod::lemma_small_mod(0nat, p as nat);
        }
        while j > 0
            invariant
                params.wf(),
                p == params.p,
                n == limbs@.len(),
                j <= n,
                acc < p,
                acc as int == crate::modular::limbs_val(limbs@.subrange(j as int, n as int)) % (
                p as int),
            decreases j,
        {
            let limb = limbs[j - 1];
            let t: u128 = (limb as u128) + (acc as u128) * 0x10000000000000000u128;
            let c = (t % (p as u128)) as u64;
            proof {
                let pi = p as int;
                let tail = crate::modular::limbs_val(limbs@.subrange(j as int, n as int));
                let whole = limbs@.subrange(j - 1, n as int);
                assert(whole.drop_first() =~= limbs@.subrange(j as int, n as int));
                assert(crate::modular::limbs_val(whole) == limb + 0x10000000000000000 * tail);
                lemma_mod_bound(t as int, pi);
                vstd::arithmetic::div_mod::lemma_mod_twice(tail, pi);
                crate::modular::lemma_mul_congruent2(
                    pi,
                    0x10000000000000000,
                    0x10000000000000000,
                    acc as int,
                    tail,
                );
                crate::modular::lemma_add_congruent2(
                    pi,
                    limb as int,
                    limb as int,
                    0x10000000000000000 * (acc as int),
                    0x10000000000000000 * tail,
                );
                assert((acc as u128) * 0x10000000000000000u128 == (acc as int)
                    * 0x10000000000000000);
            }
            acc = c;
            j = j - 1;
        }
        proof {
            assert(limbs@.subrange(0, n as int) =~= limbs@);
        }
        let r = QuarticExtension([acc, 0u64, 0u64, 0u64]);
        proof {
            assert(r@ =~= seq![
                crate::modular::limbs_val(limbs@) % (params.p as int),
                0int,
                0int,
                0int,
            ]);
        }
        r
    }
}

/// Left-to-right fold of extension addition over a sequence of elements,
/// seeded with zero.
pub open spec fn sum_spec(p: int, s: Seq<QuarticExtension>) -> Seq<int>
    decreases s.len(),
{
    if s.len() == 0 {
        zero4()
    } else {
        add_spec(p, sum_spec(p, s.drop_last()), s.last()@)
    }
}

/// Left-to-right fold of extension multiplication over a sequence of
/// elements, seeded with one.
pub open spec fn product_spec(p: int, w: int, s: Seq<QuarticExtension>) -> Seq<int>
    decreases s.len(),
{
    if s.len() == 0 {
        one4()
    } else {
        mul_spec(p, w, product_spec(p, w, s.drop_last()), s.last()@)
    }
}

impl QuarticExtension {
    /// The sum of all elements of `xs`.
    pub fn sum(xs: &Vec<QuarticExtension>, params: &OefParams) -> (r: Self)
        requires
            params.wf(),
            forall|i: int| 0 <= i < xs@.len() ==> (#[trigger] xs@[i]).wf(params.p),
        ensures
            r@ == sum_spec(params.p as int, xs@),
            r.wf(params.p),
    {
        let n = xs.len();
        let mut acc = QuarticExtension::zero();
        let mut i: usize = 0;
        proof {
            assert(xs@.subrange(0, 0) =~= Seq::<QuarticExtension>::empty());
        }
        while i < n
            invariant
                params.wf(),
                n == xs@.len(),
                i <= n,
                forall|j: int| 0 <= j < xs@.len() ==> (#[trigger] xs@[j]).wf(params.p),
                acc.wf(params.p),
                acc@ == sum_spec(params.p as int, xs@.subrange(0, i as int)),
            decreases n - i,
        {
            proof {
                assert(xs@.subrange(0, i + 1).drop_last() =~= xs@.subrange(0, i as int));
                assert(xs@.subrange(0, i + 1).last() == xs@[i as int]);
            }
            acc = acc.add(xs[i], params);
            i = i + 1;
        }
        proof {
            assert(xs@.subrange(0, n as int) =~= xs@);
        }
        acc
    }

    /// The product of all elements of `xs`.
    pub fn product(xs: &Vec<QuarticExtension>, params: &OefParams) -> (r: Self)
        requires
            params.wf(),
            forall|i: int| 0 <= i < xs@.len() ==> (#[trigger] xs@[i]).wf(params.p),
        ensures
            r@ == product_spec(params.p as int, params.w as int, xs@),
            r.wf(params.p),
    {
        let n = xs.len();
        let mut acc = QuarticExtension::one();
        let mut i: usize = 0;
        proof {
            assert(xs@.subrange(0, 0) =~= Seq::<QuarticExtension>::empty());
        }
        while i < n
            invariant
                params.wf(),
                n == xs@.len(),
                i <= n,
                forall|j: int| 0 <= j < xs@.len() ==> (#[trigger] xs@[j]).wf(params.p),
                acc.wf(params.p),
                acc@ == product_spec(params.p as int, params.w as int, xs@.subrange(0, i as int)),
            decreases n - i,
        {
            proof {
                assert(xs@.subrange(0, i + 1).drop_last() =~= xs@.subrange(0, i as int));
                assert(xs@.subrange(0, i + 1).last() == xs@[i as int]);
            }
            acc = acc.mul(xs[i], params);
            i = i + 1;
        }
        proof {
            assert(xs@.subrange(0, n as int) =~= xs@);
        }
        acc
    }

    /// The order of the extension field, `p^4`, as four little-endian
    /// 64-bit limbs, computed exactly by schoolbook squaring of `p^2`.
    pub fn order(params: &OefParams) -> (r: [u64; 4])
        requires
            params.wf(),
        ensures
            crate::modular::limbs_val(r@) == vstd::arithmetic::power::pow(params.p as int, 4),
    {
        let p = params.p;
        proof {
            vstd::arithmetic::mul::lemma_mul_upper_bound(
                p as int,
                0xffff_ffff_ffff_ffffu64 as int,
                p as int,
                0xffff_ffff_ffff_ffffu64 as int,
            );
        }
        let pw: u128 = (p as u128) * (p as u128);
        let b: u128 = 0x10000000000000000u128;
        proof {
            vstd::arithmetic::div_mod::lemma_fundamental_div_mod(pw as int, b as int);
            vstd::arithmetic::div_mod::lemma_multiply_divide_lt(pw as int, b as int, b as int);
            vstd::arithmetic::div_mod::lemma_mod_bound(pw as int, b as int);
        }
        let h: u64 = (pw / b) as u64;
        let l: u64 = (pw % b) as u64;
        proof {
            vstd::arithmetic::mul::lemma_mul_upper_bound(
                h as int,
                0xffff_ffff_ffff_ffffu64 as int,
                l as int,
                0xffff_ffff_ffff_ffffu64 as int,
            );
            vstd::arithmetic::mul::lemma_mul_upper_bound(
                h as int,
                0xffff_ffff_ffff_ffffu64 as int,
                h as int,
                0xffff_ffff_ffff_ffffu64 as int,
            );
            vstd::arithmetic::mul::lemma_mul_upper_bound(
                l as int,
                0xffff_ffff_ffff_ffffu64 as int,
                l as int,
                0xffff_ffff_ffff_ffffu64 as int,
            );
        }
        let hh: u128 = (h as u128) * (h as u128);
        let hl: u128 = (h as u128) * (l as u128);
        let ll: u128 = (l as u128) * (l as u128);
        proof {
            vstd::arithmetic::div_mod::lemma_fundamental_div_mod(ll as int, b as int);
            vstd::arithmetic::div_mod::lemma_fundamental_div_mod(hl as int, b as int);
            vstd::arithmetic::div_mod::lemma_fundamental_div_mod(hh as int, b as int);
            vstd::arithmetic::div_mod::lemma_mod_bound(ll as int, b as int);
            vstd::arithmetic::div_mod::lemma_mod_bound(hl as int, b as int);
            vstd::arithmetic::div_mod::lemma_mod_bound(hh as int, b as int);
            vstd::arithmetic::div_mod::lemma_div_is_ordered(
                ll as int,
                0xffff_ffff_ffff_ffff_ffff_ffff_ffff_ffffu128 as int,
                b as int,
            );
            vstd::arithmetic::div_mod::lemma_div_is_ordered(
                hl as int,
                0xffff_ffff_ffff_ffff_ffff_ffff_ffff_ffffu128 as int,
                b as int,
            );
            vstd::arithmetic::div_mod::lemma_div_is_ordered(
                hh as int,
                0xffff_ffff_ffff_ffff_ffff_ffff_ffff_ffffu128 as int,
                b as int,
            );
        }
        let limb0: u64 = (ll % b) as u64;
        let c0: u128 = ll / b;
        let t1: u128 = c0 + (hl % b) + (hl % b);
        proof {
            vstd::arithmetic::div_mod::lemma_fundamental_div_mod(t1 as int, b as int);
            vstd::arithmetic::div_mod::lemma_mod_bound(t1 as int, b as int);
            vstd::arithmetic::div_mod::lemma_multiply_divide_lt(t1 as int, 3, b as int);
        }
        let limb1: u64 = (t1 % b) as u64;
        let c1: u128 = t1 / b;
        let t2: u128 = c1 + (hl / b) + (hl / b) + (hh % b);
        proof {
            vstd::arithmetic::div_mod::lemma_fundamental_div_mod(t2 as int, b as int);
            vstd::arithmetic::div_mod::lemma_mod_bound(t2 as int, b as int);
            vstd::arithmetic::div_mod::lemma_multiply_divide_lt(t2 as int, 3, b as int);
        }
        let limb2: u64 = (t2 % b) as u64;
        let c2: u128 = t2 / b;
        let t3: u128 = c2 + (hh / b);
        proof {
            let (hi, li) = (h as int, l as int);
            let pwi = pw as int;
            assert(pwi == hi * 0x10000000000000000 + li);
            assert(pwi * pwi == (hh as int) * 0x100000000000000000000000000000000
                + (hl as int) * 0x10000000000000000 + (hl as int) * 0x10000000000000000
                + (ll as int)) by (nonlinear_arith)
                requires
                    pwi == hi * 0x10000000000000000 + li,
                    hh as int == hi * hi,
                    hl as int == hi * li,
                    ll as int == li * li,
            ;
            assert(pwi * pwi < 0x10000000000000000000000000000000000000000000000000000000000000000)
                by (nonlinear_arith)
                requires
                    0 <= pwi < 0x100000000000000000000000000000000,
            ;
            // The carry chain, assembled with literal powers of the base;
            // every remaining step is linear.
            assert(ll as int == 0x10000000000000000 * (c0 as int) + limb0);
            assert(hl as int == 0x10000000000000000 * ((hl as int) / 0x10000000000000000)
                + (hl as int) % 0x10000000000000000);
            assert(hh as int == 0x10000000000000000 * ((hh as int) / 0x10000000000000000)
                + (hh as int) % 0x10000000000000000);
            assert(t1 as int == 0x10000000000000000 * (c1 as int) + limb1);
            assert(t2 as int == 0x10000000000000000 * (c2 as int) + limb2);
            assert(pwi * pwi == limb0 + 0x10000000000000000 * (limb1 as int)
                + 0x100000000000000000000000000000000 * (limb2 as int)
                + 0x1000000000000000000000000000000000000000000000000 * (t3 as int));
            assert(t3 < b);
        }
        let limb3: u64 = t3 as u64;
        let r = [limb0, limb1, limb2, limb3];
        proof {
            crate::laws::lemma_pow4_grouping(p as int);
            assert(r@.drop_first() =~= seq![limb1, limb2, limb3]);
            assert(seq![limb1, limb2, limb3].drop_first() =~= seq![limb2, limb3]);
            assert(seq![limb2, limb3].drop_first() =~= seq![limb3]);
            assert(seq![limb3].drop_first() =~= Seq::<u64>::empty());
            assert(crate::modular::limbs_val(Seq::<u64>::empty()) == 0);
            assert(crate::modular::limbs_val(seq![limb3]) == limb3);
            assert(crate::modular::limbs_val(seq![limb2, limb3]) == limb2 + 0x10000000000000000
                * (limb3 as int));
            assert(crate::modular::limbs_val(seq![limb1, limb2, limb3]) == limb1
                + 0x10000000000000000 * (limb2 as int)
                + 0x100000000000000000000000000000000 * (limb3 as int));
            assert(crate::modular::limbs_val(r@) == limb0 + 0x10000000000000000 * (limb1 as int)
                + 0x100000000000000000000000000000000 * (limb2 as int)
                + 0x1000000000000000000000000000000000000000000000000 * (limb3 as int));
        }
        r
    }

    /// Two-adicity of the extension's multiplicative group: the base
    /// field's two-adicity plus exactly two.  `p^4 - 1` factors as
    /// `(p-1)(p+1)(p^2+1)`, and for `p = 4n + 1` the last two factors
    /// each contribute exactly one further power of two.
    pub fn two_adicity(params: &OefParams) -> (r: u64)
        requires
            params.wf(),
            params.base_two_adicity + 2 <= u64::MAX,
        ensures
            r == params.base_two_adicity + 2,
    {
        params.base_two_adicity + 2
    }

    /// Two-adicity at the characteristic level: unchanged by extension.
    pub fn characteristic_two_adicity(params: &OefParams) -> (r: u64)
        ensures
            r == params.characteristic_two_adicity,
    {
        params.characteristic_two_adicity
    }

    /// The characteristic of the extension: the base-field prime itself.
    pub fn characteristic(params: &OefParams) -> (r: u64)
        ensures
            r == params.p,
    {
        params.p
    }

    /// A generator of the extension's multiplicative group, from the
    /// descriptor's constant table.
    pub fn multiplicative_group_generator(params: &OefParams) -> (r: Self)
        requires
            params.wf(),
        ensures
            r == (QuarticExtension(params.multiplicative_group_generator)),
            r.wf(params.p),
    {
        QuarticExtension(params.multiplicative_group_generator)
    }

    /// A generator of the largest power-of-two subgroup, from the
    /// descriptor's constant table.
    pub fn power_of_two_generator(params: &OefParams) -> (r: Self)
        requires
            params.wf(),
        ensures
            r == (QuarticExtension(params.power_of_two_generator)),
            r.wf(params.p),
    {
        QuarticExtension(params.power_of_two_generator)
    }
}

impl Default for QuarticExtension {
    /// The default element is zero.
    fn default() -> (r: Self)
        ensures
            r@ == zero4(),
            r == (QuarticExtension([0u64, 0u64, 0u64, 0u64])),
    {
        QuarticExtension::zero()
    }
}

} // verus!
