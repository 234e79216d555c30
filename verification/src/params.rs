//! The descriptor of a degree-4 optimal extension field: the base-field
//! prime `p`, the non-residue `W` defining the extension polynomial
//! `x^4 - W`, and the root realizing the Frobenius endomorphism, together
//! with the constants the field exposes to consumers.

use vstd::prelude::*;
use vstd::arithmetic::power::pow;
use vstd::arithmetic::div_mod::lemma_small_mod;
use crate::modular::{lemma_mul_congruent, mul_mod};

verus! {

/// Constant data of one degree-4 extension `F_p[x]/(x^4 - W)`.
///
/// `dth_root` realizes the Frobenius map `e -> e^p`: the map multiplies
/// the coefficient of `x^i` by `dth_root^i`.  For that map to respect
/// multiplication, `dth_root` must be a fourth root of unity modulo `p`;
/// the constructor checks exactly that.
#[derive(Clone, Copy)]
pub struct OefParams {
    /// The characteristic: the base-field prime `p`.
    pub p: u64,
    /// The non-residue `W` of the extension polynomial `x^4 - W`.
    pub w: u64,
    /// The base-field element by which Frobenius scales the degree-1
    /// coefficient; a fourth root of unity modulo `p`.
    pub dth_root: u64,
    /// Two-adicity of the base field's multiplicative group.
    pub base_two_adicity: u64,
    /// Two-adicity of `p - 1` (the base field's characteristic-level value).
    pub characteristic_two_adicity: u64,
    /// Coefficients of a generator of the extension's multiplicative group.
    pub multiplicative_group_generator: [u64; 4],
    /// Coefficients of a generator of the largest power-of-two subgroup.
    pub power_of_two_generator: [u64; 4],
}

impl OefParams {
    /// The descriptor's invariant: every constant is a canonical residue
    /// and `dth_root` is a fourth root of unity modulo `p`.
    pub open spec fn wf(self) -> bool {
        &&& 1 < self.p
        &&& 0 < self.w < self.p
        &&& 0 < self.dth_root < self.p
        &&& pow(self.dth_root as int, 4) % (self.p as int) == 1
        &&& self.multiplicative_group_generator[0] < self.p
        &&& self.multiplicative_group_generator[1] < self.p
        &&& self.multiplicative_group_generator[2] < self.p
        &&& self.multiplicative_group_generator[3] < self.p
        &&& self.power_of_two_generator[0] < self.p
        &&& self.power_of_two_generator[1] < self.p
        &&& self.power_of_two_generator[2] < self.p
        &&& self.power_of_two_generator[3] < self.p
    }

    /// Builds a descriptor, validating every invariant at construction
    /// time; a misconfigured constant table is rejected here, never at
    /// arithmetic time.
    pub fn new(
        p: u64,
        w: u64,
        dth_root: u64,
        base_two_adicity: u64,
        characteristic_two_adicity: u64,
        multiplicative_group_generator: [u64; 4],
        power_of_two_generator: [u64; 4],
    ) -> (r: Option<OefParams>)
        ensures
            r matches Some(d) ==> {
                &&& d.wf()
                &&& d.p == p
                &&& d.w == w
                &&& d.dth_root == dth_root
                &&& d.base_two_adicity == base_two_adicity
                &&& d.characteristic_two_adicity == characteristic_two_adicity
                &&& d.multiplicative_group_generator == multiplicative_group_generator
                &&& d.power_of_two_generator == power_of_two_generator
            },
            r is Some <==> (OefParams {
                p,
                w,
                dth_root,
                base_two_adicity,
                characteristic_two_adicity,
                multiplicative_group_generator,
                power_of_two_generator,
            }).wf(),
    {
        if p <= 1 || w == 0 || w >= p || dth_root == 0 || dth_root >= p {
            return None;
        }
        let mut i: usize = 0;
        while i < 4
            invariant
                i <= 4,
                p > 1,
                forall|j: int|
                    0 <= j < i ==> multiplicative_group_generator[j] < p
                        && power_of_two_generator[j] < p,
            decreases 4 - i,
        {
            if multiplicative_group_generator[i] >= p || power_of_two_generator[i] >= p {
                return None;
            }
            i = i + 1;
        }
        // dth_root^4 mod p, accumulated one product at a time.
        let r2 = mul_mod(dth_root, dth_root, p);
        let r3 = mul_mod(r2, dth_root, p);
        let r4 = mul_mod(r3, dth_root, p);
        proof {
            let pi = p as int;
            let d = dth_root as int;
            lemma_small_mod(dth_root as nat, p as nat);
            lemma_mul_congruent(pi, d * d, r2 as int, d, dth_root as int);
            lemma_mul_congruent(pi, d * d * d, r3 as int, d, dth_root as int);
            assert(pow(d, 4) == d * d * d * d) by {
                vstd::arithmetic::power::lemma_pow_adds(d, 2, 2);
                vstd::arithmetic::power::lemma_pow_adds(d, 1, 1);
                vstd::arithmetic::power::lemma_pow1(d);
                vstd::arithmetic::mul::lemma_mul_is_associative(d * d, d, d);
            }
        }
        if r4 != 1 {
            return None;
        }
        Some(
            OefParams {
                p,
                w,
                dth_root,
                base_two_adicity,
                characteristic_two_adicity,
                multiplicative_group_generator,
                power_of_two_generator,
            },
        )
    }
}

} // verus!
