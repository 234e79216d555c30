//! Batch inversion (Montgomery's trick): many inverses for the price of
//! one inversion plus a linear number of multiplications.  Zero entries
//! are tolerated and map to zero.

use vstd::prelude::*;
use crate::laws::{law_mul_associative, law_mul_commutative};
use crate::params::OefParams;
use crate::quartic::{inverse_ok, mul_spec, one4, zero4, QuarticExtension};

verus! {

/// The product of the views of all non-zero entries of `s`, folded
/// left-to-right from one; zero entries are skipped.
pub open spec fn prod_nonzero(d: OefParams, s: Seq<QuarticExtension>) -> Seq<int>
    decreases s.len(),
{
    if s.len() == 0 {
        one4()
    } else if s.last()@ == zero4() {
        prod_nonzero(d, s.drop_last())
    } else {
        mul_spec(d.p as int, d.w as int, prod_nonzero(d, s.drop_last()), s.last()@)
    }
}

impl QuarticExtension {
    /// Inverts every entry of `xs` with a single norm inversion plus
    /// `O(n)` multiplications.  A zero entry's result slot is zero; the
    /// result is absent exactly when the product of the non-zero entries
    /// cannot be inverted (for a sound descriptor: never, unless every
    /// batch's running product happens to be zero, which cannot occur in
    /// a field).
    pub fn batch_inverse(xs: &Vec<QuarticExtension>, params: &OefParams) -> (r: Option<
        Vec<QuarticExtension>,
    >)
        requires
            params.wf(),
            forall|i: int| 0 <= i < xs@.len() ==> (#[trigger] xs@[i]).wf(params.p),
        ensures
            r is Some <==> inverse_ok(*params, prod_nonzero(*params, xs@)),
            r matches Some(ys) ==> {
                &&& ys@.len() == xs@.len()
                &&& forall|i: int|
                    0 <= i < xs@.len() ==> ((#[trigger] xs@[i])@ == zero4() ==> ys@[i]@
                        == zero4())
                &&& forall|i: int|
                    0 <= i < xs@.len() ==> (xs@[i]@ != zero4() ==> (#[trigger] ys@[i]).wf(
                        params.p,
                    ) && mul_spec(params.p as int, params.w as int, xs@[i]@, ys@[i]@) == one4())
            },
    {
        let ghost d = *params;
        let n = xs.len();

        // Forward pass: prefix[i] is the product of the non-zero entries
        // before index i.
        let mut acc = QuarticExtension::one();
        let mut prefix: Vec<QuarticExtension> = Vec::new();
        proof {
            assert(acc.wf(params.p));
            assert(xs@.subrange(0, 0) =~= Seq::<QuarticExtension>::empty());
        }
        let mut i: usize = 0;
        while i < n
            invariant
                params.wf(),
                n == xs@.len(),
                i <= n,
                forall|j: int| 0 <= j < xs@.len() ==> (#[trigger] xs@[j]).wf(params.p),
                acc.wf(params.p),
                acc@ == prod_nonzero(d, xs@.subrange(0, i as int)),
                prefix@.len() == i,
                forall|j: int|
                    0 <= j < i ==> (#[trigger] prefix@[j])@ == prod_nonzero(
                        d,
                        xs@.subrange(0, j),
                    ) && prefix@[j].wf(params.p),
                d == *params,
            decreases n - i,
        {
            prefix.push(acc);
            let x = xs[i];
            proof {
                assert(xs@.subrange(0, i + 1).drop_last() =~= xs@.subrange(0, i as int));
                assert(xs@.subrange(0, i + 1).last() == xs@[i as int]);
            }
            if !x.is_zero() {
                acc = acc.mul(x, params);
            }
            i = i + 1;
        }
        proof {
            assert(xs@.subrange(0, n as int) =~= xs@);
        }

        // One single inversion of the total product.
        let total_inv = match acc.try_inverse(params) {
            Some(t) => t,
            None => {
                return None;
            },
        };

        // Backward pass: peel each entry off the running product.
        let mut inv_acc = total_inv;
        let mut ys_rev: Vec<QuarticExtension> = Vec::new();
        let mut k: usize = n;
        while k > 0
            invariant
                params.wf(),
                n == xs@.len(),
                k <= n,
                forall|j: int| 0 <= j < xs@.len() ==> (#[trigger] xs@[j]).wf(params.p),
                prefix@.len() == n,
                forall|j: int|
                    0 <= j < n ==> (#[trigger] prefix@[j])@ == prod_nonzero(
                        d,
                        xs@.subrange(0, j),
                    ) && prefix@[j].wf(params.p),
                inv_acc.wf(params.p),
                mul_spec(
                    params.p as int,
                    params.w as int,
                    prod_nonzero(d, xs@.subrange(0, k as int)),
                    inv_acc@,
                ) == one4(),
                ys_rev@.len() == n - k,
                forall|j: int|
                    0 <= j < n - k ==> ((#[trigger] xs@[n - 1 - j])@ == zero4() ==> ys_rev@[j]@
                        == zero4()),
                forall|j: int|
                    0 <= j < n - k ==> (xs@[n - 1 - j]@ != zero4() ==> (#[trigger] ys_rev@[j]).wf(
                        params.p,
                    ) && mul_spec(params.p as int, params.w as int, xs@[n - 1 - j]@, ys_rev@[j]@)
                        == one4()),
                d == *params,
            decreases k,
        {
            let idx = k - 1;
            let x = xs[idx];
            proof {
                assert(xs@.subrange(0, idx + 1).drop_last() =~= xs@.subrange(0, idx as int));
                assert(xs@.subrange(0, idx + 1).last() == xs@[idx as int]);
            }
            if x.is_zero() {
                ys_rev.push(QuarticExtension::zero());
            } else {
                let y = inv_acc.mul(prefix[idx], params);
                proof {
                    let pl = params.p as int;
                    let wl = params.w as int;
                    let pp = prod_nonzero(d, xs@.subrange(0, idx as int));
                    let aa = xs@[idx as int]@;
                    let ia = inv_acc@;
                    // a * (ia * pp) == ((pp * a) * ia) == 1
                    law_mul_commutative(pl, wl, ia, pp);
                    law_mul_associative(pl, wl, aa, pp, ia);
                    law_mul_commutative(pl, wl, aa, pp);
                    law_mul_associative(pl, wl, pp, aa, ia);
                    assert(mul_spec(pl, wl, aa, y@) == one4());
                    // pp * (ia * a) == ((pp * a) * ia) == 1
                    law_mul_commutative(pl, wl, ia, aa);
                    law_mul_associative(pl, wl, pp, aa, ia);
                }
                ys_rev.push(y);
                inv_acc = inv_acc.mul(x, params);
            }
            k = idx;
        }

        // Reverse into the result order.
        let mut ys: Vec<QuarticExtension> = Vec::new();
        let mut m: usize = 0;
        while m < n
            invariant
                n == xs@.len(),
                m <= n,
                ys_rev@.len() == n,
                ys@.len() == m,
                forall|j: int|
                    0 <= j < n ==> ((#[trigger] xs@[n - 1 - j])@ == zero4() ==> ys_rev@[j]@
                        == zero4()),
                forall|j: int|
                    0 <= j < n ==> (xs@[n - 1 - j]@ != zero4() ==> (#[trigger] ys_rev@[j]).wf(
                        params.p,
                    ) && mul_spec(params.p as int, params.w as int, xs@[n - 1 - j]@, ys_rev@[j]@)
                        == one4()),
                forall|j: int| 0 <= j < m ==> #[trigger] ys@[j] == ys_rev@[n - 1 - j],
            decreases n - m,
        {
            ys.push(ys_rev[n - 1 - m]);
            m = m + 1;
        }
        proof {
            assert forall|j: int| 0 <= j < n implies ys@[j] == ys_rev@[n - 1 - j] by {}
        }
        Some(ys)
    }
}

} // verus!
