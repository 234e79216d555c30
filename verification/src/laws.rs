//! The algebraic laws of the extension field, proved once over the
//! specification-level model so every consumer of the arithmetic can
//! rely on them.

use vstd::prelude::*;
use vstd::arithmetic::div_mod::{lemma_mod_bound, lemma_mod_twice, lemma_small_mod};
use crate::modular::{lemma_add_congruent2, lemma_mul_congruent2};
use crate::quartic::{
    add_spec, canonical4, frobenius_spec, mul_spec, neg_spec, one4, raw_add4, raw_frob4,
    raw_mul4, repeated_frobenius_spec, zero4,
};

verus! {

/// Addition is associative: `a + (b + c) == (a + b) + c`.
pub proof fn law_add_associative(p: int, a: Seq<int>, b: Seq<int>, c: Seq<int>)
    requires
        0 < p,
    ensures
        add_spec(p, a, add_spec(p, b, c)) == add_spec(p, add_spec(p, a, b), c),
{
    let l = add_spec(p, a, add_spec(p, b, c));
    let r = add_spec(p, add_spec(p, a, b), c);
    assert forall|i: int| 0 <= i < 4 implies l[i] == r[i] by {
        lemma_mod_twice(b[i] + c[i], p);
        lemma_mod_twice(a[i] + b[i], p);
        lemma_add_congruent2(p, a[i], a[i], (b[i] + c[i]) % p, b[i] + c[i]);
        lemma_add_congruent2(p, (a[i] + b[i]) % p, a[i] + b[i], c[i], c[i]);
    }
    assert(l =~= r);
}

/// Zero is the additive identity: `a + 0 == a`.
pub proof fn law_add_zero(p: int, a: Seq<int>)
    requires
        0 < p,
        canonical4(p, a),
    ensures
        add_spec(p, a, zero4()) == a,
{
    lemma_small_mod(a[0] as nat, p as nat);
    lemma_small_mod(a[1] as nat, p as nat);
    lemma_small_mod(a[2] as nat, p as nat);
    lemma_small_mod(a[3] as nat, p as nat);
    assert(add_spec(p, a, zero4()) =~= a);
}

/// Every element cancels against its negation: `a + (-a) == 0`.
pub proof fn law_add_neg(p: int, a: Seq<int>)
    requires
        0 < p,
    ensures
        add_spec(p, a, neg_spec(p, a)) == zero4(),
{
    let l = add_spec(p, a, neg_spec(p, a));
    assert forall|i: int| 0 <= i < 4 implies l[i] == 0 by {
        lemma_mod_twice(0 - a[i], p);
        lemma_add_congruent2(p, a[i], a[i], (0 - a[i]) % p, 0 - a[i]);
        vstd::arithmetic::div_mod::lemma_mod_self_0(p);
        assert(a[i] + (0 - a[i]) == 0);
        assert(0int % p == 0) by {
            lemma_small_mod(0nat, p as nat);
        }
    }
    assert(l =~= zero4());
}

/// One is the multiplicative identity: `a * 1 == a`.
pub proof fn law_mul_one(p: int, w: int, a: Seq<int>)
    requires
        0 < p,
        canonical4(p, a),
    ensures
        mul_spec(p, w, a, one4()) == a,
{
    lemma_small_mod(a[0] as nat, p as nat);
    lemma_small_mod(a[1] as nat, p as nat);
    lemma_small_mod(a[2] as nat, p as nat);
    lemma_small_mod(a[3] as nat, p as nat);
    vstd::arithmetic::mul::lemma_mul_basics(a[0]);
    vstd::arithmetic::mul::lemma_mul_basics(a[1]);
    vstd::arithmetic::mul::lemma_mul_basics(a[2]);
    vstd::arithmetic::mul::lemma_mul_basics(a[3]);
    vstd::arithmetic::mul::lemma_mul_basics(w);
    assert(mul_spec(p, w, a, one4()) =~= a);
}

/// Multiplication is commutative: `a * b == b * a`.
pub proof fn law_mul_commutative(p: int, w: int, a: Seq<int>, b: Seq<int>)
    requires
        0 < p,
    ensures
        mul_spec(p, w, a, b) == mul_spec(p, w, b, a),
{
    let u = raw_mul4(w, a, b);
    let v = raw_mul4(w, b, a);
    assert forall|i: int| 0 <= i < 4 implies u[i] == v[i] by {
        broadcast use vstd::arithmetic::mul::lemma_mul_is_commutative;

    }
    assert(mul_spec(p, w, a, b) =~= mul_spec(p, w, b, a));
}

/// Replacing either factor's coefficients by congruent ones leaves every
/// coefficient of the folded product congruent.
pub proof fn lemma_raw_mul4_congruent(
    p: int,
    w: int,
    a: Seq<int>,
    a2: Seq<int>,
    b: Seq<int>,
    b2: Seq<int>,
)
    requires
        0 < p,
        forall|i: int| 0 <= i < 4 ==> #[trigger] (a[i] % p) == a2[i] % p,
        forall|i: int| 0 <= i < 4 ==> #[trigger] (b[i] % p) == b2[i] % p,
    ensures
        forall|k: int|
            0 <= k < 4 ==> #[trigger] (raw_mul4(w, a, b)[k] % p) == raw_mul4(w, a2, b2)[k] % p,
{
    let u = raw_mul4(w, a, b);
    let v = raw_mul4(w, a2, b2);

    lemma_mul_congruent2(p, a[0], a2[0], b[0], b2[0]);
    lemma_mul_congruent2(p, a[0], a2[0], b[1], b2[1]);
    lemma_mul_congruent2(p, a[0], a2[0], b[2], b2[2]);
    lemma_mul_congruent2(p, a[0], a2[0], b[3], b2[3]);
    lemma_mul_congruent2(p, a[1], a2[1], b[0], b2[0]);
    lemma_mul_congruent2(p, a[1], a2[1], b[1], b2[1]);
    lemma_mul_congruent2(p, a[1], a2[1], b[2], b2[2]);
    lemma_mul_congruent2(p, a[1], a2[1], b[3], b2[3]);
    lemma_mul_congruent2(p, a[2], a2[2], b[0], b2[0]);
    lemma_mul_congruent2(p, a[2], a2[2], b[1], b2[1]);
    lemma_mul_congruent2(p, a[2], a2[2], b[2], b2[2]);
    lemma_mul_congruent2(p, a[2], a2[2], b[3], b2[3]);
    lemma_mul_congruent2(p, a[3], a2[3], b[0], b2[0]);
    lemma_mul_congruent2(p, a[3], a2[3], b[1], b2[1]);
    lemma_mul_congruent2(p, a[3], a2[3], b[2], b2[2]);
    lemma_mul_congruent2(p, a[3], a2[3], b[3], b2[3]);

    assert(u[0] % p == v[0] % p) by {
        lemma_add_congruent2(p, a[1] * b[3], a2[1] * b2[3], a[2] * b[2], a2[2] * b2[2]);
        lemma_add_congruent2(
            p,
            a[1] * b[3] + a[2] * b[2],
            a2[1] * b2[3] + a2[2] * b2[2],
            a[3] * b[1],
            a2[3] * b2[1],
        );
        lemma_mul_congruent2(
            p,
            w,
            w,
            a[1] * b[3] + a[2] * b[2] + a[3] * b[1],
            a2[1] * b2[3] + a2[2] * b2[2] + a2[3] * b2[1],
        );
        lemma_add_congruent2(
            p,
            a[0] * b[0],
            a2[0] * b2[0],
            w * (a[1] * b[3] + a[2] * b[2] + a[3] * b[1]),
            w * (a2[1] * b2[3] + a2[2] * b2[2] + a2[3] * b2[1]),
        );
    }
    assert(u[1] % p == v[1] % p) by {
        lemma_add_congruent2(p, a[0] * b[1], a2[0] * b2[1], a[1] * b[0], a2[1] * b2[0]);
        lemma_add_congruent2(p, a[2] * b[3], a2[2] * b2[3], a[3] * b[2], a2[3] * b2[2]);
        lemma_mul_congruent2(
            p,
            w,
            w,
            a[2] * b[3] + a[3] * b[2],
            a2[2] * b2[3] + a2[3] * b2[2],
        );
        lemma_add_congruent2(
            p,
            a[0] * b[1] + a[1] * b[0],
            a2[0] * b2[1] + a2[1] * b2[0],
            w * (a[2] * b[3] + a[3] * b[2]),
            w * (a2[2] * b2[3] + a2[3] * b2[2]),
        );
    }
    assert(u[2] % p == v[2] % p) by {
        lemma_add_congruent2(p, a[0] * b[2], a2[0] * b2[2], a[1] * b[1], a2[1] * b2[1]);
        lemma_add_congruent2(
            p,
            a[0] * b[2] + a[1] * b[1],
            a2[0] * b2[2] + a2[1] * b2[1],
            a[2] * b[0],
            a2[2] * b2[0],
        );
        lemma_mul_congruent2(p, w, w, a[3] * b[3], a2[3] * b2[3]);
        lemma_add_congruent2(
            p,
            a[0] * b[2] + a[1] * b[1] + a[2] * b[0],
            a2[0] * b2[2] + a2[1] * b2[1] + a2[2] * b2[0],
            w * (a[3] * b[3]),
            w * (a2[3] * b2[3]),
        );
    }
    assert(u[3] % p == v[3] % p) by {
        lemma_add_congruent2(p, a[0] * b[3], a2[0] * b2[3], a[1] * b[2], a2[1] * b2[2]);
        lemma_add_congruent2(
            p,
            a[0] * b[3] + a[1] * b[2],
            a2[0] * b2[3] + a2[1] * b2[2],
            a[2] * b[1],
            a2[2] * b2[1],
        );
        lemma_add_congruent2(
            p,
            a[0] * b[3] + a[1] * b[2] + a[2] * b[1],
            a2[0] * b2[3] + a2[1] * b2[2] + a2[2] * b2[1],
            a[3] * b[0],
            a2[3] * b2[0],
        );
    }
}

/// Multiplication distributes over addition: `a * (b + c) == a*b + a*c`.
pub proof fn law_mul_distributive(p: int, w: int, a: Seq<int>, b: Seq<int>, c: Seq<int>)
    requires
        0 < p,
    ensures
        mul_spec(p, w, a, add_spec(p, b, c)) == add_spec(
            p,
            mul_spec(p, w, a, b),
            mul_spec(p, w, a, c),
        ),
{
    let bc = add_spec(p, b, c);
    let raw_bc = raw_add4(b, c);
    assert forall|i: int| 0 <= i < 4 implies #[trigger] (bc[i] % p) == raw_bc[i] % p by {
        lemma_mod_twice(raw_bc[i], p);
    }
    assert forall|i: int| 0 <= i < 4 implies #[trigger] (a[i] % p) == a[i] % p by {}
    lemma_raw_mul4_congruent(p, w, a, a, bc, raw_bc);

    let l = mul_spec(p, w, a, bc);
    let r = add_spec(p, mul_spec(p, w, a, b), mul_spec(p, w, a, c));
    let ab = raw_mul4(w, a, b);
    let ac = raw_mul4(w, a, c);
    let (a0, a1, a2, a3) = (a[0], a[1], a[2], a[3]);
    let (b0, b1, b2, b3) = (b[0], b[1], b[2], b[3]);
    let (c0, c1, c2, c3) = (c[0], c[1], c[2], c[3]);

    assert forall|k: int| 0 <= k < 4 implies l[k] == r[k] by {
        broadcast use vstd::arithmetic::mul::lemma_mul_is_distributive_add;

        lemma_mod_twice(ab[k], p);
        lemma_mod_twice(ac[k], p);
        lemma_add_congruent2(p, ab[k] % p, ab[k], ac[k] % p, ac[k]);
        assert(a0 * (b0 + c0) == a0 * b0 + a0 * c0);
        assert(w * ((a1 * b3 + a1 * c3) + (a2 * b2 + a2 * c2) + (a3 * b1 + a3 * c1)) == w * ((a1
            * b3 + a2 * b2 + a3 * b1) + (a1 * c3 + a2 * c2 + a3 * c1)));
    }
    assert(l =~= r);
}

/// Constant coefficient of the reassociated triple product, as a pure
/// ring identity.
#[verifier::rlimit(30)]
proof fn lemma_assoc_coeff0(
    w: int,
    a0: int,
    a1: int,
    a2: int,
    a3: int,
    b0: int,
    b1: int,
    b2: int,
    b3: int,
    c0: int,
    c1: int,
    c2: int,
    c3: int,
)
    ensures
        (a0 * b0 + w * (a1 * b3 + a2 * b2 + a3 * b1)) * c0 + w * ((a0 * b1 + a1 * b0 + w * (a2
            * b3 + a3 * b2)) * c3 + (a0 * b2 + a1 * b1 + a2 * b0 + w * (a3 * b3)) * c2 + (a0 * b3
            + a1 * b2 + a2 * b1 + a3 * b0) * c1) == a0 * (b0 * c0 + w * (b1 * c3 + b2 * c2 + b3
            * c1)) + w * (a1 * (b0 * c3 + b1 * c2 + b2 * c1 + b3 * c0) + a2 * (b0 * c2 + b1 * c1
            + b2 * c0 + w * (b3 * c3)) + a3 * (b0 * c1 + b1 * c0 + w * (b2 * c3 + b3 * c2))),
{
    broadcast use vstd::arithmetic::mul::lemma_mul_is_distributive_add;
    broadcast use vstd::arithmetic::mul::lemma_mul_is_distributive_add_other_way;
    broadcast use vstd::arithmetic::mul::lemma_mul_is_associative;

    assert(a0 * (w * (b1 * c3 + b2 * c2 + b3 * c1)) == w * (a0 * (b1 * c3 + b2 * c2 + b3 * c1)))
        by {
        vstd::arithmetic::mul::lemma_mul_is_commutative(a0, w);
    }
    assert(a2 * (w * (b3 * c3)) == w * (a2 * (b3 * c3))) by {
        vstd::arithmetic::mul::lemma_mul_is_commutative(a2, w);
    }
    assert(a3 * (w * (b2 * c3 + b3 * c2)) == w * (a3 * (b2 * c3 + b3 * c2))) by {
        vstd::arithmetic::mul::lemma_mul_is_commutative(a3, w);
    }
}

/// Degree-1 coefficient of the reassociated triple product.
#[verifier::rlimit(30)]
proof fn lemma_assoc_coeff1(
    w: int,
    a0: int,
    a1: int,
    a2: int,
    a3: int,
    b0: int,
    b1: int,
    b2: int,
    b3: int,
    c0: int,
    c1: int,
    c2: int,
    c3: int,
)
    ensures
        (a0 * b0 + w * (a1 * b3 + a2 * b2 + a3 * b1)) * c1 + (a0 * b1 + a1 * b0 + w * (a2 * b3
            + a3 * b2)) * c0 + w * ((a0 * b2 + a1 * b1 + a2 * b0 + w * (a3 * b3)) * c3 + (a0 * b3
            + a1 * b2 + a2 * b1 + a3 * b0) * c2) == a0 * (b0 * c1 + b1 * c0 + w * (b2 * c3 + b3
            * c2)) + a1 * (b0 * c0 + w * (b1 * c3 + b2 * c2 + b3 * c1)) + w * (a2 * (b0 * c3 + b1
            * c2 + b2 * c1 + b3 * c0) + a3 * (b0 * c2 + b1 * c1 + b2 * c0 + w * (b3 * c3))),
{
    broadcast use vstd::arithmetic::mul::lemma_mul_is_distributive_add;
    broadcast use vstd::arithmetic::mul::lemma_mul_is_distributive_add_other_way;
    broadcast use vstd::arithmetic::mul::lemma_mul_is_associative;

    assert(a0 * (w * (b2 * c3 + b3 * c2)) == w * (a0 * (b2 * c3 + b3 * c2))) by {
        vstd::arithmetic::mul::lemma_mul_is_commutative(a0, w);
    }
    assert(a1 * (w * (b1 * c3 + b2 * c2 + b3 * c1)) == w * (a1 * (b1 * c3 + b2 * c2 + b3 * c1)))
        by {
        vstd::arithmetic::mul::lemma_mul_is_commutative(a1, w);
    }
    assert(a3 * (w * (b3 * c3)) == w * (a3 * (b3 * c3))) by {
        vstd::arithmetic::mul::lemma_mul_is_commutative(a3, w);
    }
}

/// Degree-2 coefficient of the reassociated triple product.
#[verifier::rlimit(30)]
proof fn lemma_assoc_coeff2(
    w: int,
    a0: int,
    a1: int,
    a2: int,
    a3: int,
    b0: int,
    b1: int,
    b2: int,
    b3: int,
    c0: int,
    c1: int,
    c2: int,
    c3: int,
)
    ensures
        (a0 * b0 + w * (a1 * b3 + a2 * b2 + a3 * b1)) * c2 + (a0 * b1 + a1 * b0 + w * (a2 * b3
            + a3 * b2)) * c1 + (a0 * b2 + a1 * b1 + a2 * b0 + w * (a3 * b3)) * c0 + w * ((a0 * b3
            + a1 * b2 + a2 * b1 + a3 * b0) * c3) == a0 * (b0 * c2 + b1 * c1 + b2 * c0 + w * (b3
            * c3)) + a1 * (b0 * c1 + b1 * c0 + w * (b2 * c3 + b3 * c2)) + a2 * (b0 * c0 + w * (b1
            * c3 + b2 * c2 + b3 * c1)) + w * (a3 * (b0 * c3 + b1 * c2 + b2 * c1 + b3 * c0)),
{
    broadcast use vstd::arithmetic::mul::lemma_mul_is_distributive_add;
    broadcast use vstd::arithmetic::mul::lemma_mul_is_distributive_add_other_way;
    broadcast use vstd::arithmetic::mul::lemma_mul_is_associative;

    assert(a0 * (w * (b3 * c3)) == w * (a0 * (b3 * c3))) by {
        vstd::arithmetic::mul::lemma_mul_is_commutative(a0, w);
    }
    assert(a1 * (w * (b2 * c3 + b3 * c2)) == w * (a1 * (b2 * c3 + b3 * c2))) by {
        vstd::arithmetic::mul::lemma_mul_is_commutative(a1, w);
    }
    assert(a2 * (w * (b1 * c3 + b2 * c2 + b3 * c1)) == w * (a2 * (b1 * c3 + b2 * c2 + b3 * c1)))
        by {
        vstd::arithmetic::mul::lemma_mul_is_commutative(a2, w);
    }
}

/// Degree-3 coefficient of the reassociated triple product.
#[verifier::rlimit(30)]
proof fn lemma_assoc_coeff3(
    w: int,
    a0: int,
    a1: int,
    a2: int,
    a3: int,
    b0: int,
    b1: int,
    b2: int,
    b3: int,
    c0: int,
    c1: int,
    c2: int,
    c3: int,
)
    ensures
        (a0 * b0 + w * (a1 * b3 + a2 * b2 + a3 * b1)) * c3 + (a0 * b1 + a1 * b0 + w * (a2 * b3
            + a3 * b2)) * c2 + (a0 * b2 + a1 * b1 + a2 * b0 + w * (a3 * b3)) * c1 + (a0 * b3 + a1
            * b2 + a2 * b1 + a3 * b0) * c0 == a0 * (b0 * c3 + b1 * c2 + b2 * c1 + b3 * c0) + a1
            * (b0 * c2 + b1 * c1 + b2 * c0 + w * (b3 * c3)) + a2 * (b0 * c1 + b1 * c0 + w * (b2
            * c3 + b3 * c2)) + a3 * (b0 * c0 + w * (b1 * c3 + b2 * c2 + b3 * c1)),
{
    broadcast use vstd::arithmetic::mul::lemma_mul_is_distributive_add;
    broadcast use vstd::arithmetic::mul::lemma_mul_is_distributive_add_other_way;
    broadcast use vstd::arithmetic::mul::lemma_mul_is_associative;

    assert(a1 * (w * (b3 * c3)) == w * (a1 * (b3 * c3))) by {
        vstd::arithmetic::mul::lemma_mul_is_commutative(a1, w);
    }
    assert(a2 * (w * (b2 * c3 + b3 * c2)) == w * (a2 * (b2 * c3 + b3 * c2))) by {
        vstd::arithmetic::mul::lemma_mul_is_commutative(a2, w);
    }
    assert(a3 * (w * (b1 * c3 + b2 * c2 + b3 * c1)) == w * (a3 * (b1 * c3 + b2 * c2 + b3 * c1)))
        by {
        vstd::arithmetic::mul::lemma_mul_is_commutative(a3, w);
    }
}

/// Multiplication is associative: `(a * b) * c == a * (b * c)`.
pub proof fn law_mul_associative(p: int, w: int, a: Seq<int>, b: Seq<int>, c: Seq<int>)
    requires
        0 < p,
    ensures
        mul_spec(p, w, mul_spec(p, w, a, b), c) == mul_spec(p, w, a, mul_spec(p, w, b, c)),
{
    let ab = mul_spec(p, w, a, b);
    let rab = raw_mul4(w, a, b);
    let bc = mul_spec(p, w, b, c);
    let rbc = raw_mul4(w, b, c);
    assert forall|i: int| 0 <= i < 4 implies #[trigger] (ab[i] % p) == rab[i] % p by {
        lemma_mod_twice(rab[i], p);
    }
    assert forall|i: int| 0 <= i < 4 implies #[trigger] (bc[i] % p) == rbc[i] % p by {
        lemma_mod_twice(rbc[i], p);
    }
    assert forall|i: int| 0 <= i < 4 implies #[trigger] (a[i] % p) == a[i] % p by {}
    assert forall|i: int| 0 <= i < 4 implies #[trigger] (c[i] % p) == c[i] % p by {}
    lemma_raw_mul4_congruent(p, w, ab, rab, c, c);
    lemma_raw_mul4_congruent(p, w, a, a, bc, rbc);

    let l = mul_spec(p, w, ab, c);
    let r = mul_spec(p, w, a, bc);
    assert forall|k: int| 0 <= k < 4 implies l[k] == r[k] by {
        if k == 0 {
            lemma_assoc_coeff0(
                w,
                a[0],
                a[1],
                a[2],
                a[3],
                b[0],
                b[1],
                b[2],
                b[3],
                c[0],
                c[1],
                c[2],
                c[3],
            );
        } else if k == 1 {
            lemma_assoc_coeff1(
                w,
                a[0],
                a[1],
                a[2],
                a[3],
                b[0],
                b[1],
                b[2],
                b[3],
                c[0],
                c[1],
                c[2],
                c[3],
            );
        } else if k == 2 {
            lemma_assoc_coeff2(
                w,
                a[0],
                a[1],
                a[2],
                a[3],
                b[0],
                b[1],
                b[2],
                b[3],
                c[0],
                c[1],
                c[2],
                c[3],
            );
        } else {
            lemma_assoc_coeff3(
                w,
                a[0],
                a[1],
                a[2],
                a[3],
                b[0],
                b[1],
                b[2],
                b[3],
                c[0],
                c[1],
                c[2],
                c[3],
            );
        }
        assert(raw_mul4(w, rab, c)[k] == raw_mul4(w, a, rbc)[k]);
    }
    assert(l =~= r);
}




/// Replacing the coefficients by congruent ones leaves every coefficient
/// of the unreduced Frobenius image congruent.
pub proof fn lemma_raw_frob4_congruent(p: int, r: int, a: Seq<int>, a2: Seq<int>)
    requires
        0 < p,
        forall|i: int| 0 <= i < 4 ==> #[trigger] (a[i] % p) == a2[i] % p,
    ensures
        forall|k: int|
            0 <= k < 4 ==> #[trigger] (raw_frob4(r, a)[k] % p) == raw_frob4(r, a2)[k] % p,
{
    lemma_mul_congruent2(p, a[1], a2[1], r, r);
    lemma_mul_congruent2(p, a[2], a2[2], r * r, r * r);
    lemma_mul_congruent2(p, a[3], a2[3], r * (r * r), r * (r * r));
    assert(raw_frob4(r, a)[0] % p == raw_frob4(r, a2)[0] % p);
}

/// The Frobenius map is additive: `frobenius(a + b) == frobenius(a) + frobenius(b)`.
pub proof fn law_frobenius_additive(p: int, r: int, a: Seq<int>, b: Seq<int>)
    requires
        0 < p,
    ensures
        frobenius_spec(p, r, add_spec(p, a, b)) == add_spec(
            p,
            frobenius_spec(p, r, a),
            frobenius_spec(p, r, b),
        ),
{
    let ab = add_spec(p, a, b);
    let rab = raw_add4(a, b);
    assert forall|i: int| 0 <= i < 4 implies #[trigger] (ab[i] % p) == rab[i] % p by {
        lemma_mod_twice(rab[i], p);
    }
    lemma_raw_frob4_congruent(p, r, ab, rab);
    let l = frobenius_spec(p, r, ab);
    let rr = add_spec(p, frobenius_spec(p, r, a), frobenius_spec(p, r, b));
    let fa = raw_frob4(r, a);
    let fb = raw_frob4(r, b);
    assert forall|k: int| 0 <= k < 4 implies l[k] == rr[k] by {
        broadcast use vstd::arithmetic::mul::lemma_mul_is_distributive_add_other_way;

        lemma_mod_twice(fa[k], p);
        lemma_mod_twice(fb[k], p);
        lemma_add_congruent2(p, fa[k] % p, fa[k], fb[k] % p, fb[k]);
        assert(raw_frob4(r, rab)[k] == fa[k] + fb[k]);
    }
    assert(l =~= rr);
}

/// `pow(r, 4)` written as the product grouping the proofs use.
pub proof fn lemma_pow4_grouping(r: int)
    ensures
        vstd::arithmetic::power::pow(r, 4) == (r * r) * (r * r),
{
    vstd::arithmetic::power::lemma_pow_adds(r, 2, 2);
    vstd::arithmetic::power::lemma_pow_adds(r, 1, 1);
    vstd::arithmetic::power::lemma_pow1(r);
}

/// The Frobenius map respects multiplication:
/// `frobenius(a * b) == frobenius(a) * frobenius(b)`, because the
/// scaling root is a fourth root of unity.
pub proof fn law_frobenius_multiplicative(p: int, r: int, w: int, a: Seq<int>, b: Seq<int>)
    requires
        1 < p,
        vstd::arithmetic::power::pow(r, 4) % p == 1,
    ensures
        frobenius_spec(p, r, mul_spec(p, w, a, b)) == mul_spec(
            p,
            w,
            frobenius_spec(p, r, a),
            frobenius_spec(p, r, b),
        ),
{
    let big_r = (r * r) * (r * r);
    lemma_pow4_grouping(r);
    lemma_small_mod(1nat, p as nat);
    assert(big_r % p == 1int % p);

    let ab = mul_spec(p, w, a, b);
    let fab = raw_mul4(w, a, b);
    assert forall|i: int| 0 <= i < 4 implies #[trigger] (ab[i] % p) == fab[i] % p by {
        lemma_mod_twice(fab[i], p);
    }
    lemma_raw_frob4_congruent(p, r, ab, fab);

    let fa = frobenius_spec(p, r, a);
    let fb = frobenius_spec(p, r, b);
    let rfa = raw_frob4(r, a);
    let rfb = raw_frob4(r, b);
    assert forall|i: int| 0 <= i < 4 implies #[trigger] (fa[i] % p) == rfa[i] % p by {
        lemma_mod_twice(rfa[i], p);
    }
    assert forall|i: int| 0 <= i < 4 implies #[trigger] (fb[i] % p) == rfb[i] % p by {
        lemma_mod_twice(rfb[i], p);
    }
    lemma_raw_mul4_congruent(p, w, fa, rfa, fb, rfb);

    let l = frobenius_spec(p, r, ab);
    let rr = mul_spec(p, w, fa, fb);
    let (a0, a1, a2, a3) = (a[0], a[1], a[2], a[3]);
    let (b0, b1, b2, b3) = (b[0], b[1], b[2], b[3]);

    assert forall|k: int| 0 <= k < 4 implies l[k] == rr[k] by {
        if k == 0 {
            let s = a1 * b3 + a2 * b2 + a3 * b1;
            assert(raw_mul4(w, rfa, rfb)[0] == a0 * b0 + w * (s * big_r)) by {
                assert((a1 * r) * (b3 * (r * (r * r))) == (a1 * b3) * ((r * r) * (r
                    * r))) by (nonlinear_arith);
                assert((a2 * (r * r)) * (b2 * (r * r)) == (a2 * b2) * ((r * r) * (r
                    * r))) by (nonlinear_arith);
                assert((a3 * (r * (r * r))) * (b1 * r) == (a3 * b1) * ((r * r) * (r
                    * r))) by (nonlinear_arith);
                assert((a1 * b3) * big_r + (a2 * b2) * big_r + (a3 * b1) * big_r == s
                    * big_r) by (nonlinear_arith)
                    requires
                        s == a1 * b3 + a2 * b2 + a3 * b1,
                ;
            }
            lemma_mul_congruent2(p, s, s, big_r, 1);
            lemma_mul_congruent2(p, w, w, s * big_r, s * 1);
            lemma_add_congruent2(p, a0 * b0, a0 * b0, w * (s * big_r), w * (s * 1));
            assert(raw_frob4(r, fab)[0] == a0 * b0 + w * s);
            assert(s * 1 == s);
        } else if k == 1 {
            let s = a2 * b3 + a3 * b2;
            let u = a0 * b1 + a1 * b0;
            assert(raw_mul4(w, rfa, rfb)[1] == u * r + w * ((s * r) * big_r)) by {
                assert(a0 * (b1 * r) + (a1 * r) * b0 == u * r) by (nonlinear_arith)
                    requires
                        u == a0 * b1 + a1 * b0,
                ;
                assert((a2 * (r * r)) * (b3 * (r * (r * r))) == ((a2 * b3) * r) * ((r * r) * (r
                    * r))) by (nonlinear_arith);
                assert((a3 * (r * (r * r))) * (b2 * (r * r)) == ((a3 * b2) * r) * ((r * r) * (r
                    * r))) by (nonlinear_arith);
                assert(((a2 * b3) * r) * big_r + ((a3 * b2) * r) * big_r == (s * r)
                    * big_r) by (nonlinear_arith)
                    requires
                        s == a2 * b3 + a3 * b2,
                ;
            }
            lemma_mul_congruent2(p, s * r, s * r, big_r, 1);
            lemma_mul_congruent2(p, w, w, (s * r) * big_r, (s * r) * 1);
            lemma_add_congruent2(p, u * r, u * r, w * ((s * r) * big_r), w * ((s * r) * 1));
            assert(raw_frob4(r, fab)[1] == (u + w * s) * r);
            assert(u * r + w * ((s * r) * 1) == (u + w * s) * r) by (nonlinear_arith)
                requires
                    u == a0 * b1 + a1 * b0,
                    s == a2 * b3 + a3 * b2,
            ;
        } else if k == 2 {
            let v = a0 * b2 + a1 * b1 + a2 * b0;
            let s = a3 * b3;
            assert(raw_mul4(w, rfa, rfb)[2] == v * (r * r) + w * ((s * (r * r)) * big_r)) by {
                assert(a0 * (b2 * (r * r)) == (a0 * b2) * (r * r)) by (nonlinear_arith);
                assert((a1 * r) * (b1 * r) == (a1 * b1) * (r * r)) by (nonlinear_arith);
                assert((a2 * (r * r)) * b0 == (a2 * b0) * (r * r)) by (nonlinear_arith);
                assert((a0 * b2) * (r * r) + (a1 * b1) * (r * r) + (a2 * b0) * (r * r) == v * (r
                    * r)) by (nonlinear_arith)
                    requires
                        v == a0 * b2 + a1 * b1 + a2 * b0,
                ;
                assert((a3 * (r * (r * r))) * (b3 * (r * (r * r))) == ((a3 * b3) * (r * r)) * ((r
                    * r) * (r * r))) by (nonlinear_arith);
            }
            lemma_mul_congruent2(p, s * (r * r), s * (r * r), big_r, 1);
            lemma_mul_congruent2(p, w, w, (s * (r * r)) * big_r, (s * (r * r)) * 1);
            lemma_add_congruent2(
                p,
                v * (r * r),
                v * (r * r),
                w * ((s * (r * r)) * big_r),
                w * ((s * (r * r)) * 1),
            );
            assert(raw_frob4(r, fab)[2] == (v + w * s) * (r * r));
            assert(v * (r * r) + w * ((s * (r * r)) * 1) == (v + w * s) * (r
                * r)) by (nonlinear_arith)
                requires
                    v == a0 * b2 + a1 * b1 + a2 * b0,
                    s == a3 * b3,
            ;
        } else {
            let u = a0 * b3 + a1 * b2 + a2 * b1 + a3 * b0;
            assert(raw_mul4(w, rfa, rfb)[3] == u * (r * (r * r))) by {
                assert(a0 * (b3 * (r * (r * r))) == (a0 * b3) * (r * (r * r))) by (nonlinear_arith);
                assert((a1 * r) * (b2 * (r * r)) == (a1 * b2) * (r * (r * r))) by (nonlinear_arith);
                assert((a2 * (r * r)) * (b1 * r) == (a2 * b1) * (r * (r * r))) by (nonlinear_arith);
                assert((a3 * (r * (r * r))) * b0 == (a3 * b0) * (r * (r * r))) by (nonlinear_arith);
                assert((a0 * b3) * (r * (r * r)) + (a1 * b2) * (r * (r * r)) + (a2 * b1) * (r * (r
                    * r)) + (a3 * b0) * (r * (r * r)) == u * (r * (r * r))) by (nonlinear_arith)
                    requires
                        u == a0 * b3 + a1 * b2 + a2 * b1 + a3 * b0,
                ;
            }
            assert(raw_frob4(r, fab)[3] == u * (r * (r * r)));
        }
    }
    assert(l =~= rr);
}

/// Repeated Frobenius composes additively in the exponent:
/// applying it `j` then `k` more times equals applying it `j + k` times.
pub proof fn law_repeated_frobenius_compose(p: int, r: int, a: Seq<int>, j: nat, k: nat)
    ensures
        repeated_frobenius_spec(p, r, a, j + k) == repeated_frobenius_spec(
            p,
            r,
            repeated_frobenius_spec(p, r, a, j),
            k,
        ),
    decreases k,
{
    if k == 0 {
    } else {
        law_repeated_frobenius_compose(p, r, a, j, (k - 1) as nat);
        assert(repeated_frobenius_spec(p, r, a, j + k) == frobenius_spec(
            p,
            r,
            repeated_frobenius_spec(p, r, a, (j + k - 1) as nat),
        ));
    }
}

/// Inverses in the extension are unique: if `a*b == 1` and `a*c == 1`
/// then `b == c`.
pub proof fn law_inverse_unique(p: int, w: int, a: Seq<int>, b: Seq<int>, c: Seq<int>)
    requires
        0 < p,
        canonical4(p, b),
        canonical4(p, c),
        mul_spec(p, w, a, b) == one4(),
        mul_spec(p, w, a, c) == one4(),
    ensures
        b == c,
{
    law_mul_one(p, w, b);
    law_mul_commutative(p, w, b, mul_spec(p, w, a, c));
    assert(b == mul_spec(p, w, b, mul_spec(p, w, a, c)));
    law_mul_associative(p, w, b, a, c);
    law_mul_commutative(p, w, b, a);
    assert(mul_spec(p, w, mul_spec(p, w, b, a), c) == mul_spec(p, w, one4(), c));
    law_mul_commutative(p, w, one4(), c);
    law_mul_one(p, w, c);
}

/// The Frobenius map fixes the multiplicative identity.
pub proof fn lemma_frobenius_of_one(p: int, r: int)
    requires
        1 < p,
    ensures
        frobenius_spec(p, r, one4()) == one4(),
{
    lemma_small_mod(1nat, p as nat);
    lemma_small_mod(0nat, p as nat);
    vstd::arithmetic::mul::lemma_mul_basics(r);
    vstd::arithmetic::mul::lemma_mul_basics(r * r);
    vstd::arithmetic::mul::lemma_mul_basics(r * (r * r));
    assert(frobenius_spec(p, r, one4()) =~= one4());
}

/// The unit is coprime to every modulus above one.
proof fn lemma_gcd_of_one(p: nat)
    requires
        1 < p,
    ensures
        crate::modular::gcd(1, p) == 1,
{
    lemma_small_mod(1nat, p);
    assert(crate::modular::gcd(1, p) == crate::modular::gcd(p, 1));
    lemma_mod_bound(p as int, 1int);
    assert(p % 1 == 0);
    assert(crate::modular::gcd(p, 1) == crate::modular::gcd(1, 0));
}

/// Inversion round-trip at the identity: the one element inverts to
/// itself, through every step of the norm algorithm.
pub proof fn law_inverse_of_one(d: crate::params::OefParams)
    requires
        d.wf(),
    ensures
        crate::quartic::inverse_ok(d, one4()),
        crate::quartic::inverse_val(d, one4()) == one4(),
{
    let p = d.p as int;
    let r = d.dth_root as int;
    let w = d.w as int;
    lemma_frobenius_of_one(p, r);
    assert(canonical4(p, one4()));
    law_mul_one(p, w, one4());
    assert(crate::quartic::norm_step_b1(d, one4()) == one4());
    assert(crate::quartic::norm_step_b2(d, one4()) == one4());
    assert(repeated_frobenius_spec(p, r, one4(), 2) == one4()) by {
        assert(repeated_frobenius_spec(p, r, one4(), 1) == frobenius_spec(
            p,
            r,
            repeated_frobenius_spec(p, r, one4(), 0),
        ));
        assert(repeated_frobenius_spec(p, r, one4(), 2) == frobenius_spec(
            p,
            r,
            repeated_frobenius_spec(p, r, one4(), 1),
        ));
    }
    assert(crate::quartic::norm_step_b3(d, one4()) == one4());
    assert(crate::quartic::norm_minus_one(d, one4()) == one4());
    assert(crate::quartic::norm_spec(d, one4()) == one4());
    lemma_gcd_of_one(d.p as nat);
    lemma_small_mod(1nat, d.p as nat);
    assert((1int * 1int) % p == 1);
    let y = crate::modular::base_inverse(p, 1);
    assert(0 <= y < p && (1int * y) % p == 1);
    crate::modular::lemma_mod_inverse_unique(p, 1, y, 1);
    assert(crate::quartic::inverse_val(d, one4()) =~= one4()) by {
        vstd::arithmetic::mul::lemma_mul_basics(1int);
        lemma_small_mod(0nat, d.p as nat);
    }
    assert(one4() != zero4()) by {
        assert(one4()[0] == 1 && zero4()[0] == 0);
    }
}

/// Embedding round-trip: building an element from a coefficient tuple
/// and reading the tuple back are mutually inverse.
pub proof fn law_basefield_array_round_trip(e: crate::quartic::QuarticExtension, arr: [u64; 4])
    ensures
        (crate::quartic::QuarticExtension(arr)).0 == arr,
        crate::quartic::QuarticExtension(e.0) == e,
{
}

/// The Frobenius map fixes every base-field-embedded element: the base
/// field is its fixed field.
pub proof fn law_frobenius_fixes_basefield(p: int, r: int, a: Seq<int>)
    requires
        0 < p,
        canonical4(p, a),
        crate::quartic::in_basefield(a),
    ensures
        frobenius_spec(p, r, a) == a,
{
    lemma_small_mod(a[0] as nat, p as nat);
    lemma_small_mod(0nat, p as nat);
    vstd::arithmetic::mul::lemma_mul_basics(r);
    vstd::arithmetic::mul::lemma_mul_basics(r * r);
    vstd::arithmetic::mul::lemma_mul_basics(r * (r * r));
    assert(frobenius_spec(p, r, a) =~= a);
}

} // verus!
