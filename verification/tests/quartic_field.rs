//! Arithmetic in a small degree-4 extension of F_13 with x^4 - 2 and
//! Frobenius root 8 (a fourth root of unity modulo 13).

use oef::params::OefParams;
use oef::quartic::QuarticExtension;

fn toy_params() -> OefParams {
    OefParams::new(13, 2, 8, 2, 2, [2, 0, 0, 0], [8, 0, 0, 0]).expect("sound descriptor")
}

fn elem(c: [u64; 4]) -> QuarticExtension {
    QuarticExtension::from_basefield_array(c)
}

#[test]
fn descriptor_accepts_sound_constants() {
    let d = toy_params();
    assert_eq!(d.p, 13);
    assert_eq!(d.w, 2);
    assert_eq!(d.dth_root, 8);
}

#[test]
fn descriptor_rejects_bad_root() {
    // 5^4 = 625 = 1 mod 13? 625 % 13 == 1, so pick a genuine non-root: 2.
    // 2^4 = 16 = 3 mod 13, not 1.
    assert!(OefParams::new(13, 2, 2, 2, 2, [0; 4], [0; 4]).is_none());
    // w out of range
    assert!(OefParams::new(13, 13, 8, 2, 2, [0; 4], [0; 4]).is_none());
    // p too small
    assert!(OefParams::new(1, 0, 0, 0, 0, [0; 4], [0; 4]).is_none());
}

#[test]
fn add_and_sub_are_componentwise() {
    let d = toy_params();
    let a = elem([1, 2, 3, 4]);
    let b = elem([5, 6, 7, 8]);
    assert_eq!(a.add(b, &d).to_basefield_array(), [6, 8, 10, 12]);
    assert_eq!(a.add(b, &d).sub(b, &d), a);
}

#[test]
fn mul_matches_hand_computation() {
    let d = toy_params();
    let a = elem([1, 2, 3, 4]);
    let b = elem([5, 6, 7, 8]);
    assert_eq!(a.mul(b, &d).to_basefield_array(), [10, 3, 7, 8]);
}

#[test]
fn field_axioms_on_concrete_values() {
    let d = toy_params();
    let a = elem([1, 2, 3, 4]);
    let b = elem([5, 6, 7, 8]);
    let c = elem([9, 10, 11, 12]);
    let zero = QuarticExtension::zero();
    let one = QuarticExtension::one();
    assert_eq!(a.add(b.add(c, &d), &d), a.add(b, &d).add(c, &d));
    assert_eq!(a.mul(b.mul(c, &d), &d), a.mul(b, &d).mul(c, &d));
    assert_eq!(
        a.mul(b.add(c, &d), &d),
        a.mul(b, &d).add(a.mul(c, &d), &d)
    );
    assert_eq!(a.add(zero, &d), a);
    assert_eq!(a.mul(one, &d), a);
    assert_eq!(a.add(a.neg(&d), &d), zero);
}

#[test]
fn square_equals_self_multiplication() {
    let d = toy_params();
    for a in [
        elem([0, 0, 0, 0]),
        elem([1, 0, 0, 0]),
        elem([1, 2, 3, 4]),
        elem([12, 12, 12, 12]),
    ] {
        assert_eq!(a.square(&d), a.mul(a, &d));
    }
}

#[test]
fn inverse_round_trip() {
    let d = toy_params();
    let one = QuarticExtension::one();
    let a = elem([1, 2, 3, 4]);
    let inv = a.try_inverse(&d).expect("non-zero element inverts");
    assert_eq!(inv.to_basefield_array(), [9, 1, 8, 10]);
    assert_eq!(a.mul(inv, &d), one);
    assert_eq!(one.try_inverse(&d), Some(one));
    assert_eq!(QuarticExtension::zero().try_inverse(&d), None);
}

#[test]
fn division_undoes_multiplication() {
    let d = toy_params();
    let a = elem([1, 2, 3, 4]);
    let b = elem([5, 6, 7, 8]);
    let prod = a.mul(b, &d);
    assert_eq!(prod.div(b, &d), a);
    let mut q = prod;
    q.div_assign(a, &d);
    assert_eq!(q, b);
}

#[test]
fn frobenius_is_a_homomorphism() {
    let d = toy_params();
    let a = elem([1, 2, 3, 4]);
    let b = elem([5, 6, 7, 8]);
    assert_eq!(a.frobenius(&d).to_basefield_array(), [1, 3, 10, 7]);
    assert_eq!(
        a.add(b, &d).frobenius(&d),
        a.frobenius(&d).add(b.frobenius(&d), &d)
    );
    assert_eq!(
        a.mul(b, &d).frobenius(&d),
        a.frobenius(&d).mul(b.frobenius(&d), &d)
    );
}

#[test]
fn repeated_frobenius_composes() {
    let d = toy_params();
    let a = elem([1, 2, 3, 4]);
    assert_eq!(
        a.repeated_frobenius(3, &d),
        a.repeated_frobenius(1, &d).repeated_frobenius(2, &d)
    );
    // four applications return to the start: the group action has order 4
    assert_eq!(a.repeated_frobenius(4, &d), a);
}

#[test]
fn frobenius_fixes_the_base_field() {
    let d = toy_params();
    let e = QuarticExtension::from_basefield(7);
    assert_eq!(e.frobenius(&d), e);
}

#[test]
fn norm_lands_in_the_base_field() {
    let d = toy_params();
    for a in [elem([1, 2, 3, 4]), elem([5, 6, 7, 8]), elem([0, 0, 1, 0])] {
        let b1 = a.frobenius(&d);
        let b2 = b1.mul(a, &d);
        let b3 = b2.repeated_frobenius(2, &d);
        let rm1 = b3.mul(b1, &d);
        let norm = rm1.mul(a, &d);
        assert!(norm.is_in_basefield());
    }
    let a = elem([1, 2, 3, 4]);
    let b1 = a.frobenius(&d);
    let norm = b1
        .mul(a, &d)
        .repeated_frobenius(2, &d)
        .mul(b1, &d)
        .mul(a, &d);
    assert_eq!(norm.to_basefield_array(), [7, 0, 0, 0]);
}

#[test]
fn embedding_and_array_round_trip() {
    let d = toy_params();
    let e = QuarticExtension::from_basefield(9);
    assert_eq!(e.to_basefield_array(), [9, 0, 0, 0]);
    assert!(e.is_in_basefield());
    assert!(!elem([0, 1, 0, 0]).is_in_basefield());
    let arr = [3, 1, 4, 1];
    assert_eq!(
        QuarticExtension::from_basefield_array(arr).to_basefield_array(),
        arr
    );
    assert_eq!(QuarticExtension::from(6), QuarticExtension::from_basefield(6));
    assert_eq!(QuarticExtension::from_canonical_u64(12, &d), elem([12, 0, 0, 0]));
}

#[test]
fn noncanonical_conversions_reduce() {
    let d = toy_params();
    assert_eq!(
        QuarticExtension::from_noncanonical_u64(28, &d),
        elem([2, 0, 0, 0])
    );
    assert_eq!(
        QuarticExtension::from_noncanonical_u128(1u128 << 100, &d),
        elem([3, 0, 0, 0])
    );
    assert_eq!(
        QuarticExtension::from_noncanonical_i64(-1, &d),
        elem([12, 0, 0, 0])
    );
    assert_eq!(
        QuarticExtension::from_noncanonical_i64(-26, &d),
        elem([0, 0, 0, 0])
    );
    let limbs = vec![7u64, 9u64];
    assert_eq!(
        QuarticExtension::from_noncanonical_biguint(&limbs, &d),
        elem([8, 0, 0, 0])
    );
    let empty: Vec<u64> = vec![];
    assert_eq!(
        QuarticExtension::from_noncanonical_biguint(&empty, &d),
        QuarticExtension::zero()
    );
}

#[test]
fn batch_inversion_with_zeros() {
    let d = toy_params();
    let xs = vec![
        elem([2, 0, 0, 0]),
        QuarticExtension::zero(),
        elem([3, 0, 0, 0]),
        elem([5, 0, 0, 0]),
    ];
    let ys = QuarticExtension::batch_inverse(&xs, &d).expect("batch inverts");
    assert_eq!(ys.len(), 4);
    assert_eq!(ys[0], xs[0].try_inverse(&d).unwrap());
    assert_eq!(ys[1], QuarticExtension::zero());
    assert_eq!(ys[2], xs[2].try_inverse(&d).unwrap());
    assert_eq!(ys[3], xs[3].try_inverse(&d).unwrap());
    assert_eq!(ys[0].to_basefield_array(), [7, 0, 0, 0]);
    assert_eq!(ys[2].to_basefield_array(), [9, 0, 0, 0]);
    assert_eq!(ys[3].to_basefield_array(), [8, 0, 0, 0]);
}

#[test]
fn batch_inversion_edge_sizes() {
    let d = toy_params();
    let empty: Vec<QuarticExtension> = vec![];
    let ys = QuarticExtension::batch_inverse(&empty, &d).expect("empty batch");
    assert!(ys.is_empty());
    let single = vec![elem([1, 2, 3, 4])];
    let ys = QuarticExtension::batch_inverse(&single, &d).expect("single batch");
    assert_eq!(ys[0], single[0].try_inverse(&d).unwrap());
    let all_zero = vec![QuarticExtension::zero(); 3];
    let ys = QuarticExtension::batch_inverse(&all_zero, &d).expect("all-zero batch");
    assert!(ys.iter().all(|y| *y == QuarticExtension::zero()));
}

#[test]
fn sums_and_products_fold() {
    let d = toy_params();
    let xs = vec![elem([1, 0, 0, 0]), elem([2, 3, 0, 0]), elem([0, 0, 4, 5])];
    let s = QuarticExtension::sum(&xs, &d);
    assert_eq!(s.to_basefield_array(), [3, 3, 4, 5]);
    let xs2 = vec![elem([2, 0, 0, 0]), elem([3, 0, 0, 0])];
    assert_eq!(
        QuarticExtension::product(&xs2, &d).to_basefield_array(),
        [6, 0, 0, 0]
    );
    let none: Vec<QuarticExtension> = vec![];
    assert_eq!(QuarticExtension::sum(&none, &d), QuarticExtension::zero());
    assert_eq!(QuarticExtension::product(&none, &d), QuarticExtension::one());
}

#[test]
fn order_and_characteristic() {
    let d = toy_params();
    assert_eq!(QuarticExtension::characteristic(&d), 13);
    assert_eq!(QuarticExtension::order(&d), [28561, 0, 0, 0]);
}

#[test]
fn two_adicity_adds_exactly_two() {
    let d = toy_params();
    // 13 - 1 = 4 * 3, so the base field's two-adicity is 2.
    assert_eq!(QuarticExtension::two_adicity(&d), 4);
    assert_eq!(QuarticExtension::characteristic_two_adicity(&d), 2);
    // an element of order exactly 2^2 in the base field: 8 (8^2 = 12 = -1).
    let g = QuarticExtension::power_of_two_generator(&d);
    assert_eq!(g, elem([8, 0, 0, 0]));
    let g2 = g.square(&d);
    let g4 = g2.square(&d);
    assert_ne!(g2, QuarticExtension::one());
    assert_eq!(g4, QuarticExtension::one());
}

#[test]
fn constants_and_default() {
    let d = toy_params();
    assert_eq!(QuarticExtension::default(), QuarticExtension::zero());
    assert_eq!(QuarticExtension::two(&d).to_basefield_array(), [2, 0, 0, 0]);
    assert_eq!(
        QuarticExtension::neg_one(&d).to_basefield_array(),
        [12, 0, 0, 0]
    );
    assert_eq!(
        QuarticExtension::multiplicative_group_generator(&d),
        elem([2, 0, 0, 0])
    );
    assert!(QuarticExtension::zero().is_zero());
    assert!(!QuarticExtension::one().is_zero());
}

#[test]
fn assign_operators_match_plain_ones() {
    let d = toy_params();
    let a = elem([1, 2, 3, 4]);
    let b = elem([5, 6, 7, 8]);
    let mut x = a;
    x.add_assign(b, &d);
    assert_eq!(x, a.add(b, &d));
    let mut x = a;
    x.sub_assign(b, &d);
    assert_eq!(x, a.sub(b, &d));
    let mut x = a;
    x.mul_assign(b, &d);
    assert_eq!(x, a.mul(b, &d));
}

#[test]
fn sampling_yields_canonical_elements() {
    let d = toy_params();
    let mut rng = rand::thread_rng();
    for _ in 0..32 {
        let e = QuarticExtension::sample(&mut rng, &d);
        let c = e.to_basefield_array();
        assert!(c.iter().all(|&x| x < 13));
    }
}
