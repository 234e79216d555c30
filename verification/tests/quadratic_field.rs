//! End-to-end scenario in a degree-2 extension of the toy prime field
//! F_101, built with the non-residue 2.

use oef::quadratic::{QuadraticExtension, QuadraticParams};

fn toy_params() -> QuadraticParams {
    // 2 is a non-square modulo 101; 100 = -1 is a square root of unity.
    QuadraticParams::new(101, 2, 100).expect("sound descriptor")
}

#[test]
fn quadratic_descriptor_checks_constants() {
    assert!(QuadraticParams::new(101, 2, 100).is_some());
    // 5^2 = 25 != 1 mod 101: not a root of unity.
    assert!(QuadraticParams::new(101, 2, 5).is_none());
    assert!(QuadraticParams::new(0, 2, 1).is_none());
}

#[test]
fn product_matches_hand_computation() {
    // (3 + 4x) * (5 + 6x) = 15 + 38x + 24x^2 = (15 + 48) + 38x mod (x^2 - 2)
    let d = toy_params();
    let a = QuadraticExtension([3, 4]);
    let b = QuadraticExtension([5, 6]);
    let prod = a.mul(b, &d);
    assert_eq!(prod, QuadraticExtension([63, 38]));
}

#[test]
fn dividing_the_product_recovers_each_factor() {
    let d = toy_params();
    let a = QuadraticExtension([3, 4]);
    let b = QuadraticExtension([5, 6]);
    let prod = a.mul(b, &d);
    let inv_a = a.try_inverse(&d).expect("non-zero factor inverts");
    let inv_b = b.try_inverse(&d).expect("non-zero factor inverts");
    assert_eq!(prod.mul(inv_a, &d), b);
    assert_eq!(prod.mul(inv_b, &d), a);
    assert_eq!(a.mul(inv_a, &d), QuadraticExtension::one());
    assert_eq!(inv_a, QuadraticExtension([35, 88]));
}

#[test]
fn quadratic_inverse_edge_cases() {
    let d = toy_params();
    assert_eq!(QuadraticExtension::zero().try_inverse(&d), None);
    assert_eq!(
        QuadraticExtension::one().try_inverse(&d),
        Some(QuadraticExtension::one())
    );
    let e = QuadraticExtension::from_basefield(7);
    let inv = e.try_inverse(&d).expect("base element inverts");
    assert_eq!(e.mul(inv, &d), QuadraticExtension::one());
}

#[test]
fn quadratic_addition_is_componentwise() {
    let d = toy_params();
    let a = QuadraticExtension([99, 4]);
    let b = QuadraticExtension([5, 98]);
    assert_eq!(a.add(b, &d), QuadraticExtension([3, 1]));
}
