//! The base-field scalar helpers underneath the extension arithmetic.

use oef::modular::{add_mod, inv_mod, mul_mod, neg_mod, sub_mod};

#[test]
fn scalar_arithmetic_reduces() {
    assert_eq!(add_mod(7, 9, 13), 3);
    assert_eq!(sub_mod(3, 9, 13), 7);
    assert_eq!(neg_mod(5, 13), 8);
    assert_eq!(mul_mod(7, 9, 13), 11);
    assert_eq!(mul_mod(u64::MAX - 1, u64::MAX - 1, u64::MAX), 1);
}

#[test]
fn modular_inverse_succeeds_exactly_on_coprime_inputs() {
    assert_eq!(inv_mod(0, 13), None);
    assert_eq!(inv_mod(1, 13), Some(1));
    let y = inv_mod(5, 13).expect("5 and 13 are coprime");
    assert_eq!((5 * y) % 13, 1);
    // a shared factor forbids an inverse
    assert_eq!(inv_mod(4, 8), None);
    assert_eq!(inv_mod(6, 9), None);
    let y = inv_mod(7, 9).expect("7 and 9 are coprime");
    assert_eq!((7 * y) % 9, 1);
}
