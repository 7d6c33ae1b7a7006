//! Unit tests for the 256-bit amounts and signed deltas.

use masp_vp::amount::{Amount, MaspDigitPos, SignedAmount};

fn a(l0: u64, l1: u64, l2: u64, l3: u64) -> Amount {
    Amount { l0, l1, l2, l3 }
}

#[test]
fn add_without_carries() {
    let x = a(1, 2, 3, 4);
    let y = a(10, 20, 30, 40);
    assert_eq!(x.checked_add(&y), Some(a(11, 22, 33, 44)));
}

#[test]
fn add_carries_ripple_through_limbs() {
    let x = a(u64::MAX, u64::MAX, u64::MAX, 0);
    let y = a(1, 0, 0, 0);
    assert_eq!(x.checked_add(&y), Some(a(0, 0, 0, 1)));
}

#[test]
fn add_overflow_fails() {
    let x = a(u64::MAX, u64::MAX, u64::MAX, u64::MAX);
    let y = a(1, 0, 0, 0);
    assert_eq!(x.checked_add(&y), None);
}

#[test]
fn sub_without_borrows() {
    let x = a(11, 22, 33, 44);
    let y = a(1, 2, 3, 4);
    assert_eq!(x.checked_sub(&y), Some(a(10, 20, 30, 40)));
}

#[test]
fn sub_borrows_ripple_through_limbs() {
    let x = a(0, 0, 0, 1);
    let y = a(1, 0, 0, 0);
    assert_eq!(x.checked_sub(&y), Some(a(u64::MAX, u64::MAX, u64::MAX, 0)));
}

#[test]
fn sub_underflow_fails() {
    let x = a(0, 0, 0, 0);
    let y = a(1, 0, 0, 0);
    assert_eq!(x.checked_sub(&y), None);
}

#[test]
fn from_masp_denominated_places_the_limb() {
    assert_eq!(Amount::from_masp_denominated(7, MaspDigitPos::Zero), a(7, 0, 0, 0));
    assert_eq!(Amount::from_masp_denominated(7, MaspDigitPos::One), a(0, 7, 0, 0));
    assert_eq!(Amount::from_masp_denominated(7, MaspDigitPos::Two), a(0, 0, 7, 0));
    assert_eq!(Amount::from_masp_denominated(7, MaspDigitPos::Three), a(0, 0, 0, 7));
}

#[test]
fn signed_same_sign_adds_magnitudes() {
    let p5 = SignedAmount::Positive(a(5, 0, 0, 0));
    let p7 = SignedAmount::Positive(a(7, 0, 0, 0));
    assert_eq!(p5.checked_add(&p7), Some(SignedAmount::Positive(a(12, 0, 0, 0))));
    let n5 = SignedAmount::Negative(a(5, 0, 0, 0));
    let n7 = SignedAmount::Negative(a(7, 0, 0, 0));
    assert_eq!(n5.checked_add(&n7), Some(SignedAmount::Negative(a(12, 0, 0, 0))));
}

#[test]
fn signed_cross_sign_subtracts_and_retags() {
    let p5 = SignedAmount::Positive(a(5, 0, 0, 0));
    let n7 = SignedAmount::Negative(a(7, 0, 0, 0));
    assert_eq!(p5.checked_add(&n7), Some(SignedAmount::Negative(a(2, 0, 0, 0))));
    let n5 = SignedAmount::Negative(a(5, 0, 0, 0));
    let p7 = SignedAmount::Positive(a(7, 0, 0, 0));
    assert_eq!(n5.checked_add(&p7), Some(SignedAmount::Positive(a(2, 0, 0, 0))));
}

#[test]
fn signed_cross_sign_zero_is_positive() {
    let p5 = SignedAmount::Positive(a(5, 0, 0, 0));
    let n5 = SignedAmount::Negative(a(5, 0, 0, 0));
    assert_eq!(p5.checked_add(&n5), Some(SignedAmount::Positive(a(0, 0, 0, 0))));
    assert_eq!(n5.checked_add(&p5), Some(SignedAmount::Positive(a(0, 0, 0, 0))));
}

#[test]
fn signed_same_sign_overflow_fails() {
    let top = SignedAmount::Positive(a(u64::MAX, u64::MAX, u64::MAX, u64::MAX));
    let one = SignedAmount::Positive(a(1, 0, 0, 0));
    assert_eq!(top.checked_add(&one), None);
    let ntop = SignedAmount::Negative(a(u64::MAX, u64::MAX, u64::MAX, u64::MAX));
    let none = SignedAmount::Negative(a(1, 0, 0, 0));
    assert_eq!(ntop.checked_add(&none), None);
}
