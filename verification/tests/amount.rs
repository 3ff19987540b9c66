use control_plane::amount::Amount;

fn top() -> Amount {
    Amount { l0: u64::MAX, l1: u64::MAX, l2: u64::MAX, l3: u64::MAX }
}

#[test]
fn zero_and_one() {
    assert!(Amount::zero().is_zero());
    assert!(!Amount::one().is_zero());
    assert_eq!(Amount::one(), Amount::from_u64(1));
    assert_eq!(Amount::from_u64(7), Amount { l0: 7, l1: 0, l2: 0, l3: 0 });
}

#[test]
fn order_goes_by_the_highest_limb_that_differs() {
    let small = Amount { l0: u64::MAX, l1: u64::MAX, l2: 0, l3: 0 };
    let large = Amount { l0: 0, l1: 0, l2: 1, l3: 0 };
    assert!(small.less_than(&large));
    assert!(!large.less_than(&small));
    assert!(!small.less_than(&small));
    assert!(small.at_least(&small));
    assert!(large.at_least(&small));
    assert!(!small.at_least(&large));
}

#[test]
fn addition_carries_across_limbs() {
    let a = Amount { l0: u64::MAX, l1: u64::MAX, l2: 0, l3: 0 };
    let sum = a.checked_add(&Amount::one());
    assert_eq!(sum, Some(Amount { l0: 0, l1: 0, l2: 1, l3: 0 }));
    assert_eq!(
        Amount::from_u64(500).checked_add(&Amount::from_u64(500)),
        Some(Amount::from_u64(1000))
    );
}

#[test]
fn addition_reports_overflow() {
    assert_eq!(top().checked_add(&Amount::one()), None);
    assert_eq!(top().checked_add(&Amount::zero()), Some(top()));
}

#[test]
fn subtraction_borrows_across_limbs() {
    let a = Amount { l0: 0, l1: 0, l2: 1, l3: 0 };
    assert_eq!(
        a.saturating_sub(&Amount::one()),
        Amount { l0: u64::MAX, l1: u64::MAX, l2: 0, l3: 0 }
    );
    assert_eq!(
        Amount::from_u64(1000).saturating_sub(&Amount::from_u64(500)),
        Amount::from_u64(500)
    );
}

#[test]
fn subtraction_stops_at_zero() {
    assert_eq!(Amount::from_u64(3).saturating_sub(&Amount::from_u64(4)), Amount::zero());
    assert_eq!(Amount::zero().saturating_sub(&top()), Amount::zero());
    assert_eq!(top().saturating_sub(&top()), Amount::zero());
}

#[test]
fn division_rounds_down() {
    assert_eq!(Amount::from_u64(1000).div(&Amount::from_u64(10)), Amount::from_u64(100));
    assert_eq!(Amount::from_u64(1009).div(&Amount::from_u64(10)), Amount::from_u64(100));
    assert_eq!(Amount::from_u64(9).div(&Amount::from_u64(10)), Amount::zero());
    assert_eq!(Amount::from_u64(7).div(&Amount::one()), Amount::from_u64(7));
}

#[test]
fn division_of_wide_amounts() {
    // 2^128 / 2^64 = 2^64
    let a = Amount { l0: 0, l1: 0, l2: 1, l3: 0 };
    let b = Amount { l0: 0, l1: 1, l2: 0, l3: 0 };
    assert_eq!(a.div(&b), Amount { l0: 0, l1: 1, l2: 0, l3: 0 });
    // (2^256 - 1) / 2^192 = 2^64 - 1
    let c = Amount { l0: 0, l1: 0, l2: 0, l3: 1 };
    assert_eq!(top().div(&c), Amount::from_u64(u64::MAX));
    // a smaller amount by a larger one
    assert_eq!(b.div(&a), Amount::zero());
}

#[test]
fn low_u64_takes_the_lowest_limb() {
    assert_eq!(Amount { l0: 42, l1: 7, l2: 0, l3: 9 }.low_u64(), 42);
    assert_eq!(Amount::from_u64(u64::MAX).low_u64(), u64::MAX);
}

#[test]
fn saturating_u64_caps_wide_amounts() {
    assert_eq!(Amount::from_u64(42).saturating_u64(), 42);
    assert_eq!(Amount::from_u64(u64::MAX).saturating_u64(), u64::MAX);
    assert_eq!(Amount { l0: 0, l1: 1, l2: 0, l3: 0 }.saturating_u64(), u64::MAX);
    assert_eq!(Amount { l0: 5, l1: 0, l2: 0, l3: 1 }.saturating_u64(), u64::MAX);
}
