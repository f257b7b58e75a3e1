use casper_core::amount::U512;

#[test]
fn checked_add_carries_across_words() {
    let a = U512::from_words([u64::MAX, 0, 0, 0, 0, 0, 0, 0]);
    let sum = a.checked_add(&U512::from_u64(1)).unwrap();
    assert_eq!(sum.words(), [0, 1, 0, 0, 0, 0, 0, 0]);
}

#[test]
fn checked_add_past_the_range_is_none() {
    assert_eq!(U512::max_value().checked_add(&U512::from_u64(1)), None);
    assert_eq!(U512::max_value().checked_add(&U512::zero()), Some(U512::max_value()));
}

#[test]
fn checked_sub_borrows_and_refuses_negative() {
    let a = U512::from_words([0, 1, 0, 0, 0, 0, 0, 0]);
    assert_eq!(a.checked_sub(&U512::from_u64(1)), Some(U512::from_u64(u64::MAX)));
    assert_eq!(U512::from_u64(3).checked_sub(&U512::from_u64(4)), None);
    assert_eq!(U512::from_u64(7).checked_sub(&U512::from_u64(3)), Some(U512::from_u64(4)));
}

#[test]
fn less_than_follows_the_most_significant_word() {
    let high = U512::from_words([0, 0, 0, 0, 0, 0, 0, 1]);
    let low = U512::from_words([u64::MAX, u64::MAX, 0, 0, 0, 0, 0, 0]);
    assert!(low.lt(&high));
    assert!(!high.lt(&low));
    assert!(!high.lt(&high));
}

#[test]
fn max_value_has_every_bit_set() {
    assert_eq!(U512::max_value().words(), [u64::MAX; 8]);
    assert_eq!(U512::zero().words(), [0; 8]);
}
