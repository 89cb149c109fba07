use escrow_market::amount::Amount;

#[test]
fn amount_from_u64_fills_the_lowest_word() {
    assert_eq!(Amount::from_u64(100).words, [100, 0, 0, 0, 0, 0, 0, 0]);
    assert_eq!(Amount::zero().words, [0; 8]);
    assert_eq!(Amount::zero(), Amount::from_u64(0));
    assert_eq!(Amount::from_words([1, 2, 3, 4, 5, 6, 7, 8]).words, [1, 2, 3, 4, 5, 6, 7, 8]);
}

#[test]
fn sum_of_small_amounts() {
    let a = Amount::from_u64(100);
    let b = Amount::from_u64(50);
    assert_eq!(a.checked_add(&b), Some(Amount::from_u64(150)));
    assert_eq!(a.checked_add(&Amount::zero()), Some(a));
}

#[test]
fn sum_carries_into_the_next_word() {
    let a = Amount::from_u64(u64::MAX);
    let b = Amount::from_u64(1);
    assert_eq!(a.checked_add(&b), Some(Amount::from_words([0, 1, 0, 0, 0, 0, 0, 0])));
}

#[test]
fn sum_beyond_the_largest_amount_is_refused() {
    let max = Amount::from_words([u64::MAX; 8]);
    assert_eq!(max.checked_add(&Amount::from_u64(1)), None);
    assert_eq!(max.checked_add(&max), None);
    assert_eq!(max.checked_add(&Amount::zero()), Some(max));
}

#[test]
fn difference_of_amounts() {
    let a = Amount::from_u64(100);
    let b = Amount::from_u64(30);
    assert_eq!(a.checked_sub(&b), Some(Amount::from_u64(70)));
    assert_eq!(a.checked_sub(&a), Some(Amount::zero()));
    assert_eq!(b.checked_sub(&a), None);
}

#[test]
fn difference_borrows_from_the_next_word() {
    let a = Amount::from_words([0, 1, 0, 0, 0, 0, 0, 0]);
    assert_eq!(a.checked_sub(&Amount::from_u64(1)), Some(Amount::from_u64(u64::MAX)));
}

#[test]
fn amounts_are_ordered_by_their_high_words_first() {
    let low = Amount::from_words([u64::MAX, 0, 0, 0, 0, 0, 0, 0]);
    let high = Amount::from_words([0, 1, 0, 0, 0, 0, 0, 0]);
    assert!(low.less_than(&high));
    assert!(!high.less_than(&low));
    assert!(!low.less_than(&low));
    assert!(Amount::from_u64(40).less_than(&Amount::from_u64(100)));
    assert!(!Amount::from_u64(150).less_than(&Amount::from_u64(100)));
}
