use chemodots::filter::{
    counted_filter_range, i32_filter_to_range, passes_counted_filter, CountedDescFilter, Realrange,
};
use std::ops::Bound;

#[test]
fn filter_limits_are_included() {
    assert_eq!(i32_filter_to_range((2, 9)), (Bound::Included(2), Bound::Included(9)));
    assert_eq!(i32_filter_to_range((9, 2)), (Bound::Included(9), Bound::Included(2)));
    assert_eq!(
        i32_filter_to_range((i32::MIN, i32::MAX)),
        (Bound::Included(i32::MIN), Bound::Included(i32::MAX))
    );
}

#[test]
fn no_filter_asks_for_every_value() {
    assert_eq!(counted_filter_range(None), (Bound::Included(i32::MIN), Bound::Included(i32::MAX)));
    assert_eq!(counted_filter_range(Some((0, 5))), (Bound::Included(0), Bound::Included(5)));
}

#[test]
fn values_pass_within_the_limits() {
    assert!(passes_counted_filter(Some((0, 5)), 0));
    assert!(passes_counted_filter(Some((0, 5)), 5));
    assert!(!passes_counted_filter(Some((0, 5)), 6));
    assert!(!passes_counted_filter(Some((0, 5)), -1));
    assert!(!passes_counted_filter(Some((5, 0)), 3));
    assert!(passes_counted_filter(None, i32::MIN));
}

#[test]
fn range_marker() {
    assert_eq!(Realrange::default(), Realrange);
}

#[test]
fn filters_are_joined_by_and() {
    let both = CountedDescFilter { hba: Some((1, 3)), hbd: Some((0, 0)) };
    assert!(both.passes(2, 0));
    assert!(!both.passes(4, 0));
    assert!(!both.passes(2, 1));
    assert!(!both.passes(0, 5));
}

#[test]
fn filters_that_are_not_set_let_everything_pass() {
    let none = CountedDescFilter { hba: None, hbd: None };
    assert!(none.passes(i32::MIN, i32::MAX));
    let one = CountedDescFilter { hba: None, hbd: Some((1, 2)) };
    assert!(one.passes(100, 1));
    assert!(!one.passes(100, 3));
}
