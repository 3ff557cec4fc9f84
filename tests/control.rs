use workshop::control::{last_non_zero, product_range};

#[test]
fn return_2_when_from_2_to_2() {
    assert_eq!(2u32, product_range(2, 2));
}

#[test]
fn return_120_when_from_4_to_6() {
    assert_eq!(120u32, product_range(4, 6));
}

#[test]
fn return_720_when_from_2_to_6() {
    assert_eq!(720u32, product_range(2, 6));
}

#[test]
fn return_0_when_empty() {
    assert_eq!(0u32, last_non_zero(vec![]));
}

#[test]
fn return_6_when_5_6_0_1_3() {
    assert_eq!(6u32, last_non_zero(vec![5, 6, 0, 1, 3]));
}

#[test]
fn product_of_an_empty_range_is_one() {
    assert_eq!(1u32, product_range(7, 3));
}

#[test]
fn product_from_zero_is_zero() {
    assert_eq!(0u32, product_range(0, 5));
}

#[test]
fn product_up_to_the_largest_factorial_that_fits() {
    assert_eq!(479_001_600u32, product_range(1, 12));
}

#[test]
fn last_non_zero_without_zero_is_the_last_number() {
    assert_eq!(3u32, last_non_zero(vec![1, 2, 3]));
}

#[test]
fn last_non_zero_with_a_leading_zero_is_zero() {
    assert_eq!(0u32, last_non_zero(vec![0, 4, 5]));
}
