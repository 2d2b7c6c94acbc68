use payments_engine::decimal::{Amount, MAX_MANTISSA, MAX_SCALE};

fn dec(mantissa: i128, scale: u32) -> Amount {
    Amount::from_parts(mantissa, scale).unwrap()
}

#[test]
fn from_parts_takes_what_an_amount_can_hold() {
    assert_eq!(MAX_MANTISSA, 79_228_162_514_264_337_593_543_950_335);
    assert_eq!(MAX_SCALE, 28);

    assert!(Amount::from_parts(MAX_MANTISSA, 0).is_some());
    assert!(Amount::from_parts(-MAX_MANTISSA, 28).is_some());
    assert!(Amount::from_parts(MAX_MANTISSA + 1, 0).is_none());
    assert!(Amount::from_parts(-MAX_MANTISSA - 1, 0).is_none());
    assert!(Amount::from_parts(1, 29).is_none());
    assert!(Amount::from_parts(i128::MAX, 0).is_none());
    assert!(Amount::from_parts(i128::MIN, 0).is_none());
    assert!(Amount::from_parts(0, u32::MAX).is_none());
}

#[test]
fn from_parts_keeps_mantissa_and_scale() {
    let amount = dec(-12345, 3);

    assert_eq!(amount.mantissa(), -12345);
    assert_eq!(amount.scale(), 3);
    assert!(amount.is_negative());
    assert!(!amount.is_zero());
}

#[test]
fn zero_has_no_scale() {
    assert_eq!(Amount::zero(), dec(0, 0));
    assert!(Amount::zero().is_zero());
    assert!(dec(0, 7).is_zero());
    assert!(!Amount::zero().is_negative());
    assert!(!dec(0, 7).is_negative());
}

#[test]
fn negated_turns_the_sign_and_keeps_the_scale() {
    assert_eq!(dec(105, 1).negated(), dec(-105, 1));
    assert_eq!(dec(-105, 1).negated(), dec(105, 1));
    assert_eq!(dec(0, 3).negated(), dec(0, 3));
    assert_eq!(dec(MAX_MANTISSA, 28).negated(), dec(-MAX_MANTISSA, 28));
}

#[test]
fn checked_add_is_exact_at_the_larger_scale() {
    assert_eq!(dec(100, 0).checked_add(dec(105, 1)), Some(dec(1105, 1)));
    assert_eq!(dec(105, 1).checked_add(dec(100, 0)), Some(dec(1105, 1)));
    assert_eq!(dec(1, 2).checked_add(dec(1, 4)), Some(dec(101, 4)));
    assert_eq!(dec(-1, 2).checked_add(dec(1, 4)), Some(dec(-99, 4)));
    assert_eq!(dec(15, 1).checked_add(dec(-15, 1)), Some(dec(0, 1)));
    assert_eq!(dec(5, 1).checked_add(dec(5, 1)), Some(dec(10, 1)));
    assert_eq!(dec(1, 0).checked_add(dec(1, 28)), Some(dec(10_i128.pow(28) + 1, 28)));
}

#[test]
fn checked_add_of_zero_leaves_the_other_as_it_is() {
    assert_eq!(dec(0, 2).checked_add(dec(1, 0)), Some(dec(1, 0)));
    assert_eq!(dec(1, 0).checked_add(dec(0, 2)), Some(dec(1, 0)));
    assert_eq!(dec(0, 1).checked_add(dec(0, 3)), Some(dec(0, 3)));
    assert_eq!(dec(0, 3).checked_add(dec(0, 1)), Some(dec(0, 1)));
    assert_eq!(dec(0, 28).checked_add(dec(MAX_MANTISSA, 0)), Some(dec(MAX_MANTISSA, 0)));
}

#[test]
fn checked_add_over_wide_mantissas() {
    let two_64 = 1_i128 << 64;
    assert_eq!(dec(two_64, 0).checked_add(dec(two_64, 0)), Some(dec(1_i128 << 65, 0)));
    assert_eq!(
        dec(u32::MAX as i128, 0).checked_add(dec(1, 0)),
        Some(dec(1_i128 << 32, 0))
    );
    assert_eq!(
        dec(u64::MAX as i128, 0).checked_add(dec(1, 0)),
        Some(dec(two_64, 0))
    );
    assert_eq!(
        dec(u64::MAX as i128, 3).checked_add(dec(u64::MAX as i128, 1)),
        Some(dec(u64::MAX as i128 * 101, 3))
    );
    assert_eq!(
        dec(MAX_MANTISSA - 1, 5).checked_add(dec(1, 5)),
        Some(dec(MAX_MANTISSA, 5))
    );
    assert_eq!(
        dec(-(MAX_MANTISSA - 7), 0).checked_add(dec(-7, 0)),
        Some(dec(-MAX_MANTISSA, 0))
    );
    assert_eq!(
        dec(two_64 + 3, 2).checked_add(dec(two_64 + 4, 4)),
        Some(dec((two_64 + 3) * 100 + two_64 + 4, 4))
    );
}

#[test]
fn checked_add_refuses_what_no_amount_holds() {
    assert_eq!(dec(MAX_MANTISSA, 0).checked_add(dec(1, 0)), None);
    assert_eq!(dec(-MAX_MANTISSA, 0).checked_add(dec(-1, 0)), None);
    assert_eq!(dec(MAX_MANTISSA, 3).checked_add(dec(1, 3)), None);
    // The sum is 7922816251426433759354395033.6: the larger scale has no room for it.
    assert_eq!(dec(MAX_MANTISSA / 10 + 1, 0).checked_add(dec(1, 1)), None);
    assert_eq!(dec(MAX_MANTISSA, 0).checked_add(dec(1, 28)), None);
    assert_eq!(dec(1, 28).checked_add(dec(MAX_MANTISSA, 0)), None);
}

#[test]
fn checked_add_is_exact_where_only_the_sum_has_room() {
    // 7922816251426433759354395034 is 79228162514264337593543950340 tenths,
    // five more than the largest mantissa; ten tenths less are within it.
    let tenth_above = MAX_MANTISSA / 10 + 1;
    assert_eq!(
        dec(tenth_above, 0).checked_add(dec(-10, 1)),
        Some(dec(tenth_above * 10 - 10, 1))
    );
    assert_eq!(
        dec(-10, 1).checked_add(dec(tenth_above, 0)),
        Some(dec(tenth_above * 10 - 10, 1))
    );
    assert_eq!(
        dec(-tenth_above, 0).checked_add(dec(5, 1)),
        Some(dec(-MAX_MANTISSA, 1))
    );
    assert_eq!(dec(-tenth_above, 0).checked_add(dec(4, 1)), None);
}

#[test]
fn checked_sub_is_exact_at_the_larger_scale() {
    assert_eq!(dec(100, 0).checked_sub(dec(105, 1)), Some(dec(895, 1)));
    assert_eq!(dec(105, 1).checked_sub(dec(100, 0)), Some(dec(-895, 1)));
    assert_eq!(dec(10, 0).checked_sub(dec(10, 0)), Some(dec(0, 0)));
    assert_eq!(dec(100, 1).checked_sub(dec(10, 0)), Some(dec(0, 1)));
    assert_eq!(dec(-3, 4).checked_sub(dec(-3, 2)), Some(dec(297, 4)));
    assert_eq!(dec(1, 0).checked_sub(dec(1, 28)), Some(dec(10_i128.pow(28) - 1, 28)));
    assert_eq!(
        dec(MAX_MANTISSA, 0).checked_sub(dec(MAX_MANTISSA, 0)),
        Some(dec(0, 0))
    );
    assert_eq!(
        dec(1_i128 << 64, 0).checked_sub(dec(1, 0)),
        Some(dec(u64::MAX as i128, 0))
    );
}

#[test]
fn checked_sub_of_and_from_zero() {
    assert_eq!(dec(0, 2).checked_sub(dec(15, 1)), Some(dec(-15, 1)));
    assert_eq!(dec(0, 0).checked_sub(dec(-15, 1)), Some(dec(15, 1)));
    assert_eq!(dec(15, 1).checked_sub(dec(0, 4)), Some(dec(15, 1)));
    assert_eq!(dec(0, 2).checked_sub(dec(0, 1)), Some(dec(0, 1)));
    assert_eq!(dec(0, 1).checked_sub(dec(0, 2)), Some(dec(0, 2)));
}

#[test]
fn checked_sub_refuses_what_no_amount_holds() {
    assert_eq!(dec(MAX_MANTISSA, 0).checked_sub(dec(-1, 0)), None);
    assert_eq!(dec(-MAX_MANTISSA, 0).checked_sub(dec(1, 0)), None);
    assert_eq!(dec(MAX_MANTISSA, 0).checked_sub(dec(1, 1)), None);
    let tenth_above = MAX_MANTISSA / 10 + 1;
    assert_eq!(
        dec(tenth_above, 0).checked_sub(dec(5, 1)),
        Some(dec(MAX_MANTISSA, 1))
    );
    assert_eq!(dec(tenth_above, 0).checked_sub(dec(4, 1)), None);
}

#[test]
fn less_than_compares_the_numbers() {
    assert!(dec(1, 0).less_than(dec(2, 0)));
    assert!(!dec(2, 0).less_than(dec(1, 0)));
    assert!(!dec(1, 0).less_than(dec(1, 0)));
    assert!(!dec(10, 1).less_than(dec(100, 2)));
    assert!(!dec(100, 2).less_than(dec(10, 1)));
    assert!(dec(99, 2).less_than(dec(1, 0)));
    assert!(dec(1, 0).less_than(dec(101, 2)));
    assert!(dec(-1, 0).less_than(dec(0, 5)));
    assert!(!dec(0, 5).less_than(dec(0, 0)));
    assert!(dec(-2, 0).less_than(dec(-15, 1)));
    assert!(!dec(-15, 1).less_than(dec(-2, 0)));
    assert!(dec(-1, 28).less_than(dec(1, 28)));
    assert!(dec(1, 28).less_than(dec(MAX_MANTISSA, 0)));
    assert!(!dec(MAX_MANTISSA, 0).less_than(dec(MAX_MANTISSA, 1)));
    assert!(dec(MAX_MANTISSA, 1).less_than(dec(MAX_MANTISSA, 0)));
    assert!(dec(-MAX_MANTISSA, 0).less_than(dec(-MAX_MANTISSA, 1)));
    assert!(dec(10, 0).less_than(dec(2, 1)) == false);
    assert!(dec(0, 0).less_than(dec(2, 1)));
}

#[test]
fn round_dp_rounds_ties_away_from_zero() {
    assert_eq!(dec(20000005, 5).round_dp(4), dec(2000001, 4));
    assert_eq!(dec(10100015, 5).round_dp(4), dec(1010002, 4));
    assert_eq!(dec(-20000005, 5).round_dp(4), dec(-2000001, 4));
    assert_eq!(dec(20000004, 5).round_dp(4), dec(2000000, 4));
    assert_eq!(dec(-20000004, 5).round_dp(4), dec(-2000000, 4));
    assert_eq!(dec(123456789, 8).round_dp(4), dec(12346, 4));
    assert_eq!(dec(123449999, 8).round_dp(4), dec(12345, 4));
    assert_eq!(dec(65, 1).round_dp(0), dec(7, 0));
    assert_eq!(dec(75, 1).round_dp(0), dec(8, 0));
    assert_eq!(dec(-65, 1).round_dp(0), dec(-7, 0));
    assert_eq!(dec(MAX_MANTISSA, 28).round_dp(0), dec(8, 0));
    assert_eq!(dec(MAX_MANTISSA, 1).round_dp(0), dec(MAX_MANTISSA / 10 + 1, 0));
    assert_eq!(dec(5, 28).round_dp(27), dec(1, 27));
}

#[test]
fn round_dp_keeps_what_is_short_enough() {
    assert_eq!(dec(12345, 4).round_dp(4), dec(12345, 4));
    assert_eq!(dec(10, 1).round_dp(4), dec(10, 1));
    assert_eq!(dec(0, 2).round_dp(4), dec(0, 2));
    assert_eq!(dec(-3, 0).round_dp(0), dec(-3, 0));
    assert_eq!(dec(5, 28).round_dp(28), dec(5, 28));
    assert_eq!(dec(5, 28).round_dp(u32::MAX), dec(5, 28));
}

#[test]
fn round_dp_of_what_comes_to_zero() {
    assert_eq!(dec(0, 6).round_dp(4), dec(0, 4));
    assert_eq!(dec(4, 5).round_dp(4), dec(0, 4));
    assert_eq!(dec(-4, 5).round_dp(4), dec(0, 4));
    assert_eq!(dec(49, 2).round_dp(0), dec(0, 0));
}

#[test]
fn rescale_brings_the_scale_down_and_never_up() {
    assert_eq!(dec(10012345, 5).rescale(4), dec(1001235, 4));
    assert_eq!(dec(10012345, 6).rescale(4), dec(100123, 4));
    assert_eq!(dec(-10012345, 5).rescale(4), dec(-1001235, 4));
    assert_eq!(dec(5, 5).rescale(4), dec(1, 4));
    assert_eq!(dec(4, 5).rescale(4), dec(0, 4));
    assert_eq!(dec(0, 9).rescale(4), dec(0, 4));
    assert_eq!(dec(123, 2).rescale(4), dec(123, 2));
    assert_eq!(dec(123, 4).rescale(4), dec(123, 4));
    assert_eq!(dec(5, 1).rescale(0), dec(1, 0));
    assert_eq!(dec(MAX_MANTISSA, 28).rescale(0), dec(8, 0));
    assert_eq!(dec(149999, 5).rescale(0), dec(1, 0));
    assert_eq!(dec(150000, 5).rescale(0), dec(2, 0));
}

#[test]
fn normalized_writes_zero_in_one_way() {
    assert_eq!(dec(0, 4).normalized(), Amount::zero());
    assert_eq!(dec(0, 0).normalized(), Amount::zero());
    assert_eq!(dec(10, 1).normalized(), dec(10, 1));
    assert_eq!(dec(-1, 28).normalized(), dec(-1, 28));
}
