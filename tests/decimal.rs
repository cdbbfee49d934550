use exchange::decimal::{
    Add, Compare, Decimal, Div, DivScale, DivUp, Mul, MulUp, PowAccuracy, Sub,
    INTEREST_RATE_SCALE, PRICE_SCALE,
};
use exchange::error::ErrorCode;

#[test]
fn test_to_scale() {
    // Increasing precision
    {
        let decimal = Decimal::new(42, 2);
        let result = decimal.to_scale(3);

        assert_eq!(result.scale, 3);
        assert_eq!({ result.val }, 420);
    }
    // Decreasing precision
    {
        let decimal = Decimal::new(42, 2);
        let result = decimal.to_scale(1);

        assert_eq!(result.scale, 1);
        assert_eq!({ result.val }, 4);
    }
    // Decreasing precision over value
    {
        let decimal = Decimal::new(123, 4);
        let result = decimal.to_scale(0);

        assert_eq!(result.scale, 0);
        assert_eq!({ result.val }, 0);
    }
}

#[test]
fn test_to_scale_up() {
    // Increasing precision
    {
        let decimal = Decimal::new(42, 2);
        let result = decimal.to_scale_up(3);

        assert_eq!(result.scale, 3);
        assert_eq!({ result.val }, 420);
    }
    // Decreasing precision
    {
        let decimal = Decimal::new(42, 2);
        let result = decimal.to_scale_up(1);

        assert_eq!(result.scale, 1);
        assert_eq!({ result.val }, 5);
    }
    // Decreasing precision over value
    {
        let decimal = Decimal::new(123, 4);
        let result = decimal.to_scale_up(0);

        assert_eq!(result.scale, 0);
        assert_eq!({ result.val }, 1);
    }
}

#[test]
fn test_pow_with_accuracy() {
    // Zero base
    {
        let decimal: u8 = PRICE_SCALE;
        let base = Decimal::new(0, decimal);
        let exp: u128 = 100;
        let result = base.pow_with_accuracy(exp);
        let expected = Decimal::new(0, decimal);
        assert_eq!(result, expected);
    }
    // Zero exponent

    let decimal: u8 = PRICE_SCALE;
    let base = Decimal::from_integer(10).to_scale(decimal);
    let exp: u128 = 0;
    let result = base.pow_with_accuracy(exp);
    let expected = Decimal::from_integer(1).to_scale(decimal);
    assert_eq!(result, expected);
    // 2^17, with price decimal
    {
        let decimal: u8 = PRICE_SCALE;
        let base = Decimal::from_integer(2).to_scale(decimal);
        let exp: u128 = 17;
        let result = base.pow_with_accuracy(exp);
        // should be 131072
        let expected = Decimal::from_integer(131072).to_scale(decimal);
        assert_eq!(result, expected);
    }
    // 1.00000002^525600, with interest decimal
    {
        let base = Decimal::new(1_000_000_02, 8).to_interest_rate();
        let exp: u128 = 525600;
        let result = base.pow_with_accuracy(exp);
        // expected 1.010567445075371...
        // real     1.010567445075377...
        let expected = Decimal::from_interest_rate(1010567445075371366);
        assert_eq!(result, expected);
    }
    // 1.000000015^2, with interest decimal
    {
        let base = Decimal::new(1_000_000_015, 9).to_interest_rate();
        let exp: u128 = 2;
        let result = base.pow_with_accuracy(exp);
        // expected 1.000000030000000225
        // real     1.000000030000000225.
        let expected = Decimal::from_interest_rate(1000000030000000225);
        assert_eq!(result, expected);
    }
    // 1^525600, with interest decimal
    {
        let base = Decimal::from_integer(1).to_interest_rate();
        let exp: u128 = 525600;
        let result = base.pow_with_accuracy(exp);
        // expected not change value
        let expected = Decimal::from_integer(1).to_interest_rate();
        assert_eq!(result, expected);
    }
}

#[test]
fn test_mul_up() {
    // mul of little
    {
        let a = Decimal::new(1, 10);
        let b = Decimal::new(1, 10);
        assert_eq!(a.mul_up(b), Decimal::new(1, 10));
    }
    // mul calculable without precision loss
    {
        let a = Decimal::new(1000, 3);
        let b = Decimal::new(300, 3);
        assert_eq!(a.mul_up(b), Decimal::new(300, 3));
    }
    // mul by zero
    {
        let a = Decimal::new(1000, 3);
        let b = Decimal::new(0, 0);
        assert_eq!(a.mul_up(b), Decimal::new(0, 3));
    }
    // mul with different decimals
    {
        let a = Decimal::new(1_000_000_000, 9);
        let b = Decimal::new(3, 8);
        assert_eq!(a.mul_up(b), Decimal::new(30, 9));
    }
}

#[test]
fn test_div_up() {
    // div of zero
    {
        let a = Decimal::new(0, 0);
        let b = Decimal::new(1, 0);
        assert_eq!(a.div_up(b), Decimal::new(0, 0));
    }
    // div check rounding up
    {
        let a = Decimal::new(1, 0);
        let b = Decimal::new(2, 0);
        assert_eq!(a.div_up(b), Decimal::new(1, 0));
    }
    // div big number
    {
        let a = Decimal::new(200_000_000_001, 6);
        let b = Decimal::new(2_000, 3);
        assert!(!a.div_up(b).lt(Decimal::new(100_000_000_001, 6)).unwrap());
    }
    {
        let a = Decimal::new(42, 2);
        let b = Decimal::new(10, 0);
        assert_eq!(a.div_up(b), Decimal::new(5, 2));
    }
}

#[test]
fn test_div_to_scale() {
    // nominator scale == denominator scale
    {
        let nominator = Decimal::new(20_000, 8);
        let denominator = Decimal::new(4, 8);

        // to_scale == scale
        let to_scale = 8;
        let result = nominator.div_to_scale(denominator, to_scale);
        let expected = Decimal::from_integer(5_000).to_scale(to_scale);
        assert_eq!(result, expected);

        // // to_scale > scale
        let to_scale = 11;
        let result = nominator.div_to_scale(denominator, to_scale);
        let expected = Decimal::from_integer(5_000).to_scale(to_scale);
        assert_eq!(result, expected);

        // // to_scale < scale
        let to_scale = 5;
        let result = nominator.div_to_scale(denominator, to_scale);
        let expected = Decimal::from_integer(5_000).to_scale(to_scale);
        assert_eq!(result, expected);
    }
    // nominator scale != denominator scale
    {
        let nominator = Decimal::new(35, 5);
        let denominator = Decimal::new(5, 1);

        // to_scale == nominator scale
        let to_scale = 7;
        let result = nominator.div_to_scale(denominator, to_scale);
        let expected = Decimal::new(7000, to_scale);
        assert_eq!(result, expected);

        // to_scale > nominator scale
        let to_scale = 9;
        let result = nominator.div_to_scale(denominator, to_scale);
        let expected = Decimal::new(700_000, to_scale);
        assert_eq!(result, expected);

        // to_scale < nominator scale
        let to_scale = 5;
        let result = nominator.div_to_scale(denominator, to_scale);
        let expected = Decimal::new(70, to_scale);
        assert_eq!(result, expected);
    }
}

#[test]
fn rescale_to_own_scale_is_identity() {
    for d in [Decimal::new(0, 0), Decimal::new(42, 2), Decimal::new(u128::MAX, 38)] {
        assert_eq!(d.to_scale(d.scale), d);
        assert_eq!(d.to_scale_up(d.scale), d);
    }
}

#[test]
fn div_up_is_div_rounded_up() {
    let a = Decimal::new(10, 2);
    let b = Decimal::new(3, 0);
    assert_eq!(a.div(b), Decimal::new(3, 2));
    assert_eq!(a.div_up(b), Decimal::new(4, 2));
    // exactly divisible: both agree
    let c = Decimal::new(12, 2);
    assert_eq!(c.div(b), Decimal::new(4, 2));
    assert_eq!(c.div_up(b), Decimal::new(4, 2));
    // the divisor's scale multiplies the dividend first
    assert_eq!(Decimal::new(1, 0).div(Decimal::new(3, 1)), Decimal::new(3, 0));
    assert_eq!(Decimal::new(1, 0).div_up(Decimal::new(3, 1)), Decimal::new(4, 0));
}

#[test]
fn pow_edge_cases() {
    assert_eq!(Decimal::new(0, 6).pow_with_accuracy(0), Decimal::new(1_000_000, 6));
    assert_eq!(Decimal::new(5, 0).pow_with_accuracy(0), Decimal::new(1, 0));
    assert_eq!(Decimal::new(0, 18).pow_with_accuracy(1), Decimal::new(0, 18));
    assert_eq!(Decimal::new(3, 0).pow_with_accuracy(4), Decimal::new(81, 0));
    // 1.5^2 = 2.25, truncated to one digit
    assert_eq!(Decimal::new(15, 1).pow_with_accuracy(2), Decimal::new(22, 1));
}

#[test]
fn widen_then_narrow_round_trip() {
    let a = Decimal::new(123_456, 3);
    assert_eq!(a.to_scale(9).to_scale(3), a);
    assert_eq!(a.to_scale_up(9).to_scale(3), a);
    assert_eq!(a.to_scale(9), Decimal::new(123_456_000_000, 9));
    let b = Decimal::new(7, 0);
    assert_eq!(b.to_scale(INTEREST_RATE_SCALE).to_scale(0), b);
}

#[test]
fn narrowing_truncates_or_rounds_up() {
    let a = Decimal::new(1_999, 3);
    assert_eq!(a.to_scale(0), Decimal::new(1, 0));
    assert_eq!(a.to_scale_up(0), Decimal::new(2, 0));
    assert_eq!(Decimal::new(2_000, 3).to_scale_up(0), Decimal::new(2, 0));
    assert_eq!(Decimal::new(12_345_678, 8).to_usd(), Decimal::new(123_456, 6));
    assert_eq!(Decimal::new(12_345_678, 8).to_usd_up(), Decimal::new(123_457, 6));
    assert_eq!(Decimal::new(5, 6).to_price(), Decimal::new(500, 8));
    assert_eq!(Decimal::new(5, 6).to_sny(), Decimal::new(5, 6));
}

#[test]
fn add_sub_and_compare_reject_different_scales() {
    let a = Decimal::new(10, 2);
    let b = Decimal::new(10, 3);
    assert_eq!(a.add(b), Err(ErrorCode::DifferentScale));
    assert_eq!(a.sub(b), Err(ErrorCode::DifferentScale));
    assert_eq!(a.lt(b), Err(ErrorCode::DifferentScale));
    assert_eq!(a.lte(b), Err(ErrorCode::DifferentScale));
    assert_eq!(a.gt(b), Err(ErrorCode::DifferentScale));
    assert_eq!(a.gte(b), Err(ErrorCode::DifferentScale));
    assert_eq!(Compare::eq(a, b), Err(ErrorCode::DifferentScale));
    let c = Decimal::new(4, 2);
    assert_eq!(a.add(c), Ok(Decimal::new(14, 2)));
    assert_eq!(a.sub(c), Ok(Decimal::new(6, 2)));
    assert_eq!(a.lt(c), Ok(false));
    assert_eq!(a.gt(c), Ok(true));
    assert_eq!(a.gte(a), Ok(true));
    assert_eq!(a.lte(c), Ok(false));
    assert_eq!(Compare::eq(a, a), Ok(true));
}

#[test]
fn mul_rescales_by_right_operand() {
    let a = Decimal::new(1_500, 3);
    assert_eq!(a.mul(Decimal::new(25, 1)), Decimal::new(3_750, 3));
    assert_eq!(a.mul(Decimal::new(1, 3)), Decimal::new(1, 3));
    assert_eq!(Decimal::new(1_501, 3).mul(Decimal::new(1, 1)), Decimal::new(150, 3));
    assert_eq!(Decimal::new(1_501, 3).mul_up(Decimal::new(1, 1)), Decimal::new(151, 3));
    assert_eq!(a.mul(4u128), Decimal::new(6_000, 3));
}

#[test]
fn constructors_and_conversions() {
    assert_eq!(Decimal::from_percent(1), Decimal::new(1_000, 5));
    assert_eq!(Decimal::from_percent(1).to_interest_rate(), Decimal::new(10_000_000_000_000_000, 18));
    assert_eq!(Decimal::from_unified_percent(250), Decimal::new(250, 5));
    assert_eq!(Decimal::from_integer(7), Decimal::new(7, 0));
    assert_eq!(Decimal::from_price(7), Decimal::new(7, 8));
    assert_eq!(Decimal::from_usd(7), Decimal::new(7, 6));
    assert_eq!(Decimal::from_sny(7), Decimal::new(7, 6));
    assert_eq!(Decimal::from_interest_rate(7), Decimal::new(7, 18));
    assert_eq!(Decimal::new(1, 2).to_percent(), Decimal::new(1_000, 5));
    assert_eq!(Decimal::new(123, 4).denominator(), 10_000);
    assert_eq!(Decimal::new(u64::MAX as u128, 3).to_u64(), u64::MAX);
}
