use bank::error::Error;
use bank::fixed::{checked_pow, Permill, FIXED_ONE};
use bank::pallet::Pallet;
use sp_arithmetic::FixedU128;

const ONE_YEAR: u32 = 5_184_000;

#[test]
fn ratios_are_at_most_one() {
    assert_eq!(Permill::from_parts(5_000).deconstruct(), 5_000);
    assert_eq!(Permill::from_parts(1_000_000).deconstruct(), 1_000_000);
    assert_eq!(Permill::from_parts(1_000_001).deconstruct(), 1_000_000);
    assert_eq!(Permill::from_parts(u32::MAX).deconstruct(), 1_000_000);
    assert_eq!(Permill::from_percent(2).deconstruct(), 20_000);
    assert_eq!(Permill::from_percent(100).deconstruct(), 1_000_000);
    assert_eq!(Permill::from_percent(101).deconstruct(), 1_000_000);
    assert_eq!(Permill::zero().deconstruct(), 0);
    assert_eq!(Permill::one().deconstruct(), 1_000_000);
    assert!(Permill::zero().is_zero());
    assert!(!Permill::from_parts(1).is_zero());
    assert_eq!(Permill::from_percent(2), Permill::from_parts(20_000));
}

#[test]
fn a_share_is_rounded_to_the_nearest_unit() {
    assert_eq!(Permill::from_parts(5_000).of(50_000_000_000_000), 250_000_000_000);
    assert_eq!(Permill::from_percent(50).of(3), 1);
    assert_eq!(Permill::from_percent(50).of(1), 0);
    assert_eq!(Permill::from_percent(60).of(1), 1);
    assert_eq!(Permill::from_parts(5_000).of(100), 0);
    assert_eq!(Permill::from_parts(5_000).of(101), 1);
    assert_eq!(Permill::one().of(u128::MAX), u128::MAX);
    assert_eq!(Permill::zero().of(u128::MAX), 0);
    assert_eq!(Permill::from_percent(50).of(u128::MAX), u128::MAX / 2);
}

#[test]
fn a_share_is_what_the_ratio_type_gives() {
    for (parts, x) in [(5_000u32, 100u128), (333_333, 1_000_001), (999_999, u128::MAX), (1, 499_999)] {
        assert_eq!(
            Permill::from_parts(parts).of(x),
            sp_arithmetic::Permill::from_parts(parts) * x
        );
    }
}

#[test]
fn powers_are_products_rounded_down() {
    assert_eq!(checked_pow(123, 0), Some(FIXED_ONE));
    assert_eq!(checked_pow(0, 0), Some(FIXED_ONE));
    assert_eq!(checked_pow(0, 3), Some(0));
    assert_eq!(checked_pow(0, u64::MAX), Some(0));
    assert_eq!(checked_pow(FIXED_ONE / 2, u64::MAX), Some(0));
    assert_eq!(checked_pow(FIXED_ONE, 1_000_000_000_000), Some(FIXED_ONE));
    // 1.02^3
    assert_eq!(checked_pow(1_020_000_000_000_000_000, 3), Some(1_061_208_000_000_000_000));
    // 2^10
    assert_eq!(checked_pow(2 * FIXED_ONE, 10), Some(1024 * FIXED_ONE));
    // 0.5^2
    assert_eq!(checked_pow(FIXED_ONE / 2, 2), Some(FIXED_ONE / 4));
    // (1 + 1e-18)^2 = 1 + 2e-18 + 1e-36, rounded down
    assert_eq!(checked_pow(FIXED_ONE + 1, 2), Some(FIXED_ONE + 2));
    // 1.000000001^3, rounded down after each product
    assert_eq!(checked_pow(1_000_000_001_000_000_000, 3), Some(1_000_000_003_000_000_003));
    // 0.0000000016^2 = 0.00000000000000000256: down to two, not up to three
    assert_eq!(checked_pow(1_600_000_000, 2), Some(2));
    // (1 + 1/3)^7, where every product is cut
    assert_eq!(checked_pow(FIXED_ONE + FIXED_ONE / 3, 7), Some(7_491_540_923_639_689_050));
}

#[test]
fn a_power_that_does_not_fit_is_none() {
    // 2^68 is under the largest fixed-point number and 2^69 is over it
    assert_eq!(checked_pow(2 * FIXED_ONE, 68), Some((1u128 << 68) * FIXED_ONE));
    assert_eq!(checked_pow(2 * FIXED_ONE, 69), None);
    assert_eq!(checked_pow(2 * FIXED_ONE, u64::MAX), None);
    assert_eq!(checked_pow(u128::MAX, 2), None);
    assert_eq!(checked_pow(u128::MAX, 1), Some(u128::MAX));
}

#[test]
fn exact_powers_are_those_of_the_fixed_point_type() {
    for (base, exp) in [(1_020_000_000_000_000_000u128, 3u64), (2 * FIXED_ONE, 10), (3 * FIXED_ONE, 5)] {
        let theirs = sp_arithmetic::traits::checked_pow(FixedU128::from_inner(base), exp as usize);
        assert_eq!(checked_pow(base, exp), theirs.map(|v| v.into_inner()));
    }
}

#[test]
fn compound_interest_on_exact_values() {
    let two = Permill::from_percent(2);
    let eight = Permill::from_percent(8);
    // 100 * (1.08 - 1)
    assert_eq!(Pallet::get_compound_interest(100, eight, 1, ONE_YEAR, ONE_YEAR), Ok(8));
    // 10000 * (1.04^2 - 1): 8% compounded twice a year
    assert_eq!(Pallet::get_compound_interest(10_000, eight, 2, ONE_YEAR, ONE_YEAR), Ok(816));
    // 5000 units * (1.02^3 - 1)
    assert_eq!(
        Pallet::get_compound_interest(50_000_000_000_000, two, 1, ONE_YEAR, 3 * ONE_YEAR),
        Ok(3_060_400_000_000)
    );
    // only whole epochs count
    assert_eq!(Pallet::get_compound_interest(100, eight, 1, ONE_YEAR, 2 * ONE_YEAR - 1), Ok(8));
    assert_eq!(Pallet::get_compound_interest(100, eight, 1, ONE_YEAR, ONE_YEAR - 1), Ok(0));
    // 100 * (1.08^2 - 1) = 16.64
    assert_eq!(Pallet::get_compound_interest(100, eight, 1, ONE_YEAR, 2 * ONE_YEAR), Ok(16));
    // a rate of 0.000002 in three periods: each has 0.000000666666666666, cut
    assert_eq!(
        Pallet::get_compound_interest(FIXED_ONE, Permill::from_parts(2), 3, 1, 1),
        Ok(2_000_001_333_331)
    );
    // a rate that does not divide evenly: 0.000001 / 3 per period, three periods
    assert_eq!(
        Pallet::get_compound_interest(3_000_000_000_000_000_000, Permill::from_parts(1), 3, 1, 1),
        Ok(3_000_000_999_996)
    );
}

#[test]
fn compound_interest_is_zero_at_rate_zero() {
    assert_eq!(Pallet::get_compound_interest(100, Permill::zero(), 1, ONE_YEAR, 5 * ONE_YEAR), Ok(0));
    assert_eq!(Pallet::get_compound_interest(u64::MAX as u128, Permill::zero(), 365, 1, u32::MAX), Ok(0));
    assert_eq!(Pallet::get_compound_interest(0, Permill::from_percent(8), 1, ONE_YEAR, ONE_YEAR), Ok(0));
}

#[test]
fn compound_interest_grows_with_rate_and_maturity() {
    let principal = 1_000_000u128;
    let mut last = 0;
    for years in 0..=5u32 {
        let interest =
            Pallet::get_compound_interest(principal, Permill::from_percent(8), 4, ONE_YEAR, years * ONE_YEAR)
                .unwrap();
        assert!(interest >= last);
        if years > 0 {
            assert!(interest > last);
        }
        last = interest;
    }
    assert_eq!(last, 485_947);
    let mut last = 0;
    for percent in 0..=100u32 {
        let interest =
            Pallet::get_compound_interest(principal, Permill::from_percent(percent), 1, ONE_YEAR, 3 * ONE_YEAR)
                .unwrap();
        assert!(interest >= last);
        last = interest;
    }
    // 100% over three years: 2^3 - 1
    assert_eq!(last, 7_000_000);
}

#[test]
fn compound_interest_fails_closed() {
    let eight = Permill::from_percent(8);
    assert_eq!(
        Pallet::get_compound_interest(100, eight, 0, ONE_YEAR, ONE_YEAR),
        Err(Error::ZeroFDCompoundFrequency)
    );
    assert_eq!(Pallet::get_compound_interest(100, eight, 1, 0, ONE_YEAR), Err(Error::ZeroFDEpoch));
    // the principal does not fit a fixed-point number
    assert_eq!(
        Pallet::get_compound_interest(u128::MAX, eight, 1, ONE_YEAR, ONE_YEAR),
        Err(Error::ArithmeticOverflow)
    );
    // the growth factor does not fit: 2^100
    assert_eq!(
        Pallet::get_compound_interest(100, Permill::one(), 1, 1, 100),
        Err(Error::ArithmeticOverflow)
    );
    // the product does not fit: 2^60 times (2^68 - 1) * 10^18
    assert_eq!(
        Pallet::get_compound_interest(1 << 60, Permill::one(), 1, 1, 68),
        Err(Error::ArithmeticOverflow)
    );
}

#[test]
fn the_penalty_is_never_zero() {
    let half_percent = Permill::from_parts(5_000);
    assert_eq!(Pallet::get_penalty(50_000_000_000_000, half_percent), 250_000_000_000);
    assert_eq!(Pallet::get_penalty(600, half_percent), 3);
    assert_eq!(Pallet::get_penalty(100, half_percent), 1);
    assert_eq!(Pallet::get_penalty(10, half_percent), 1);
    assert_eq!(Pallet::get_penalty(1, half_percent), 1);
    assert_eq!(Pallet::get_penalty(1, Permill::zero()), 1);
    assert_eq!(Pallet::get_penalty(u128::MAX, Permill::one()), u128::MAX);
}

#[test]
fn simple_interest_on_exact_values() {
    let two = Permill::from_percent(2);
    // 2% of 5000 units a year, for three years
    assert_eq!(
        Pallet::get_simple_interest(50_000_000_000_000, two, ONE_YEAR, 3 * ONE_YEAR),
        Ok(3_000_000_000_000)
    );
    // half a year of 2% of 1000
    assert_eq!(Pallet::get_simple_interest(1_000, two, ONE_YEAR, ONE_YEAR / 2), Ok(10));
    assert_eq!(Pallet::get_simple_interest(1_000, two, 3, 1), Ok(6));
    assert_eq!(Pallet::get_simple_interest(1_000, two, 0, 1), Err(Error::ZeroFDEpoch));
    assert_eq!(
        Pallet::get_simple_interest(u128::MAX, Permill::one(), 1, 2),
        Err(Error::ArithmeticOverflow)
    );
}
