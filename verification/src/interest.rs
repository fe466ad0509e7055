//! Compound interest, simple interest and the penalty for early withdrawal.

use crate::error::Error;
use crate::fixed::{
    checked_pow, fixed_checked_add, fixed_checked_div, fixed_checked_mul, fixed_checked_sub,
    fixed_div, fixed_from_integer, fixed_pow, lemma_fixed_mul_whole, lemma_pow_ge_one,
    lemma_pow_monotone_base, lemma_pow_monotone_exp, lemma_pow_of_one, permill_of, Permill,
    FIXED_ONE,
};
use crate::pallet::Pallet;
use vstd::arithmetic::div_mod::*;
use vstd::arithmetic::mul::*;
use vstd::prelude::*;

verus! {

/// The raw fixed-point value of one millionth.
pub const FIXED_MILLIONTH: u128 = 1_000_000_000_000;

/// The interest rate of one compounding period, as a raw fixed-point value:
/// the rate of an epoch, in millionths, divided by the number of periods in an
/// epoch and rounded down.
pub open spec fn period_rate(rate: nat, frequency: nat) -> nat
    recommends
        frequency > 0,
{
    rate * (FIXED_MILLIONTH as nat) / frequency
}

/// The number of compounding periods in a maturity period: the whole epochs
/// in it, times the periods in an epoch.
pub open spec fn periods(frequency: nat, epoch: nat, maturity: nat) -> nat
    recommends
        epoch > 0,
{
    frequency * (maturity / epoch)
}

/// The factor by which a deposit grows until maturity, as a raw fixed-point
/// value: one plus the period's rate, to the power of the number of periods.
pub open spec fn growth(rate: nat, frequency: nat, epoch: nat, maturity: nat) -> nat
    recommends
        frequency > 0,
        epoch > 0,
{
    fixed_pow(
        (FIXED_ONE as nat) + period_rate(rate, frequency),
        periods(frequency, epoch, maturity),
    )
}

/// The compound interest on `principal`: the principal times what the growth
/// factor has over one, rounded down to a whole unit.
pub open spec fn compound_interest(
    principal: nat,
    rate: nat,
    frequency: nat,
    epoch: nat,
    maturity: nat,
) -> nat
    recommends
        frequency > 0,
        epoch > 0,
{
    let gain = (growth(rate, frequency, epoch, maturity) - FIXED_ONE) as nat;
    gain * principal / (FIXED_ONE as nat)
}

/// Whether every step of the computation of the compound interest fits in
/// 128 bits: the growth factor, the principal as a fixed-point number, and
/// their product.
pub open spec fn interest_fits(
    principal: nat,
    rate: nat,
    frequency: nat,
    epoch: nat,
    maturity: nat,
) -> bool
    recommends
        frequency > 0,
        epoch > 0,
{
    &&& growth(rate, frequency, epoch, maturity) <= u128::MAX
    &&& principal * (FIXED_ONE as nat) <= u128::MAX
    &&& ((growth(rate, frequency, epoch, maturity) - FIXED_ONE) as nat) * principal <= u128::MAX
}

/// What `get_compound_interest` returns.
pub open spec fn compound_interest_result(
    principal: nat,
    rate: nat,
    frequency: nat,
    epoch: nat,
    maturity: nat,
) -> Result<u128, Error> {
    if frequency == 0 {
        Err(Error::ZeroFDCompoundFrequency)
    } else if epoch == 0 {
        Err(Error::ZeroFDEpoch)
    } else if !interest_fits(principal, rate, frequency, epoch, maturity) {
        Err(Error::ArithmeticOverflow)
    } else {
        Ok(compound_interest(principal, rate, frequency, epoch, maturity) as u128)
    }
}

/// The penalty for closing a deposit of `principal` early: the penalty rate's
/// share of it, and one unit where that share comes to nothing.
pub open spec fn penalty(principal: nat, rate: nat) -> nat {
    let share = permill_of(rate, principal);
    if share == 0 {
        1
    } else {
        share
    }
}

/// The simple interest on `principal`: the rate's share of it for one epoch,
/// times the maturity period in epochs, rounded down.
pub open spec fn simple_interest(principal: nat, rate: nat, epoch: nat, maturity: nat) -> nat
    recommends
        epoch > 0,
{
    permill_of(rate, principal) * maturity / epoch
}

/// What `get_simple_interest` returns.
pub open spec fn simple_interest_result(
    principal: nat,
    rate: nat,
    epoch: nat,
    maturity: nat,
) -> Result<u128, Error> {
    if epoch == 0 {
        Err(Error::ZeroFDEpoch)
    } else if permill_of(rate, principal) * maturity > u128::MAX {
        Err(Error::ArithmeticOverflow)
    } else {
        Ok(simple_interest(principal, rate, epoch, maturity) as u128)
    }
}

/// The growth factor is at least one.
pub proof fn lemma_growth_ge_one(rate: nat, frequency: nat, epoch: nat, maturity: nat)
    ensures
        growth(rate, frequency, epoch, maturity) >= FIXED_ONE,
{
    lemma_pow_ge_one(
        (FIXED_ONE as nat) + period_rate(rate, frequency),
        periods(frequency, epoch, maturity),
    );
}

/// Interest does not shrink when the growth factor grows.
proof fn lemma_interest_ordered(g1: nat, g2: nat, principal: nat)
    requires
        FIXED_ONE <= g1 <= g2,
    ensures
        ((g1 - FIXED_ONE) as nat) * principal / (FIXED_ONE as nat) <= ((g2 - FIXED_ONE) as nat)
            * principal / (FIXED_ONE as nat),
{
    let a = (g1 - FIXED_ONE) as nat;
    let b = (g2 - FIXED_ONE) as nat;
    assert(a * principal <= b * principal) by (nonlinear_arith)
        requires
            a <= b,
    ;
    lemma_div_is_ordered((a * principal) as int, (b * principal) as int, FIXED_ONE as int);
}

/// At an interest rate of zero the compound interest is zero.
pub proof fn lemma_compound_interest_zero_rate(
    principal: nat,
    frequency: nat,
    epoch: nat,
    maturity: nat,
)
    requires
        frequency > 0,
        epoch > 0,
    ensures
        compound_interest(principal, 0, frequency, epoch, maturity) == 0,
        compound_interest_result(principal, 0, frequency, epoch, maturity) is Ok
            ==> compound_interest_result(principal, 0, frequency, epoch, maturity) == Ok::<
            u128,
            Error,
        >(0),
{
    assert(0nat * (FIXED_MILLIONTH as nat) == 0);
    assert(period_rate(0, frequency) == 0) by (nonlinear_arith)
        requires
            frequency > 0,
            period_rate(0, frequency) == 0int / (frequency as int),
    ;
    lemma_pow_of_one(periods(frequency, epoch, maturity));
    assert(0nat * principal == 0) by (nonlinear_arith);
}

/// The compound interest does not shrink when the interest rate grows.
pub proof fn lemma_compound_interest_monotone_in_rate(
    principal: nat,
    rate1: nat,
    rate2: nat,
    frequency: nat,
    epoch: nat,
    maturity: nat,
)
    requires
        rate1 <= rate2,
        frequency > 0,
        epoch > 0,
    ensures
        compound_interest(principal, rate1, frequency, epoch, maturity) <= compound_interest(
            principal,
            rate2,
            frequency,
            epoch,
            maturity,
        ),
        growth(rate1, frequency, epoch, maturity) <= growth(rate2, frequency, epoch, maturity),
{
    let m = FIXED_MILLIONTH as nat;
    assert(rate1 * m <= rate2 * m) by (nonlinear_arith)
        requires
            rate1 <= rate2,
    ;
    lemma_div_is_ordered((rate1 * m) as int, (rate2 * m) as int, frequency as int);
    lemma_pow_monotone_base(
        (FIXED_ONE as nat) + period_rate(rate1, frequency),
        (FIXED_ONE as nat) + period_rate(rate2, frequency),
        periods(frequency, epoch, maturity),
    );
    lemma_growth_ge_one(rate1, frequency, epoch, maturity);
    lemma_interest_ordered(
        growth(rate1, frequency, epoch, maturity),
        growth(rate2, frequency, epoch, maturity),
        principal,
    );
}

/// The compound interest does not shrink when the maturity period grows.
pub proof fn lemma_compound_interest_monotone_in_maturity(
    principal: nat,
    rate: nat,
    frequency: nat,
    epoch: nat,
    maturity1: nat,
    maturity2: nat,
)
    requires
        maturity1 <= maturity2,
        frequency > 0,
        epoch > 0,
    ensures
        compound_interest(principal, rate, frequency, epoch, maturity1) <= compound_interest(
            principal,
            rate,
            frequency,
            epoch,
            maturity2,
        ),
        growth(rate, frequency, epoch, maturity1) <= growth(rate, frequency, epoch, maturity2),
{
    lemma_div_is_ordered(maturity1 as int, maturity2 as int, epoch as int);
    let t1 = maturity1 / epoch;
    let t2 = maturity2 / epoch;
    assert(frequency * t1 <= frequency * t2) by (nonlinear_arith)
        requires
            t1 <= t2,
    ;
    lemma_pow_monotone_exp(
        (FIXED_ONE as nat) + period_rate(rate, frequency),
        periods(frequency, epoch, maturity1),
        periods(frequency, epoch, maturity2),
    );
    lemma_growth_ge_one(rate, frequency, epoch, maturity1);
    lemma_interest_ordered(
        growth(rate, frequency, epoch, maturity1),
        growth(rate, frequency, epoch, maturity2),
        principal,
    );
}

/// Where the interest can be computed for two deposits that differ only in
/// that the second has the higher rate or the longer maturity period, or
/// both, the second earns at least as much.
pub proof fn lemma_interest_results_ordered(
    principal: nat,
    rate1: nat,
    rate2: nat,
    frequency: nat,
    epoch: nat,
    maturity1: nat,
    maturity2: nat,
)
    requires
        rate1 <= rate2,
        maturity1 <= maturity2,
        compound_interest_result(principal, rate1, frequency, epoch, maturity1) is Ok,
        compound_interest_result(principal, rate2, frequency, epoch, maturity2) is Ok,
    ensures
        compound_interest_result(principal, rate1, frequency, epoch, maturity1)->Ok_0
            <= compound_interest_result(principal, rate2, frequency, epoch, maturity2)->Ok_0,
{
    lemma_compound_interest_monotone_in_rate(principal, rate1, rate2, frequency, epoch, maturity1);
    lemma_compound_interest_monotone_in_maturity(
        principal,
        rate2,
        frequency,
        epoch,
        maturity1,
        maturity2,
    );
    lemma_interest_le_product(principal, rate1, frequency, epoch, maturity1);
    lemma_interest_le_product(principal, rate2, frequency, epoch, maturity2);
}

/// The interest is no more than the product it is the quotient of.
proof fn lemma_interest_le_product(
    principal: nat,
    rate: nat,
    frequency: nat,
    epoch: nat,
    maturity: nat,
)
    ensures
        compound_interest(principal, rate, frequency, epoch, maturity) <= ((growth(
            rate,
            frequency,
            epoch,
            maturity,
        ) - FIXED_ONE) as nat) * principal,
{
    let product = ((growth(rate, frequency, epoch, maturity) - FIXED_ONE) as nat) * principal;
    assert(product / (FIXED_ONE as nat) <= product) by (nonlinear_arith)
        requires
            product >= 0,
    ;
}

/// `base` multiplied `exp` times, without rounding.
pub open spec fn exact_pow(base: nat, exp: nat) -> nat
    decreases exp,
{
    if exp == 0 {
        1
    } else {
        exact_pow(base, (exp - 1) as nat) * base
    }
}

/// A fixed-point power never exceeds the exact one: where the base, as a
/// ratio, is at most `num / den`, the power is at most `(num / den)^exp`.
proof fn lemma_pow_below_exact(base: nat, num: nat, den: nat, exp: nat)
    requires
        den > 0,
        base * den <= (FIXED_ONE as nat) * num,
    ensures
        fixed_pow(base, exp) * exact_pow(den, exp) <= (FIXED_ONE as nat) * exact_pow(num, exp),
    decreases exp,
{
    let one = FIXED_ONE as nat;
    if exp > 0 {
        let e = (exp - 1) as nat;
        lemma_pow_below_exact(base, num, den, e);
        let f = fixed_pow(base, e);
        let g = fixed_pow(base, exp);
        let de = exact_pow(den, e);
        let ne = exact_pow(num, e);
        // the product is cut, never raised
        lemma_fundamental_div_mod((f * base) as int, one as int);
        lemma_mod_bound((f * base) as int, one as int);
        assert(g * one <= f * base) by {
            lemma_mul_is_commutative(g as int, one as int);
        }
        assert(g * (de * den) * one <= (one * ne) * (one * num)) by (nonlinear_arith)
            requires
                g * one <= f * base,
                f * de <= one * ne,
                base * den <= one * num,
        ;
        assert(g * (de * den) <= one * (ne * num)) by (nonlinear_arith)
            requires
                g * (de * den) * one <= (one * ne) * (one * num),
                one > 0,
        ;
    }
}

/// The bank never pays more than the exact compound interest. With the rate
/// in millionths the exact interest is `P * ((d + rate)^k - d^k) / d^k`, where
/// `d` is a million times the frequency and `k` the number of periods; what
/// is computed, times `d^k`, is at most `P * ((d + rate)^k - d^k)`.
pub proof fn lemma_interest_never_exceeds_exact(
    principal: nat,
    rate: nat,
    frequency: nat,
    epoch: nat,
    maturity: nat,
)
    requires
        frequency > 0,
        epoch > 0,
    ensures
        ({
            let den = 1_000_000 * frequency;
            let k = periods(frequency, epoch, maturity);
            compound_interest(principal, rate, frequency, epoch, maturity) * exact_pow(den, k)
                <= principal * (exact_pow(den + rate, k) - exact_pow(den, k))
        }),
{
    let one = FIXED_ONE as nat;
    let den = 1_000_000 * frequency;
    let num = den + rate;
    let k = periods(frequency, epoch, maturity);
    let per = period_rate(rate, frequency);
    let base = one + per;
    // the period's rate is cut, never raised
    let scaled = rate * (FIXED_MILLIONTH as nat);
    lemma_fundamental_div_mod(scaled as int, frequency as int);
    lemma_mod_bound(scaled as int, frequency as int);
    assert(per * frequency <= scaled) by {
        lemma_mul_is_commutative(per as int, frequency as int);
    }
    assert(base * den <= one * num) by (nonlinear_arith)
        requires
            base == one + per,
            den == 1_000_000 * frequency,
            num == den + rate,
            per * frequency <= rate * 1_000_000_000_000,
            one == 1_000_000_000_000_000_000,
    ;
    lemma_pow_below_exact(base, num, den, k);
    lemma_growth_ge_one(rate, frequency, epoch, maturity);
    let g = growth(rate, frequency, epoch, maturity);
    let gain = (g - one) as nat;
    let dk = exact_pow(den, k);
    let nk = exact_pow(num, k);
    let interest = compound_interest(principal, rate, frequency, epoch, maturity);
    // the interest is cut, never raised
    lemma_fundamental_div_mod((gain * principal) as int, one as int);
    lemma_mod_bound((gain * principal) as int, one as int);
    assert(interest * one <= gain * principal) by {
        lemma_mul_is_commutative(interest as int, one as int);
    }
    assert(interest * dk * one <= principal * (nk - dk) * one) by (nonlinear_arith)
        requires
            interest * one <= gain * principal,
            gain == g - one,
            g * dk <= one * nk,
            g >= one,
    ;
    assert(interest * dk <= principal * (nk - dk)) by (nonlinear_arith)
        requires
            interest * dk * one <= principal * (nk - dk) * one,
            one > 0,
    ;
}

impl Pallet {
    /// The compound interest on `principal` at `interest_rate` per epoch,
    /// compounded `compound_frequency` times in each of the whole epochs of
    /// `maturity_period`. Fails where the frequency or the epoch is zero, and
    /// where a step of the computation overflows.
    pub fn get_compound_interest(
        principal_amount: u128,
        interest_rate: Permill,
        compound_frequency: u16,
        fd_epoch: u32,
        maturity_period: u32,
    ) -> (r: Result<u128, Error>)
        ensures
            r == compound_interest_result(
                principal_amount as nat,
                interest_rate.parts(),
                compound_frequency as nat,
                fd_epoch as nat,
                maturity_period as nat,
            ),
    {
        if compound_frequency == 0 {
            return Err(Error::ZeroFDCompoundFrequency);
        }
        if fd_epoch == 0 {
            return Err(Error::ZeroFDEpoch);
        }
        let parts = interest_rate.deconstruct();
        let ghost rate = parts as nat;
        let ghost freq = compound_frequency as nat;
        proof {
            lemma_growth_ge_one(rate, freq, fd_epoch as nat, maturity_period as nat);
        }
        // the rate of one period
        let epoch_rate: u128 = (parts as u128) * FIXED_MILLIONTH;
        let frequency_fixed: u128 = match fixed_from_integer(compound_frequency as u128) {
            Some(v) => v,
            None => {
                return Err(Error::ArithmeticOverflow);
            },
        };
        proof {
            // dividing two fixed-point numbers by one another scales the quotient back
            lemma_div_multiples_vanish_quotient(FIXED_ONE as int, epoch_rate as int, freq as int);
            lemma_mul_is_commutative(FIXED_ONE as int, epoch_rate as int);
            lemma_mul_is_commutative(FIXED_ONE as int, freq as int);
            assert(fixed_div(epoch_rate as nat, frequency_fixed as nat) == period_rate(rate, freq));
            assert(epoch_rate as int / freq as int <= epoch_rate as int) by (nonlinear_arith)
                requires
                    freq >= 1,
                    epoch_rate >= 0,
            ;
        }
        let per_period: u128 = match fixed_checked_div(epoch_rate, frequency_fixed) {
            Some(v) => v,
            None => {
                return Err(Error::ArithmeticOverflow);
            },
        };
        let base: u128 = match fixed_checked_add(FIXED_ONE, per_period) {
            Some(v) => v,
            None => {
                return Err(Error::ArithmeticOverflow);
            },
        };
        // the number of periods
        let epochs: u64 = (maturity_period / fd_epoch) as u64;
        assert((compound_frequency as u64) * epochs <= 0xffff * 0xffff_ffff) by (nonlinear_arith)
            requires
                compound_frequency <= 0xffff,
                epochs <= 0xffff_ffff,
        ;
        let count: u64 = (compound_frequency as u64) * epochs;
        let factor: u128 = match checked_pow(base, count) {
            Some(v) => v,
            None => {
                return Err(Error::ArithmeticOverflow);
            },
        };
        let gain: u128 = match fixed_checked_sub(factor, FIXED_ONE) {
            Some(v) => v,
            None => {
                return Err(Error::ArithmeticUnderflow);
            },
        };
        let principal_fixed: u128 = match fixed_from_integer(principal_amount) {
            Some(v) => v,
            None => {
                return Err(Error::ArithmeticOverflow);
            },
        };
        proof {
            lemma_fixed_mul_whole(gain as nat, principal_amount as nat);
        }
        let total_fixed: u128 = match fixed_checked_mul(gain, principal_fixed) {
            Some(v) => v,
            None => {
                return Err(Error::ArithmeticOverflow);
            },
        };
        Ok(total_fixed / FIXED_ONE)
    }

    /// The penalty for closing a deposit of `principal_amount` early: the penalty
    /// rate's share of it, and one unit where that share comes to nothing, so
    /// that no early withdrawal is free.
    pub fn get_penalty(principal_amount: u128, penalty_rate: Permill) -> (r: u128)
        ensures
            r == penalty(principal_amount as nat, penalty_rate.parts()),
            r >= 1,
    {
        let share = penalty_rate.of(principal_amount);
        if share == 0 {
            1
        } else {
            share
        }
    }

    /// The simple interest on `principal_amount` at `interest_rate` per epoch over
    /// `maturity_period`. Fails where the epoch is zero, and where the product of
    /// the yearly interest and the maturity period overflows.
    pub fn get_simple_interest(
        principal_amount: u128,
        interest_rate: Permill,
        fd_epoch: u32,
        maturity_period: u32,
    ) -> (r: Result<u128, Error>)
        ensures
            r == simple_interest_result(
                principal_amount as nat,
                interest_rate.parts(),
                fd_epoch as nat,
                maturity_period as nat,
            ),
    {
        if fd_epoch == 0 {
            return Err(Error::ZeroFDEpoch);
        }
        let per_epoch = interest_rate.of(principal_amount);
        match per_epoch.checked_mul(maturity_period as u128) {
            Some(total) => Ok(total / (fd_epoch as u128)),
            None => Err(Error::ArithmeticOverflow),
        }
    }
}

} // verus!
