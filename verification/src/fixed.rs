//! Fixed-point numbers with eighteen decimal places, held as their raw `u128`
//! value, and parts-per-million ratios.
//!
//! The arithmetic itself is done by `sp_arithmetic`; the functions here that are
//! marked `external_body` state what that crate computes and are not proved.

use sp_arithmetic::traits::{CheckedAdd, CheckedDiv, CheckedMul, CheckedSub};
use sp_arithmetic::{FixedPointNumber, FixedU128};
use vstd::arithmetic::div_mod::*;
use vstd::arithmetic::mul::*;
use vstd::prelude::*;

verus! {

/// The raw value of the fixed-point number one.
pub const FIXED_ONE: u128 = 1_000_000_000_000_000_000;

/// The denominator of a parts-per-million ratio.
pub const MILLION: u32 = 1_000_000;

/// The raw value of the product of two fixed-point numbers, rounded down.
pub open spec fn fixed_mul(a: nat, b: nat) -> nat {
    a * b / (FIXED_ONE as nat)
}

/// The raw value of the quotient of two fixed-point numbers, rounded down.
pub open spec fn fixed_div(a: nat, b: nat) -> nat
    recommends
        b > 0,
{
    a * (FIXED_ONE as nat) / b
}

/// `base` raised to `exp` by multiplying `exp` times, rounding down each time.
pub open spec fn fixed_pow(base: nat, exp: nat) -> nat
    decreases exp,
{
    if exp == 0 {
        FIXED_ONE as nat
    } else {
        fixed_mul(fixed_pow(base, (exp - 1) as nat), base)
    }
}

/// `FixedU128::checked_add` on raw values: the sum, or `None` where it does
/// not fit in 128 bits.
#[verifier::external_body]
pub(crate) fn fixed_checked_add(a: u128, b: u128) -> (r: Option<u128>)
    ensures
        r == if a + b <= u128::MAX { Some((a + b) as u128) } else { None::<u128> },
{
    match FixedU128::from_inner(a).checked_add(&FixedU128::from_inner(b)) {
        Some(v) => Some(v.into_inner()),
        None => None,
    }
}

/// `FixedU128::checked_sub` on raw values: the difference, or `None` where
/// `b` exceeds `a`.
#[verifier::external_body]
pub(crate) fn fixed_checked_sub(a: u128, b: u128) -> (r: Option<u128>)
    ensures
        r == if a >= b { Some((a - b) as u128) } else { None::<u128> },
{
    match FixedU128::from_inner(a).checked_sub(&FixedU128::from_inner(b)) {
        Some(v) => Some(v.into_inner()),
        None => None,
    }
}

/// `FixedU128::checked_mul` on raw values: the product, rounded down to
/// eighteen decimals, or `None` where it does not fit in 128 bits.
#[verifier::external_body]
pub(crate) fn fixed_checked_mul(a: u128, b: u128) -> (r: Option<u128>)
    ensures
        r == if fixed_mul(a as nat, b as nat) <= u128::MAX {
            Some(fixed_mul(a as nat, b as nat) as u128)
        } else {
            None::<u128>
        },
{
    match FixedU128::from_inner(a).checked_mul(&FixedU128::from_inner(b)) {
        Some(v) => Some(v.into_inner()),
        None => None,
    }
}

/// `FixedU128::checked_div` on raw values: the quotient, rounded down to
/// eighteen decimals, or `None` where the divisor is zero or the quotient
/// does not fit in 128 bits.
#[verifier::external_body]
pub(crate) fn fixed_checked_div(a: u128, b: u128) -> (r: Option<u128>)
    ensures
        r == if b == 0 || fixed_div(a as nat, b as nat) > u128::MAX {
            None::<u128>
        } else {
            Some(fixed_div(a as nat, b as nat) as u128)
        },
{
    match FixedU128::from_inner(a).checked_div(&FixedU128::from_inner(b)) {
        Some(v) => Some(v.into_inner()),
        None => None,
    }
}

/// `FixedU128::checked_from_integer`: the raw value of a whole number, or
/// `None` where it does not fit in 128 bits.
#[verifier::external_body]
pub(crate) fn fixed_from_integer(n: u128) -> (r: Option<u128>)
    ensures
        r == if n * FIXED_ONE <= u128::MAX { Some((n * FIXED_ONE) as u128) } else { None::<u128> },
{
    match FixedU128::checked_from_integer(n) {
        Some(v) => Some(v.into_inner()),
        None => None,
    }
}

/// What a ratio of `parts` millionths takes of `x`, rounded to the nearest
/// whole number, a half rounded down: the whole millions of `x` and the rest
/// of it are multiplied apart, so that nothing overflows.
pub open spec fn permill_of(parts: nat, x: nat) -> nat {
    let rest = (x % 1_000_000) * parts;
    (x / 1_000_000) * parts + rest / 1_000_000 + if rest % 1_000_000 > 500_000 {
        1nat
    } else {
        0nat
    }
}

/// `Permill::from_parts(parts) * x` of `sp_arithmetic`: the ratio's share of
/// `x`, rounded to the nearest whole number, a half rounded down.
#[verifier::external_body]
pub(crate) fn permill_mul(parts: u32, x: u128) -> (r: u128)
    requires
        parts <= MILLION,
    ensures
        r == permill_of(parts as nat, x as nat),
{
    sp_arithmetic::Permill::from_parts(parts) * x
}

/// A ratio between zero and one, in millionths.
#[derive(Clone, Copy, Debug, PartialEq, Eq, Structural)]
pub struct Permill {
    parts: u32,
}

impl Permill {
    #[verifier::type_invariant]
    spec fn bounded(self) -> bool {
        self.parts <= MILLION
    }

    /// The number of millionths.
    pub closed spec fn parts(self) -> nat {
        self.parts as nat
    }

    /// No ratio is over one.
    pub open spec fn wf(self) -> bool {
        self.parts() <= MILLION
    }

    /// The ratio of `parts` millionths; one, where `parts` is over a million.
    pub fn from_parts(parts: u32) -> (r: Permill)
        ensures
            r.parts() == if parts <= MILLION { parts } else { MILLION },
            r.wf(),
    {
        if parts <= MILLION {
            Permill { parts }
        } else {
            Permill { parts: MILLION }
        }
    }

    /// The ratio of `x` hundredths; one, where `x` is over a hundred.
    pub fn from_percent(x: u32) -> (r: Permill)
        ensures
            r.parts() == if x <= 100 { x * 10_000 } else { MILLION as int },
            r.wf(),
    {
        if x <= 100 {
            Permill { parts: x * 10_000 }
        } else {
            Permill { parts: MILLION }
        }
    }

    /// The ratio zero.
    pub fn zero() -> (r: Permill)
        ensures
            r.parts() == 0,
            r.wf(),
    {
        Permill { parts: 0 }
    }

    /// The ratio one.
    pub fn one() -> (r: Permill)
        ensures
            r.parts() == MILLION,
            r.wf(),
    {
        Permill { parts: MILLION }
    }

    /// The number of millionths.
    pub fn deconstruct(self) -> (p: u32)
        ensures
            p == self.parts(),
            p <= MILLION,
            self.wf(),
    {
        proof {
            use_type_invariant(&self);
        }
        self.parts
    }

    /// Whether the ratio is zero.
    pub fn is_zero(self) -> (z: bool)
        ensures
            z == (self.parts() == 0),
    {
        self.parts == 0
    }

    /// The ratio's share of `x`, rounded to the nearest whole number, a half
    /// rounded down.
    pub fn of(self, x: u128) -> (r: u128)
        ensures
            r == permill_of(self.parts(), x as nat),
    {
        let parts = self.deconstruct();
        permill_mul(parts, x)
    }
}

/// A product does not shrink when a factor grows.
pub proof fn lemma_fixed_mul_monotone(a1: nat, b1: nat, a2: nat, b2: nat)
    requires
        a1 <= a2,
        b1 <= b2,
    ensures
        fixed_mul(a1, b1) <= fixed_mul(a2, b2),
{
    assert(a1 * b1 <= a2 * b2) by (nonlinear_arith)
        requires
            a1 <= a2,
            b1 <= b2,
    ;
    lemma_div_is_ordered((a1 * b1) as int, (a2 * b2) as int, FIXED_ONE as int);
}

/// Multiplying by one changes nothing.
pub proof fn lemma_fixed_mul_one(a: nat)
    ensures
        fixed_mul(a, FIXED_ONE as nat) == a,
        fixed_mul(FIXED_ONE as nat, a) == a,
{
    lemma_div_by_multiple(a as int, FIXED_ONE as int);
    lemma_mul_is_commutative(a as int, FIXED_ONE as int);
}

/// Multiplying by a whole number, taken as a fixed-point number, is exact.
pub proof fn lemma_fixed_mul_whole(a: nat, n: nat)
    ensures
        fixed_mul(a, n * (FIXED_ONE as nat)) == a * n,
{
    lemma_mul_is_associative(a as int, n as int, FIXED_ONE as int);
    lemma_mul_nonnegative(a as int, n as int);
    lemma_div_by_multiple((a * n) as int, FIXED_ONE as int);
}

/// A power of a number that is at most one is at most one.
pub proof fn lemma_pow_le_one(base: nat, exp: nat)
    requires
        base <= FIXED_ONE,
    ensures
        fixed_pow(base, exp) <= FIXED_ONE,
    decreases exp,
{
    if exp > 0 {
        lemma_pow_le_one(base, (exp - 1) as nat);
        lemma_fixed_mul_monotone(
            fixed_pow(base, (exp - 1) as nat),
            base,
            FIXED_ONE as nat,
            FIXED_ONE as nat,
        );
        lemma_fixed_mul_one(FIXED_ONE as nat);
    }
}

/// A power of a number that is at least one is at least one.
pub proof fn lemma_pow_ge_one(base: nat, exp: nat)
    requires
        base >= FIXED_ONE,
    ensures
        fixed_pow(base, exp) >= FIXED_ONE,
    decreases exp,
{
    if exp > 0 {
        lemma_pow_ge_one(base, (exp - 1) as nat);
        lemma_fixed_mul_monotone(
            FIXED_ONE as nat,
            FIXED_ONE as nat,
            fixed_pow(base, (exp - 1) as nat),
            base,
        );
        lemma_fixed_mul_one(FIXED_ONE as nat);
    }
}

/// Every power of one is one.
pub proof fn lemma_pow_of_one(exp: nat)
    ensures
        fixed_pow(FIXED_ONE as nat, exp) == FIXED_ONE,
{
    lemma_pow_le_one(FIXED_ONE as nat, exp);
    lemma_pow_ge_one(FIXED_ONE as nat, exp);
}

/// A power of a number that is at least one does not shrink when the exponent
/// grows.
pub proof fn lemma_pow_monotone_exp(base: nat, e1: nat, e2: nat)
    requires
        base >= FIXED_ONE,
        e1 <= e2,
    ensures
        fixed_pow(base, e1) <= fixed_pow(base, e2),
    decreases e2 - e1,
{
    if e1 < e2 {
        let before = fixed_pow(base, (e2 - 1) as nat);
        lemma_pow_monotone_exp(base, e1, (e2 - 1) as nat);
        lemma_fixed_mul_monotone(before, FIXED_ONE as nat, before, base);
        lemma_fixed_mul_one(before);
    }
}

/// A power does not shrink when the base grows.
pub proof fn lemma_pow_monotone_base(b1: nat, b2: nat, exp: nat)
    requires
        b1 <= b2,
    ensures
        fixed_pow(b1, exp) <= fixed_pow(b2, exp),
    decreases exp,
{
    if exp > 0 {
        lemma_pow_monotone_base(b1, b2, (exp - 1) as nat);
        lemma_fixed_mul_monotone(
            fixed_pow(b1, (exp - 1) as nat),
            b1,
            fixed_pow(b2, (exp - 1) as nat),
            b2,
        );
    }
}

/// Once a power is over one it stays at least as large for every greater
/// exponent: a product that has overflowed does not come back.
pub proof fn lemma_pow_overflow_persists(base: nat, e1: nat, e2: nat)
    requires
        e1 <= e2,
        fixed_pow(base, e1) > FIXED_ONE,
    ensures
        fixed_pow(base, e1) <= fixed_pow(base, e2),
{
    if base <= FIXED_ONE {
        lemma_pow_le_one(base, e1);
    } else {
        lemma_pow_monotone_exp(base, e1, e2);
    }
}

/// Once a power is zero it is zero for every greater exponent.
pub proof fn lemma_pow_zero_persists(base: nat, e1: nat, e2: nat)
    requires
        e1 <= e2,
        fixed_pow(base, e1) == 0,
    ensures
        fixed_pow(base, e2) == 0,
    decreases e2 - e1,
{
    if e1 < e2 {
        lemma_pow_zero_persists(base, e1, (e2 - 1) as nat);
        assert(0 * base == 0) by (nonlinear_arith);
    }
}

/// `base` raised to `exp` by repeated checked multiplication, or `None` where
/// the power does not fit in 128 bits. Every product is rounded down before
/// the next is taken; the work ends early once the power is zero or has
/// overflowed, and at once for the base one.
pub fn checked_pow(base: u128, exp: u64) -> (r: Option<u128>)
    ensures
        r == if fixed_pow(base as nat, exp as nat) <= u128::MAX {
            Some(fixed_pow(base as nat, exp as nat) as u128)
        } else {
            None::<u128>
        },
{
    if base == FIXED_ONE {
        proof {
            lemma_pow_of_one(exp as nat);
        }
        return Some(FIXED_ONE);
    }
    let mut acc: u128 = FIXED_ONE;
    let mut done: u64 = 0;
    while done < exp
        invariant
            done <= exp,
            acc == fixed_pow(base as nat, done as nat),
        decreases exp - done,
    {
        if acc == 0 {
            proof {
                lemma_pow_zero_persists(base as nat, done as nat, exp as nat);
            }
            return Some(0);
        }
        match fixed_checked_mul(acc, base) {
            Some(next) => {
                acc = next;
                done = done + 1;
            },
            None => {
                proof {
                    lemma_pow_overflow_persists(base as nat, (done + 1) as nat, exp as nat);
                }
                return None;
            },
        }
    }
    Some(acc)
}

} // verus!
