use vstd::prelude::*;

use vstd::arithmetic::div_mod::{lemma_fundamental_div_mod, lemma_fundamental_div_mod_converse};

use crate::error::ErrorCode;

verus! {

/// Scale of the protocol's USD-pegged synthetic amounts.
pub const XUSD_SCALE: u8 = 6;

/// Scale of the staking-token (SNY) amounts.
pub const SNY_SCALE: u8 = 6;

/// Scale of oracle prices.
pub const PRICE_SCALE: u8 = 8;

/// Scale of percentage literals.
pub const UNIFIED_PERCENT_SCALE: u8 = 5;

/// Scale of interest-rate accumulators.
pub const INTEREST_RATE_SCALE: u8 = 18;

/// The largest scale whose denominator `10^scale` fits in a `u128`.
pub const MAX_SCALE: u8 = 38;

/// `10^n` as a mathematical integer.
pub open spec fn pow10(n: nat) -> nat
    decreases n,
{
    if n == 0 {
        1
    } else {
        10 * pow10((n - 1) as nat)
    }
}

/// `a / b` rounded towards positive infinity.
pub open spec fn ceil_div(a: int, b: int) -> int
    recommends
        b > 0,
{
    (a + b - 1) / b
}

pub proof fn lemma_pow10_positive(n: nat)
    ensures
        pow10(n) >= 1,
    decreases n,
{
    if n > 0 {
        lemma_pow10_positive((n - 1) as nat);
    }
}

pub proof fn lemma_pow10_monotonic(a: nat, b: nat)
    requires
        a <= b,
    ensures
        pow10(a) <= pow10(b),
    decreases b,
{
    if a < b {
        lemma_pow10_monotonic(a, (b - 1) as nat);
        lemma_pow10_positive((b - 1) as nat);
    }
}

pub proof fn lemma_pow10_fits(n: nat)
    requires
        n <= MAX_SCALE,
    ensures
        pow10(n) <= u128::MAX,
{
    lemma_pow10_monotonic(n, 38);
    assert(pow10(0) == 1);
    assert(pow10(1) == 10);
    assert(pow10(2) == 100);
    assert(pow10(3) == 1000);
    assert(pow10(4) == 10000);
    assert(pow10(5) == 100000);
    assert(pow10(6) == 1000000);
    assert(pow10(7) == 10000000);
    assert(pow10(8) == 100000000);
    assert(pow10(9) == 1000000000);
    assert(pow10(10) == 10000000000);
    assert(pow10(11) == 100000000000);
    assert(pow10(12) == 1000000000000);
    assert(pow10(13) == 10000000000000);
    assert(pow10(14) == 100000000000000);
    assert(pow10(15) == 1000000000000000);
    assert(pow10(16) == 10000000000000000);
    assert(pow10(17) == 100000000000000000);
    assert(pow10(18) == 1000000000000000000);
    assert(pow10(19) == 10000000000000000000);
    assert(pow10(20) == 100000000000000000000);
    assert(pow10(21) == 1000000000000000000000);
    assert(pow10(22) == 10000000000000000000000);
    assert(pow10(23) == 100000000000000000000000);
    assert(pow10(24) == 1000000000000000000000000);
    assert(pow10(25) == 10000000000000000000000000);
    assert(pow10(26) == 100000000000000000000000000);
    assert(pow10(27) == 1000000000000000000000000000);
    assert(pow10(28) == 10000000000000000000000000000);
    assert(pow10(29) == 100000000000000000000000000000);
    assert(pow10(30) == 1000000000000000000000000000000);
    assert(pow10(31) == 10000000000000000000000000000000);
    assert(pow10(32) == 100000000000000000000000000000000);
    assert(pow10(33) == 1000000000000000000000000000000000);
    assert(pow10(34) == 10000000000000000000000000000000000);
    assert(pow10(35) == 100000000000000000000000000000000000);
    assert(pow10(36) == 1000000000000000000000000000000000000);
    assert(pow10(37) == 10000000000000000000000000000000000000);
    assert(pow10(38) == 100000000000000000000000000000000000000);
}

/// Computes `10^exp`.
fn ten_pow(exp: u8) -> (r: u128)
    requires
        exp <= MAX_SCALE,
    ensures
        r == pow10(exp as nat),
        r >= 1,
{
    proof {
        lemma_pow10_positive(exp as nat);
    }
    let mut r: u128 = 1;
    let mut i: u8 = 0;
    while i < exp
        invariant
            i <= exp,
            exp <= MAX_SCALE,
            r == pow10(i as nat),
        decreases exp - i,
    {
        proof {
            lemma_pow10_fits((i + 1) as nat);
        }
        r = r * 10;
        i = i + 1;
    }
    r
}


/// A fixed-point number: `val / 10^scale`.
#[derive(Clone, Copy, Debug, PartialEq, Eq, Structural)]
pub struct Decimal {
    pub val: u128,
    pub scale: u8,
}

/// One step of exponentiation by squaring at denominator `d`: the result is
/// multiplied by the base when the low bit of `exp` is set, then the base is
/// squared; every product is truncated back to the denominator.
pub open spec fn pow_steps(result: nat, base: nat, exp: nat, d: nat) -> nat
    decreases exp,
{
    if exp == 0 {
        result
    } else {
        let next = if exp % 2 == 1 { result * base / d } else { result };
        pow_steps(next, base * base / d, exp / 2, d)
    }
}

/// Whether every product formed by `pow_steps` fits in a `u128`.
pub open spec fn pow_fits(result: nat, base: nat, exp: nat, d: nat) -> bool
    decreases exp,
{
    if exp == 0 {
        true
    } else {
        let next = if exp % 2 == 1 { result * base / d } else { result };
        &&& (exp % 2 == 1 ==> result * base <= u128::MAX)
        &&& base * base <= u128::MAX
        &&& pow_fits(next, base * base / d, exp / 2, d)
    }
}

impl Decimal {
    /// The denominator `10^scale`.
    pub open spec fn denom(self) -> nat {
        pow10(self.scale as nat)
    }

    /// `self` at `scale`, truncating when the scale narrows.
    pub open spec fn rescaled(self, scale: u8) -> nat {
        if self.scale > scale {
            self.val as nat / pow10((self.scale - scale) as nat)
        } else {
            self.val as nat * pow10((scale - self.scale) as nat)
        }
    }

    /// `self` at `scale`, rounding up when the scale narrows.
    pub open spec fn rescaled_up(self, scale: u8) -> nat {
        if self.scale >= scale {
            ceil_div(self.val as int, pow10((self.scale - scale) as nat) as int) as nat
        } else {
            self.val as nat * pow10((scale - self.scale) as nat)
        }
    }

    /// Whether the two scales are at most `MAX_SCALE` apart.
    pub open spec fn scale_gap_ok(self, scale: u8) -> bool {
        if self.scale > scale {
            self.scale - scale <= MAX_SCALE
        } else {
            scale - self.scale <= MAX_SCALE
        }
    }

    pub open spec fn can_rescale(self, scale: u8) -> bool {
        self.scale_gap_ok(scale) && self.rescaled(scale) <= u128::MAX
    }

    pub open spec fn can_rescale_up(self, scale: u8) -> bool {
        &&& self.scale_gap_ok(scale)
        &&& self.scale >= scale ==> self.val + pow10((self.scale - scale) as nat) - 1 <= u128::MAX
        &&& self.rescaled_up(scale) <= u128::MAX
    }

    pub open spec fn spec_to_scale(self, scale: u8) -> Decimal {
        Decimal { val: self.rescaled(scale) as u128, scale }
    }

    pub open spec fn spec_to_scale_up(self, scale: u8) -> Decimal {
        Decimal { val: self.rescaled_up(scale) as u128, scale }
    }

    /// The product, at the left operand's scale, truncated.
    pub open spec fn spec_mul(self, other: Decimal) -> Decimal {
        Decimal { val: (self.val * other.val / (other.denom() as int)) as u128, scale: self.scale }
    }

    /// The product, at the left operand's scale, rounded up.
    pub open spec fn spec_mul_up(self, other: Decimal) -> Decimal {
        Decimal { val: ceil_div(self.val * other.val, other.denom() as int) as u128, scale: self.scale }
    }

    /// The quotient, at the left operand's scale, truncated.
    pub open spec fn spec_div(self, other: Decimal) -> Decimal {
        Decimal { val: (self.val * other.denom() / (other.val as int)) as u128, scale: self.scale }
    }

    /// The quotient, at the left operand's scale, rounded up.
    pub open spec fn spec_div_up(self, other: Decimal) -> Decimal {
        Decimal { val: ceil_div(self.val * other.denom(), other.val as int) as u128, scale: self.scale }
    }

    /// Net power-of-ten shift of `div_to_scale`: positive when digits are dropped.
    pub open spec fn div_shift(self, other: Decimal, to_scale: u8) -> int {
        self.scale - to_scale - other.scale
    }

    /// The quotient at `to_scale`: digits are dropped after dividing, or added before.
    pub open spec fn spec_div_to_scale(self, other: Decimal, to_scale: u8) -> Decimal {
        let shift = self.div_shift(other, to_scale);
        Decimal {
            val: (if shift > 0 {
                self.val as nat / other.val as nat / pow10(shift as nat)
            } else {
                self.val as nat * pow10((-shift) as nat) / other.val as nat
            }) as u128,
            scale: to_scale,
        }
    }

    /// `self^exp` at `self`'s scale, by truncated squaring.
    pub open spec fn spec_pow(self, exp: nat) -> Decimal {
        Decimal { val: pow_steps(self.denom(), self.val as nat, exp, self.denom()) as u128, scale: self.scale }
    }

    pub open spec fn can_pow(self, exp: nat) -> bool {
        self.scale <= MAX_SCALE && pow_fits(self.denom(), self.val as nat, exp, self.denom())
    }

    /// One, at `self`'s scale.
    pub open spec fn spec_one(self) -> Decimal {
        Decimal { val: self.denom() as u128, scale: self.scale }
    }

    pub fn new(value: u128, scale: u8) -> (r: Self)
        ensures
            r.val == value,
            r.scale == scale,
    {
        Self { val: value, scale }
    }

    pub fn denominator(self) -> (r: u128)
        requires
            self.scale <= MAX_SCALE,
        ensures
            r == self.denom(),
            r >= 1,
    {
        ten_pow(self.scale)
    }

    pub fn from_unified_percent(percent: u16) -> (r: Self)
        ensures
            r.val == percent,
            r.scale == UNIFIED_PERCENT_SCALE,
    {
        Decimal { val: percent as u128, scale: UNIFIED_PERCENT_SCALE }
    }

    /// `percent`/100, at the percentage scale.
    pub fn from_percent(percent: u16) -> (r: Self)
        ensures
            r.val == percent * 1000,
            r.scale == UNIFIED_PERCENT_SCALE,
    {
        assert(pow10(3) == 1000) by {
            reveal_with_fuel(pow10, 4);
        }
        Decimal::new(percent as u128, 2).to_percent()
    }

    pub fn from_integer(integer: u64) -> (r: Self)
        ensures
            r.val == integer,
            r.scale == 0,
    {
        Decimal { val: integer as u128, scale: 0 }
    }

    pub fn from_price(price: u128) -> (r: Self)
        ensures
            r.val == price,
            r.scale == PRICE_SCALE,
    {
        Decimal { val: price, scale: PRICE_SCALE }
    }

    pub fn from_usd(value: u128) -> (r: Self)
        ensures
            r.val == value,
            r.scale == XUSD_SCALE,
    {
        Decimal { val: value, scale: XUSD_SCALE }
    }

    pub fn from_sny(value: u128) -> (r: Self)
        ensures
            r.val == value,
            r.scale == SNY_SCALE,
    {
        Decimal { val: value, scale: SNY_SCALE }
    }

    pub fn from_interest_rate(value: u128) -> (r: Self)
        ensures
            r.val == value,
            r.scale == INTEREST_RATE_SCALE,
    {
        Decimal { val: value, scale: INTEREST_RATE_SCALE }
    }

    pub fn to_usd(self) -> (r: Decimal)
        requires
            self.can_rescale(XUSD_SCALE),
        ensures
            r == self.spec_to_scale(XUSD_SCALE),
    {
        self.to_scale(XUSD_SCALE)
    }

    pub fn to_usd_up(self) -> (r: Decimal)
        requires
            self.can_rescale_up(XUSD_SCALE),
        ensures
            r == self.spec_to_scale_up(XUSD_SCALE),
    {
        self.to_scale_up(XUSD_SCALE)
    }

    pub fn to_sny(self) -> (r: Decimal)
        requires
            self.can_rescale(SNY_SCALE),
        ensures
            r == self.spec_to_scale(SNY_SCALE),
    {
        self.to_scale(SNY_SCALE)
    }

    pub fn to_price(self) -> (r: Decimal)
        requires
            self.can_rescale(PRICE_SCALE),
        ensures
            r == self.spec_to_scale(PRICE_SCALE),
    {
        self.to_scale(PRICE_SCALE)
    }

    pub fn to_u64(self) -> (r: u64)
        requires
            self.val <= u64::MAX,
        ensures
            r == self.val,
    {
        self.val as u64
    }

    pub fn to_interest_rate(self) -> (r: Self)
        requires
            self.can_rescale(INTEREST_RATE_SCALE),
        ensures
            r == self.spec_to_scale(INTEREST_RATE_SCALE),
    {
        self.to_scale(INTEREST_RATE_SCALE)
    }

    pub fn to_percent(self) -> (r: Self)
        requires
            self.can_rescale(UNIFIED_PERCENT_SCALE),
        ensures
            r == self.spec_to_scale(UNIFIED_PERCENT_SCALE),
    {
        self.to_scale(UNIFIED_PERCENT_SCALE)
    }

    pub fn to_scale(self, scale: u8) -> (r: Self)
        requires
            self.can_rescale(scale),
        ensures
            r == self.spec_to_scale(scale),
    {
        let val = if self.scale > scale {
            self.val / ten_pow(self.scale - scale)
        } else {
            let p = ten_pow(scale - self.scale);
            self.val * p
        };
        Self { val, scale }
    }

    pub fn to_scale_up(self, scale: u8) -> (r: Self)
        requires
            self.can_rescale_up(scale),
        ensures
            r == self.spec_to_scale_up(scale),
    {
        let decimal = Self::new(self.val, scale);
        assert(pow10(0) == 1);
        if self.scale >= scale {
            let p = ten_pow(self.scale - scale);
            let divisor = Self::new(p, 0);
            assert(divisor.denom() == 1);
            assert(decimal.val * divisor.denom() == self.val);
            decimal.div_up(divisor)
        } else {
            let p = ten_pow(scale - self.scale);
            let factor = Self::new(p, 0);
            assert(factor.denom() == 1);
            assert(ceil_div(decimal.val * p, 1) == decimal.val * p);
            decimal.mul_up(factor)
        }
    }
}

/// Subtraction of decimals of one scale.
pub trait Sub<T>: Sized {
    /// Whether `sub` returns without overflow.
    spec fn sub_ok(self, rhs: T) -> bool;

    fn sub(self, rhs: T) -> Result<Self, ErrorCode>
        requires
            self.sub_ok(rhs),
    ;
}

/// Addition of decimals of one scale.
pub trait Add<T>: Sized {
    /// Whether `add` returns without overflow.
    spec fn add_ok(self, rhs: T) -> bool;

    fn add(self, rhs: T) -> Result<Self, ErrorCode>
        requires
            self.add_ok(rhs),
    ;
}

/// Truncating division.
pub trait Div<T>: Sized {
    /// Whether `div` returns without overflow or division by zero.
    spec fn div_ok(self, rhs: T) -> bool;

    fn div(self, rhs: T) -> Self
        requires
            self.div_ok(rhs),
    ;
}

/// Division into a chosen result scale.
pub trait DivScale<T> {
    /// Whether `div_to_scale` returns without overflow or division by zero.
    spec fn div_to_scale_ok(self, rhs: T, to_scale: u8) -> bool;

    fn div_to_scale(self, rhs: T, to_scale: u8) -> Self
        requires
            self.div_to_scale_ok(rhs, to_scale),
    ;
}

/// Division rounded up.
pub trait DivUp<T>: Sized {
    /// Whether `div_up` returns without overflow or division by zero.
    spec fn div_up_ok(self, rhs: T) -> bool;

    fn div_up(self, rhs: T) -> Self
        requires
            self.div_up_ok(rhs),
    ;
}

/// Truncating multiplication.
pub trait Mul<T>: Sized {
    /// Whether `mul` returns without overflow.
    spec fn mul_ok(self, rhs: T) -> bool;

    fn mul(self, rhs: T) -> Self
        requires
            self.mul_ok(rhs),
    ;
}

/// Multiplication rounded up.
pub trait MulUp<T>: Sized {
    /// Whether `mul_up` returns without overflow.
    spec fn mul_up_ok(self, rhs: T) -> bool;

    fn mul_up(self, rhs: T) -> Self
        requires
            self.mul_up_ok(rhs),
    ;
}

/// Exponentiation at the base's own scale.
pub trait PowAccuracy<T>: Sized {
    /// Whether `pow_with_accuracy` returns without overflow.
    spec fn pow_ok(self, exp: T) -> bool;

    fn pow_with_accuracy(self, exp: T) -> Self
        requires
            self.pow_ok(exp),
    ;
}

/// Comparison of decimals of one scale.
pub trait Compare<T>: Sized {
    fn eq(self, rhs: T) -> Result<bool, ErrorCode>;

    fn lt(self, rhs: T) -> Result<bool, ErrorCode>;

    fn gt(self, rhs: T) -> Result<bool, ErrorCode>;

    fn gte(self, rhs: T) -> Result<bool, ErrorCode>;

    fn lte(self, rhs: T) -> Result<bool, ErrorCode>;
}

impl Mul<Decimal> for Decimal {
    open spec fn mul_ok(self, rhs: Decimal) -> bool {
        rhs.scale <= MAX_SCALE && self.val * rhs.val <= u128::MAX
    }

    fn mul(self, value: Decimal) -> (r: Self)
        ensures
            r == self.spec_mul(value),
    {
        let d = value.denominator();
        Self { val: self.val * value.val / d, scale: self.scale }
    }
}

impl Mul<u128> for Decimal {
    open spec fn mul_ok(self, rhs: u128) -> bool {
        self.val * rhs <= u128::MAX
    }

    fn mul(self, value: u128) -> (r: Self)
        ensures
            r.val == self.val * value,
            r.scale == self.scale,
    {
        Self { val: self.val * value, scale: self.scale }
    }
}

impl MulUp<Decimal> for Decimal {
    open spec fn mul_up_ok(self, rhs: Decimal) -> bool {
        rhs.scale <= MAX_SCALE && self.val * rhs.val + rhs.denom() - 1 <= u128::MAX
    }

    fn mul_up(self, other: Decimal) -> (r: Self)
        ensures
            r == self.spec_mul_up(other),
    {
        let denominator = other.denominator();
        Self { val: (self.val * other.val + (denominator - 1)) / denominator, scale: self.scale }
    }
}

impl Add<Decimal> for Decimal {
    open spec fn add_ok(self, rhs: Decimal) -> bool {
        self.scale == rhs.scale ==> self.val + rhs.val <= u128::MAX
    }

    fn add(self, value: Decimal) -> (r: Result<Self, ErrorCode>)
        ensures
            self.scale != value.scale ==> r == Err::<Decimal, ErrorCode>(ErrorCode::DifferentScale),
            self.scale == value.scale ==> r == Ok::<Decimal, ErrorCode>(
                Decimal { val: (self.val + value.val) as u128, scale: self.scale },
            ),
    {
        if self.scale != value.scale {
            return Err(ErrorCode::DifferentScale);
        }
        Ok(Self { val: self.val + value.val, scale: self.scale })
    }
}

impl Sub<Decimal> for Decimal {
    open spec fn sub_ok(self, rhs: Decimal) -> bool {
        self.scale == rhs.scale ==> self.val >= rhs.val
    }

    fn sub(self, value: Decimal) -> (r: Result<Self, ErrorCode>)
        ensures
            self.scale != value.scale ==> r == Err::<Decimal, ErrorCode>(ErrorCode::DifferentScale),
            self.scale == value.scale ==> r == Ok::<Decimal, ErrorCode>(
                Decimal { val: (self.val - value.val) as u128, scale: self.scale },
            ),
    {
        if self.scale != value.scale {
            return Err(ErrorCode::DifferentScale);
        }
        Ok(Self { val: self.val - value.val, scale: self.scale })
    }
}

impl Div<Decimal> for Decimal {
    open spec fn div_ok(self, rhs: Decimal) -> bool {
        rhs.val > 0 && rhs.scale <= MAX_SCALE && self.val * rhs.denom() <= u128::MAX
    }

    fn div(self, other: Decimal) -> (r: Self)
        ensures
            r == self.spec_div(other),
    {
        let d = other.denominator();
        Self { val: self.val * d / other.val, scale: self.scale }
    }
}

impl DivUp<Decimal> for Decimal {
    open spec fn div_up_ok(self, rhs: Decimal) -> bool {
        &&& rhs.val > 0
        &&& rhs.scale <= MAX_SCALE
        &&& self.val * rhs.denom() + rhs.val - 1 <= u128::MAX
    }

    fn div_up(self, other: Decimal) -> (r: Self)
        ensures
            r == self.spec_div_up(other),
    {
        let d = other.denominator();
        Self { val: (self.val * d + (other.val - 1)) / other.val, scale: self.scale }
    }
}

impl DivScale<Decimal> for Decimal {
    open spec fn div_to_scale_ok(self, rhs: Decimal, to_scale: u8) -> bool {
        let shift = self.div_shift(rhs, to_scale);
        &&& rhs.val > 0
        &&& shift > 0 ==> shift <= MAX_SCALE
        &&& shift <= 0 ==> -shift <= MAX_SCALE && self.val * pow10((-shift) as nat) <= u128::MAX
    }

    fn div_to_scale(self, other: Decimal, to_scale: u8) -> (r: Self)
        ensures
            r == self.spec_div_to_scale(other, to_scale),
    {
        let shift: i32 = self.scale as i32 - to_scale as i32 - other.scale as i32;
        let val = if shift > 0 {
            self.val / other.val / ten_pow(shift as u8)
        } else {
            let p = ten_pow((-shift) as u8);
            self.val * p / other.val
        };
        Self { val, scale: to_scale }
    }
}

impl PowAccuracy<u128> for Decimal {
    open spec fn pow_ok(self, exp: u128) -> bool {
        self.can_pow(exp as nat)
    }

    fn pow_with_accuracy(self, exp: u128) -> (r: Self)
        ensures
            r == self.spec_pow(exp as nat),
            exp == 0 ==> r == self.spec_one(),
            exp > 0 && self.val == 0 ==> r.val == 0,
    {
        let d = self.denominator();
        proof {
            if self.val == 0 {
                lemma_pow_steps_zero_base(self.denom(), exp as nat, self.denom());
            }
        }
        let one = Decimal { val: d, scale: self.scale };
        if exp == 0 {
            return one;
        }
        let mut current_exp = exp;
        let mut base = self;
        let mut result = one;
        while current_exp > 0
            invariant
                self.scale <= MAX_SCALE,
                d == self.denom(),
                d >= 1,
                base.scale == self.scale,
                result.scale == self.scale,
                pow_fits(result.val as nat, base.val as nat, current_exp as nat, d as nat),
                pow_steps(result.val as nat, base.val as nat, current_exp as nat, d as nat)
                    == pow_steps(d as nat, self.val as nat, exp as nat, d as nat),
            decreases current_exp,
        {
            if current_exp % 2 != 0 {
                result = result.mul(base);
            }
            current_exp = current_exp / 2;
            base = base.mul(base);
        }
        result
    }
}

impl Compare<Decimal> for Decimal {
    fn lte(self, other: Decimal) -> (r: Result<bool, ErrorCode>)
        ensures
            r == (if self.scale == other.scale {
                Ok::<bool, ErrorCode>(self.val <= other.val)
            } else {
                Err(ErrorCode::DifferentScale)
            }),
    {
        if self.scale != other.scale {
            return Err(ErrorCode::DifferentScale);
        }
        Ok(self.val <= other.val)
    }

    fn lt(self, other: Decimal) -> (r: Result<bool, ErrorCode>)
        ensures
            r == (if self.scale == other.scale {
                Ok::<bool, ErrorCode>(self.val < other.val)
            } else {
                Err(ErrorCode::DifferentScale)
            }),
    {
        if self.scale != other.scale {
            return Err(ErrorCode::DifferentScale);
        }
        Ok(self.val < other.val)
    }

    fn gt(self, other: Decimal) -> (r: Result<bool, ErrorCode>)
        ensures
            r == (if self.scale == other.scale {
                Ok::<bool, ErrorCode>(self.val > other.val)
            } else {
                Err(ErrorCode::DifferentScale)
            }),
    {
        if self.scale != other.scale {
            return Err(ErrorCode::DifferentScale);
        }
        Ok(self.val > other.val)
    }

    fn gte(self, other: Decimal) -> (r: Result<bool, ErrorCode>)
        ensures
            r == (if self.scale == other.scale {
                Ok::<bool, ErrorCode>(self.val >= other.val)
            } else {
                Err(ErrorCode::DifferentScale)
            }),
    {
        if self.scale != other.scale {
            return Err(ErrorCode::DifferentScale);
        }
        Ok(self.val >= other.val)
    }

    fn eq(self, other: Decimal) -> (r: Result<bool, ErrorCode>)
        ensures
            r == (if self.scale == other.scale {
                Ok::<bool, ErrorCode>(self.val == other.val)
            } else {
                Err(ErrorCode::DifferentScale)
            }),
    {
        if self.scale != other.scale {
            return Err(ErrorCode::DifferentScale);
        }
        Ok(self.val == other.val)
    }
}

/// With a zero base every product is zero, so all of them fit, and any
/// exponent with a set bit yields zero.
proof fn lemma_pow_steps_zero_base(result: nat, exp: nat, d: nat)
    requires
        d > 0,
    ensures
        pow_fits(result, 0, exp, d),
        exp > 0 ==> pow_steps(result, 0, exp, d) == 0,
    decreases exp,
{
    if exp > 0 {
        let next = if exp % 2 == 1 { result * 0 / d } else { result };
        assert(result * 0 == 0);
        assert(0nat * 0nat == 0);
        assert(0nat / d == 0);
        lemma_pow_steps_zero_base(next, exp / 2, d);
        assert(pow_steps(result, 0, exp, d) == pow_steps(next, 0, exp / 2, d));
    }
}

/// Products that fit leave a result that fits.
pub proof fn lemma_pow_steps_fits(result: nat, base: nat, exp: nat, d: nat)
    requires
        d > 0,
        result <= u128::MAX,
        pow_fits(result, base, exp, d),
    ensures
        pow_steps(result, base, exp, d) <= u128::MAX,
    decreases exp,
{
    if exp > 0 {
        let next = if exp % 2 == 1 { result * base / d } else { result };
        assert(result * base / d <= result * base) by (nonlinear_arith)
            requires
                d > 0,
        ;
        lemma_pow_steps_fits(next, base * base / d, exp / 2, d);
    }
}

/// Raising any decimal to the power zero gives one at its own scale.
pub proof fn lemma_pow_zero_exponent(x: Decimal)
    requires
        x.scale <= MAX_SCALE,
    ensures
        x.can_pow(0),
        x.spec_pow(0) == x.spec_one(),
{
}

/// Raising zero to a positive power gives zero, and never overflows.
pub proof fn lemma_pow_of_zero(x: Decimal, n: nat)
    requires
        x.val == 0,
        x.scale <= MAX_SCALE,
        n > 0,
    ensures
        x.can_pow(n),
        x.spec_pow(n).val == 0,
{
    lemma_pow10_positive(x.scale as nat);
    lemma_pow_steps_zero_base(x.denom(), n, x.denom());
}

/// Rescaling a decimal to the scale it already has gives it back unchanged.
pub proof fn lemma_to_scale_same_scale(a: Decimal)
    ensures
        a.can_rescale(a.scale),
        a.spec_to_scale(a.scale) == a,
{
    assert(pow10(0) == 1);
    assert(a.rescaled(a.scale) == a.val as nat * pow10(0));
    assert(a.val as nat * 1 == a.val as nat);
}

/// Division rounded up is never below truncating division, and the two agree
/// exactly when the scaled dividend is a multiple of the divisor.
pub proof fn lemma_div_up_at_least_div(a: Decimal, b: Decimal)
    requires
        a.div_up_ok(b),
    ensures
        a.spec_div_up(b).val >= a.spec_div(b).val,
        a.spec_div_up(b).val == a.spec_div(b).val <==> (a.val * b.denom()) % (b.val as int) == 0,
{
    let x = a.val * b.denom();
    let y = b.val as int;
    lemma_fundamental_div_mod(x, y);
    let q = x / y;
    let r = x % y;
    if r == 0 {
        lemma_fundamental_div_mod_converse(x + y - 1, y, q, y - 1);
    } else {
        assert(x + y - 1 == (q + 1) * y + (r - 1)) by (nonlinear_arith)
            requires
                x == y * q + r,
        ;
        lemma_fundamental_div_mod_converse(x + y - 1, y, q + 1, r - 1);
    }
}

/// Widening a decimal's scale and then truncating back to its own scale gives
/// the same decimal, whether the widening step is the truncating or
/// the rounding-up rescale.
pub proof fn lemma_widen_then_narrow(a: Decimal, scale: u8)
    requires
        scale >= a.scale,
        a.can_rescale(scale),
    ensures
        a.can_rescale_up(scale),
        a.spec_to_scale_up(scale) == a.spec_to_scale(scale),
        a.spec_to_scale(scale).can_rescale(a.scale),
        a.spec_to_scale(scale).spec_to_scale(a.scale) == a,
{
    let p = pow10((scale - a.scale) as nat);
    lemma_pow10_positive((scale - a.scale) as nat);
    let v = a.val as nat;
    if scale == a.scale {
        assert(pow10(0) == 1);
        assert(p == 1);
        assert(v * 1 == v);
        assert(a.rescaled(scale) == v);
        assert(a.rescaled_up(scale) == ceil_div(v as int, 1));
        lemma_fundamental_div_mod_converse(v as int, 1, v as int, 0);
    } else {
        assert(v * p >= v) by (nonlinear_arith)
            requires
                p >= 1,
        ;
        lemma_fundamental_div_mod_converse((v * p) as int, p as int, v as int, 0);
    }
}

} // verus!
