use crate::error::{EclipseError, Result};
use core::cmp::Ordering;
use vstd::prelude::*;

verus! {

pub const U128_MAX: u128 = 340282366920938463463374607431768211455u128;

/// An atomic quantity of some asset.
#[derive(Debug, Clone, Copy, PartialEq, Eq, Structural, PartialOrd, Ord, Hash)]
pub struct Amount(pub u128);

impl Default for Amount {
    fn default() -> (r: Amount)
        ensures
            r.0 == 0,
    {
        Amount(0)
    }
}

impl Amount {
    pub fn new(value: u128) -> (r: Amount)
        ensures
            r.0 == value,
    {
        Amount(value)
    }

    pub fn raw(self) -> (r: u128)
        ensures
            r == self.0,
    {
        self.0
    }

    pub fn is_zero(self) -> (r: bool)
        ensures
            r == (self.0 == 0),
    {
        self.0 == 0
    }

    pub fn checked_add(self, rhs: Amount) -> (r: Result<Amount>)
        ensures
            self.0 + rhs.0 <= U128_MAX ==> r == Ok::<Amount, EclipseError>(Amount((self.0 + rhs.0) as u128)),
            self.0 + rhs.0 > U128_MAX ==> r == Err::<Amount, EclipseError>(EclipseError::AmountOverflow),
    {
        if rhs.0 <= U128_MAX - self.0 {
            Ok(Amount(self.0 + rhs.0))
        } else {
            Err(EclipseError::AmountOverflow)
        }
    }

    pub fn checked_sub(self, rhs: Amount) -> (r: Result<Amount>)
        ensures
            rhs.0 <= self.0 ==> r == Ok::<Amount, EclipseError>(Amount((self.0 - rhs.0) as u128)),
            rhs.0 > self.0 ==> r == Err::<Amount, EclipseError>(EclipseError::AmountUnderflow),
    {
        if rhs.0 <= self.0 {
            Ok(Amount(self.0 - rhs.0))
        } else {
            Err(EclipseError::AmountUnderflow)
        }
    }

    pub fn checked_mul(self, rhs: u128) -> (r: Result<Amount>)
        ensures
            self.0 * rhs <= U128_MAX ==> r == Ok::<Amount, EclipseError>(Amount((self.0 * rhs) as u128)),
            self.0 * rhs > U128_MAX ==> r == Err::<Amount, EclipseError>(EclipseError::AmountOverflow),
    {
        match self.0.checked_mul(rhs) {
            Some(v) => Ok(Amount(v)),
            None => Err(EclipseError::AmountOverflow),
        }
    }

    pub fn checked_div(self, rhs: u128) -> (r: Result<Amount>)
        ensures
            rhs == 0 ==> r == Err::<Amount, EclipseError>(EclipseError::DivisionByZero),
            rhs != 0 ==> r == Ok::<Amount, EclipseError>(Amount(self.0 / rhs)),
    {
        if rhs == 0 {
            return Err(EclipseError::DivisionByZero);
        }
        Ok(Amount(self.0 / rhs))
    }

    pub fn saturating_add(self, rhs: Amount) -> (r: Amount)
        ensures
            r.0 == (if self.0 + rhs.0 > U128_MAX { U128_MAX as int } else { self.0 + rhs.0 }),
    {
        Amount(self.0.saturating_add(rhs.0))
    }

    pub fn saturating_sub(self, rhs: Amount) -> (r: Amount)
        ensures
            r.0 == (if rhs.0 > self.0 { 0 } else { self.0 - rhs.0 }),
    {
        Amount(self.0.saturating_sub(rhs.0))
    }

    pub fn min(self, rhs: Amount) -> (r: Amount)
        ensures
            r.0 == (if self.0 <= rhs.0 { self.0 } else { rhs.0 }),
    {
        if self.0 <= rhs.0 { self } else { rhs }
    }

    pub fn max(self, rhs: Amount) -> (r: Amount)
        ensures
            r.0 == (if self.0 >= rhs.0 { self.0 } else { rhs.0 }),
    {
        if self.0 >= rhs.0 { self } else { rhs }
    }

    pub fn clamp(self, min: Amount, max: Amount) -> (r: Amount)
        requires
            min.0 <= max.0,
        ensures
            r.0 == (if self.0 < min.0 { min.0 } else if self.0 > max.0 { max.0 } else { self.0 }),
    {
        if self.0 < min.0 {
            min
        } else if self.0 > max.0 {
            max
        } else {
            self
        }
    }

    pub fn cmp_raw(&self, raw: u128) -> (r: Ordering)
        ensures
            (r == Ordering::Less) <==> self.0 < raw,
            (r == Ordering::Equal) <==> self.0 == raw,
            (r == Ordering::Greater) <==> self.0 > raw,
    {
        if self.0 < raw {
            Ordering::Less
        } else if self.0 == raw {
            Ordering::Equal
        } else {
            Ordering::Greater
        }
    }
}

/// `floor(amount * numerator / denominator)` when the product fits in 128 bits.
pub open spec fn floor_muldiv(amount: u128, numerator: u128, denominator: u128) -> int {
    (amount * numerator) / (denominator as int)
}

/// `ceil(amount * numerator / denominator)` as computed with the `denominator - 1` adjustment.
pub open spec fn ceil_muldiv(amount: u128, numerator: u128, denominator: u128) -> int {
    (amount * numerator + denominator - 1) / (denominator as int)
}

pub fn mul_div_floor(amount: Amount, numerator: u128, denominator: u128) -> (r: Result<Amount>)
    ensures
        denominator == 0 ==> r == Err::<Amount, EclipseError>(EclipseError::DivisionByZero),
        denominator != 0 && amount.0 * numerator > U128_MAX
            ==> r == Err::<Amount, EclipseError>(EclipseError::AmountOverflow),
        denominator != 0 && amount.0 * numerator <= U128_MAX
            ==> r == Ok::<Amount, EclipseError>(Amount(floor_muldiv(amount.0, numerator, denominator) as u128)),
{
    if denominator == 0 {
        return Err(EclipseError::DivisionByZero);
    }
    match amount.0.checked_mul(numerator) {
        Some(value) => Ok(Amount(value / denominator)),
        None => Err(EclipseError::AmountOverflow),
    }
}

pub fn mul_div_ceil(amount: Amount, numerator: u128, denominator: u128) -> (r: Result<Amount>)
    ensures
        denominator == 0 ==> r == Err::<Amount, EclipseError>(EclipseError::DivisionByZero),
        denominator != 0 && amount.0 * numerator + denominator - 1 > U128_MAX
            ==> r == Err::<Amount, EclipseError>(EclipseError::AmountOverflow),
        denominator != 0 && amount.0 * numerator + denominator - 1 <= U128_MAX
            ==> r == Ok::<Amount, EclipseError>(Amount(ceil_muldiv(amount.0, numerator, denominator) as u128)),
{
    if denominator == 0 {
        return Err(EclipseError::DivisionByZero);
    }
    let product = match amount.0.checked_mul(numerator) {
        Some(v) => v,
        None => return Err(EclipseError::AmountOverflow),
    };
    if product > U128_MAX - (denominator - 1) {
        return Err(EclipseError::AmountOverflow);
    }
    let adjusted = product + (denominator - 1);
    Ok(Amount(adjusted / denominator))
}

/// The rounded-down result never exceeds the rounded-up one, and they differ by at most one.
pub proof fn law_floor_le_ceil(amount: u128, numerator: u128, denominator: u128)
    requires
        denominator > 0,
    ensures
        floor_muldiv(amount, numerator, denominator) <= ceil_muldiv(amount, numerator, denominator),
        ceil_muldiv(amount, numerator, denominator) <= floor_muldiv(amount, numerator, denominator) + 1,
        (amount * numerator) % (denominator as int) == 0
            ==> ceil_muldiv(amount, numerator, denominator) == floor_muldiv(amount, numerator, denominator),
{
    let p: int = amount * numerator;
    let d: int = denominator as int;
    assert(p >= 0) by (nonlinear_arith)
        requires p == amount * numerator;
    vstd::arithmetic::div_mod::lemma_fundamental_div_mod(p, d);
    vstd::arithmetic::div_mod::lemma_fundamental_div_mod(p + d - 1, d);
    let q = p / d;
    let r = p % d;
    assert(p + d - 1 == d * q + (r + d - 1));
    if r == 0 {
        vstd::arithmetic::div_mod::lemma_div_multiples_vanish_fancy(q, d - 1, d);
    } else {
        vstd::arithmetic::div_mod::lemma_div_multiples_vanish_fancy(q + 1, r - 1, d);
        assert(d * q + (r + d - 1) == d * (q + 1) + (r - 1)) by (nonlinear_arith);
    }
}

/// The sum of a sequence of amounts.
pub open spec fn amount_sum(values: Seq<Amount>) -> int
    decreases values.len(),
{
    if values.len() == 0 {
        0
    } else {
        amount_sum(values.drop_last()) + values.last().0
    }
}

pub proof fn lemma_amount_sum_prefix(values: Seq<Amount>, i: int)
    requires
        0 <= i <= values.len(),
    ensures
        amount_sum(values.take(i)) <= amount_sum(values),
        amount_sum(values.take(i)) >= 0,
    decreases values.len() - i,
{
    if i < values.len() {
        lemma_amount_sum_prefix(values, i + 1);
        assert(values.take(i + 1).drop_last() == values.take(i));
    } else {
        assert(values.take(i) == values);
    }
    lemma_amount_sum_nonneg(values.take(i));
}

pub proof fn lemma_amount_sum_nonneg(values: Seq<Amount>)
    ensures
        amount_sum(values) >= 0,
    decreases values.len(),
{
    if values.len() > 0 {
        lemma_amount_sum_nonneg(values.drop_last());
    }
}

/// Adds up the amounts, failing with an overflow when the total does not fit.
pub fn checked_sum(values: &[Amount]) -> (r: Result<Amount>)
    ensures
        amount_sum(values@) <= U128_MAX ==> r == Ok::<Amount, EclipseError>(Amount(amount_sum(values@) as u128)),
        amount_sum(values@) > U128_MAX ==> r == Err::<Amount, EclipseError>(EclipseError::AmountOverflow),
{
    let mut acc = Amount(0);
    let mut i: usize = 0;
    while i < values.len()
        invariant
            0 <= i <= values@.len(),
            acc.0 == amount_sum(values@.take(i as int)),
        decreases values.len() - i,
    {
        proof {
            assert(values@.take(i + 1).drop_last() == values@.take(i as int));
            lemma_amount_sum_prefix(values@, i + 1);
        }
        match acc.checked_add(values[i]) {
            Ok(next) => acc = next,
            Err(e) => {
                return Err(e);
            },
        }
        i = i + 1;
    }
    proof { assert(values@.take(i as int) == values@); }
    Ok(acc)
}

/// Subtracts each amount in turn from `start`, failing with an underflow when the total exceeds it.
pub fn checked_difference(start: Amount, values: &[Amount]) -> (r: Result<Amount>)
    ensures
        amount_sum(values@) <= start.0 ==> r == Ok::<Amount, EclipseError>(Amount((start.0 - amount_sum(values@)) as u128)),
        amount_sum(values@) > start.0 ==> r == Err::<Amount, EclipseError>(EclipseError::AmountUnderflow),
{
    let mut acc = start;
    let mut i: usize = 0;
    while i < values.len()
        invariant
            0 <= i <= values@.len(),
            acc.0 == start.0 - amount_sum(values@.take(i as int)),
        decreases values.len() - i,
    {
        proof {
            assert(values@.take(i + 1).drop_last() == values@.take(i as int));
            lemma_amount_sum_prefix(values@, i + 1);
        }
        match acc.checked_sub(values[i]) {
            Ok(next) => acc = next,
            Err(e) => {
                return Err(e);
            },
        }
        i = i + 1;
    }
    proof { assert(values@.take(i as int) == values@); }
    Ok(acc)
}

/// A share expressed in basis points (1/10000).
#[derive(Debug, Clone, Copy, PartialEq, Eq, Structural)]
pub struct BasisPoints(pub u32);

impl BasisPoints {
    pub fn new(value: u32) -> (r: Result<BasisPoints>)
        ensures
            value <= 10_000 ==> r == Ok::<BasisPoints, EclipseError>(BasisPoints(value)),
            value > 10_000 ==> r == Err::<BasisPoints, EclipseError>(EclipseError::InvalidBasisPoints(value)),
    {
        if value > 10_000 {
            return Err(EclipseError::InvalidBasisPoints(value));
        }
        Ok(BasisPoints(value))
    }

    pub fn raw(self) -> (r: u32)
        ensures
            r == self.0,
    {
        self.0
    }

    pub fn checked_amount_floor(self, amount: Amount) -> (r: Result<Amount>)
        ensures
            amount.0 * self.0 > U128_MAX ==> r == Err::<Amount, EclipseError>(EclipseError::AmountOverflow),
            amount.0 * self.0 <= U128_MAX
                ==> r == Ok::<Amount, EclipseError>(Amount(floor_muldiv(amount.0, self.0 as u128, 10_000) as u128)),
    {
        mul_div_floor(amount, self.0 as u128, 10_000)
    }

    pub fn checked_amount_ceil(self, amount: Amount) -> (r: Result<Amount>)
        ensures
            amount.0 * self.0 + 9_999 > U128_MAX ==> r == Err::<Amount, EclipseError>(EclipseError::AmountOverflow),
            amount.0 * self.0 + 9_999 <= U128_MAX
                ==> r == Ok::<Amount, EclipseError>(Amount(ceil_muldiv(amount.0, self.0 as u128, 10_000) as u128)),
    {
        mul_div_ceil(amount, self.0 as u128, 10_000)
    }

    pub fn complement(self) -> (r: BasisPoints)
        ensures
            r.0 == complement_spec(self),
    {
        BasisPoints(10_000u32.saturating_sub(self.0))
    }

    pub fn is_zero(self) -> (r: bool)
        ensures
            r == (self.0 == 0),
    {
        self.0 == 0
    }
}

/// The complement of a share: what is left of the whole, or nothing for a share above it.
pub open spec fn complement_spec(bps: BasisPoints) -> u32 {
    if bps.0 >= 10_000 { 0 } else { (10_000 - bps.0) as u32 }
}

/// A valid share and its complement make up the whole, and complementing twice gives the share back.
pub proof fn law_complement_sums_to_whole(bps: BasisPoints)
    requires
        bps.0 <= 10_000,
    ensures
        bps.0 + complement_spec(bps) == 10_000,
        complement_spec(BasisPoints(complement_spec(bps))) == bps.0,
{
}

/// A rational price `numerator / denominator`.
#[derive(Debug, Clone, Copy, PartialEq, Eq, Structural)]
pub struct Ratio {
    pub numerator: u128,
    pub denominator: u128,
}

impl Ratio {
    pub fn new(numerator: u128, denominator: u128) -> (r: Result<Ratio>)
        ensures
            denominator == 0 ==> r == Err::<Ratio, EclipseError>(EclipseError::DivisionByZero),
            denominator != 0 ==> r == Ok::<Ratio, EclipseError>(Ratio { numerator, denominator }),
    {
        if denominator == 0 {
            return Err(EclipseError::DivisionByZero);
        }
        Ok(Ratio { numerator, denominator })
    }

    pub fn one() -> (r: Ratio)
        ensures
            r.numerator == 1 && r.denominator == 1,
    {
        Ratio { numerator: 1, denominator: 1 }
    }

    pub fn apply_floor(self, amount: Amount) -> (r: Result<Amount>)
        ensures
            r == mul_div_floor_result(amount, self.numerator, self.denominator),
    {
        mul_div_floor(amount, self.numerator, self.denominator)
    }

    pub fn apply_ceil(self, amount: Amount) -> (r: Result<Amount>)
        ensures
            self.denominator == 0 ==> r == Err::<Amount, EclipseError>(EclipseError::DivisionByZero),
            self.denominator != 0 && amount.0 * self.numerator + self.denominator - 1 > U128_MAX
                ==> r == Err::<Amount, EclipseError>(EclipseError::AmountOverflow),
            self.denominator != 0 && amount.0 * self.numerator + self.denominator - 1 <= U128_MAX
                ==> r == Ok::<Amount, EclipseError>(Amount(ceil_muldiv(amount.0, self.numerator, self.denominator) as u128)),
    {
        mul_div_ceil(amount, self.numerator, self.denominator)
    }

    pub fn invert(self) -> (r: Result<Ratio>)
        ensures
            self.numerator == 0 ==> r == Err::<Ratio, EclipseError>(EclipseError::DivisionByZero),
            self.numerator != 0 ==> r == Ok::<Ratio, EclipseError>(inverted(self)),
    {
        if self.numerator == 0 {
            return Err(EclipseError::DivisionByZero);
        }
        Ok(Ratio { numerator: self.denominator, denominator: self.numerator })
    }

    pub fn multiply(self, rhs: Ratio) -> (r: Result<Ratio>)
        ensures
            self.numerator * rhs.numerator <= U128_MAX && self.denominator * rhs.denominator <= U128_MAX
                ==> r == Ok::<Ratio, EclipseError>(Ratio {
                    numerator: (self.numerator * rhs.numerator) as u128,
                    denominator: (self.denominator * rhs.denominator) as u128,
                }),
            self.numerator * rhs.numerator > U128_MAX || self.denominator * rhs.denominator > U128_MAX
                ==> r == Err::<Ratio, EclipseError>(EclipseError::AmountOverflow),
    {
        let numerator = match self.numerator.checked_mul(rhs.numerator) {
            Some(v) => v,
            None => return Err(EclipseError::AmountOverflow),
        };
        let denominator = match self.denominator.checked_mul(rhs.denominator) {
            Some(v) => v,
            None => return Err(EclipseError::AmountOverflow),
        };
        Ok(Ratio { numerator, denominator })
    }

    pub fn as_bps_floor(self) -> (r: Result<BasisPoints>)
        requires
            self.denominator != 0,
        ensures
            self.numerator * 10_000 > U128_MAX ==> r == Err::<BasisPoints, EclipseError>(EclipseError::AmountOverflow),
            self.numerator * 10_000 <= U128_MAX ==> r == Ok::<BasisPoints, EclipseError>(BasisPoints(
                (if (self.numerator * 10_000) / (self.denominator as int) > 10_000 { 10_000 }
                 else { (self.numerator * 10_000) / (self.denominator as int) }) as u32)),
    {
        let scaled = match self.numerator.checked_mul(10_000) {
            Some(v) => v,
            None => return Err(EclipseError::AmountOverflow),
        };
        let raw = scaled / self.denominator;
        let capped = if raw > 10_000 { 10_000 } else { raw };
        BasisPoints::new(capped as u32)
    }
}

/// The result that `mul_div_floor` gives on these arguments.
pub open spec fn mul_div_floor_result(amount: Amount, numerator: u128, denominator: u128) -> Result<Amount> {
    if denominator == 0 {
        Err(EclipseError::DivisionByZero)
    } else if amount.0 * numerator > U128_MAX {
        Err(EclipseError::AmountOverflow)
    } else {
        Ok(Amount(floor_muldiv(amount.0, numerator, denominator) as u128))
    }
}

/// The price with numerator and denominator swapped.
pub open spec fn inverted(ratio: Ratio) -> Ratio {
    Ratio { numerator: ratio.denominator, denominator: ratio.numerator }
}

/// Inverting a price twice gives it back, and an invertible price stays invertible.
pub proof fn law_invert_involution(ratio: Ratio)
    requires
        ratio.numerator != 0,
        ratio.denominator != 0,
    ensures
        inverted(ratio).numerator != 0,
        inverted(inverted(ratio)) == ratio,
{
}

/// An inclusive range of amounts.
#[derive(Debug, Clone, Copy, PartialEq, Eq, Structural)]
pub struct AmountWindow {
    pub lower: Amount,
    pub upper: Amount,
}

impl AmountWindow {
    pub fn new(lower: Amount, upper: Amount) -> (r: Result<AmountWindow>)
        ensures
            lower.0 > upper.0 ==> r == Err::<AmountWindow, EclipseError>(EclipseError::AmountUnderflow),
            lower.0 <= upper.0 ==> r == Ok::<AmountWindow, EclipseError>(AmountWindow { lower, upper }),
    {
        if lower.0 > upper.0 {
            return Err(EclipseError::AmountUnderflow);
        }
        Ok(AmountWindow { lower, upper })
    }

    pub fn contains(self, value: Amount) -> (r: bool)
        ensures
            r == (self.lower.0 <= value.0 && value.0 <= self.upper.0),
    {
        value.0 >= self.lower.0 && value.0 <= self.upper.0
    }

    pub fn width(self) -> (r: Result<Amount>)
        ensures
            r == self.upper.checked_sub_spec(self.lower),
    {
        self.upper.checked_sub(self.lower)
    }

    pub fn expand(self, amount: Amount) -> (r: Result<AmountWindow>)
        ensures
            self.upper.0 + amount.0 > U128_MAX ==> r == Err::<AmountWindow, EclipseError>(EclipseError::AmountOverflow),
            self.upper.0 + amount.0 <= U128_MAX ==> r == Ok::<AmountWindow, EclipseError>(AmountWindow {
                lower: Amount(if amount.0 > self.lower.0 { 0 } else { (self.lower.0 - amount.0) as u128 }),
                upper: Amount((self.upper.0 + amount.0) as u128),
            }),
    {
        let upper = self.upper.checked_add(amount)?;
        Ok(AmountWindow { lower: self.lower.saturating_sub(amount), upper })
    }
}

impl Amount {
    /// The result of `checked_sub` on these amounts.
    pub open spec fn checked_sub_spec(self, rhs: Amount) -> Result<Amount> {
        if rhs.0 <= self.0 {
            Ok(Amount((self.0 - rhs.0) as u128))
        } else {
            Err(EclipseError::AmountUnderflow)
        }
    }
}

/// An output split into the operator's fee and what reaches the recipient.
#[derive(Debug, Clone, Copy, PartialEq, Eq, Structural)]
pub struct AmountBreakdown {
    pub gross: Amount,
    pub fee: Amount,
    pub net: Amount,
}

impl AmountBreakdown {
    pub fn new(gross: Amount, fee_bps: BasisPoints) -> (r: Result<AmountBreakdown>)
        ensures
            r == breakdown_from_bps(gross, fee_bps),
    {
        let fee = fee_bps.checked_amount_floor(gross)?;
        let net = gross.checked_sub(fee)?;
        Ok(AmountBreakdown { gross, fee, net })
    }

    pub fn with_fee(gross: Amount, fee: Amount) -> (r: Result<AmountBreakdown>)
        ensures
            r == breakdown_with_fee(gross, fee),
    {
        let net = gross.checked_sub(fee)?;
        Ok(AmountBreakdown { gross, fee, net })
    }

    pub fn is_empty(&self) -> (r: bool)
        ensures
            r == (self.gross.0 == 0 && self.fee.0 == 0 && self.net.0 == 0),
    {
        self.gross.is_zero() && self.fee.is_zero() && self.net.is_zero()
    }

    pub fn fee_ratio(&self) -> (r: Result<Ratio>)
        ensures
            self.gross.0 == 0 ==> r == Ok::<Ratio, EclipseError>(Ratio { numerator: 1, denominator: 1 }),
            self.gross.0 != 0 ==> r == Ok::<Ratio, EclipseError>(
                Ratio { numerator: self.fee.0, denominator: self.gross.0 }),
    {
        if self.gross.is_zero() {
            return Ok(Ratio::one());
        }
        Ratio::new(self.fee.raw(), self.gross.raw())
    }
}

/// The split of `gross` with a fee of exactly `fee`, or the underflow when the fee exceeds it.
pub open spec fn breakdown_with_fee(gross: Amount, fee: Amount) -> Result<AmountBreakdown> {
    if fee.0 > gross.0 {
        Err(EclipseError::AmountUnderflow)
    } else {
        Ok(AmountBreakdown { gross, fee, net: Amount((gross.0 - fee.0) as u128) })
    }
}

/// The split of `gross` with the fee rounded down from `fee_bps`.
pub open spec fn breakdown_from_bps(gross: Amount, fee_bps: BasisPoints) -> Result<AmountBreakdown> {
    if gross.0 * fee_bps.0 > U128_MAX {
        Err(EclipseError::AmountOverflow)
    } else {
        breakdown_with_fee(gross, Amount(floor_muldiv(gross.0, fee_bps.0 as u128, 10_000) as u128))
    }
}

/// A split with an explicit fee succeeds exactly when the fee does not exceed the gross output, and
/// then the fee and the net output add up to the gross output.
pub proof fn law_breakdown_splits_gross(gross: Amount, fee: Amount)
    ensures
        breakdown_with_fee(gross, fee) is Ok <==> fee.0 <= gross.0,
        breakdown_with_fee(gross, fee) is Ok ==> ({
            let b = breakdown_with_fee(gross, fee)->Ok_0;
            b.gross == gross && b.fee == fee && b.gross.0 == b.fee.0 + b.net.0
        }),
{
}

impl From<u128> for Amount {
    fn from(value: u128) -> (r: Amount) {
        Amount(value)
    }
}

impl vstd::std_specs::convert::FromSpecImpl<u128> for Amount {
    open spec fn obeys_from_spec() -> bool {
        true
    }

    open spec fn from_spec(v: u128) -> Amount {
        Amount(v)
    }
}

impl From<u64> for Amount {
    fn from(value: u64) -> (r: Amount) {
        Amount(value as u128)
    }
}

impl vstd::std_specs::convert::FromSpecImpl<u64> for Amount {
    open spec fn obeys_from_spec() -> bool {
        true
    }

    open spec fn from_spec(v: u64) -> Amount {
        Amount(v as u128)
    }
}

} // verus!
