//! Fixed-point decimal amounts.
//!
//! An [`Amount`] is a signed 96-bit mantissa with a scale of at most 28
//! fractional digits, the representation of `rust_decimal::Decimal`. The
//! arithmetic itself is done by that crate; this module states what each
//! operation returns and proves the algebra that the rest of the library
//! builds on.

use rust_decimal::Decimal;
use vstd::prelude::*;
use vstd::std_specs::cmp::PartialEqSpecImpl;

verus! {

/// Largest number of fractional digits an amount can carry.
pub const MAX_SCALE: u32 = 28;

/// Largest magnitude of a mantissa: 2^96 - 1.
pub const MAX_MANTISSA: i128 = 79_228_162_514_264_337_593_543_950_335;

/// Ten to the power `n`.
pub open spec fn pow10(n: nat) -> nat
    decreases n,
{
    if n == 0 {
        1
    } else {
        10 * pow10((n - 1) as nat)
    }
}

/// Whether `m` fits the 96-bit mantissa of a decimal.
pub open spec fn fits_mantissa(m: int) -> bool {
    -MAX_MANTISSA <= m <= MAX_MANTISSA
}

/// The magnitude of an integer.
pub open spec fn magnitude(m: int) -> int {
    if m < 0 {
        -m
    } else {
        m
    }
}

/// `m / 10^k` rounded to the nearest integer, ties to the even neighbour,
/// symmetric around zero.
pub open spec fn round_half_even(m: int, k: nat) -> int {
    let p = pow10(k) as int;
    let q = magnitude(m) / p;
    let r = magnitude(m) % p;
    let q = if 2 * r > p || (2 * r == p && q % 2 == 1) {
        q + 1
    } else {
        q
    };
    if m < 0 {
        -q
    } else {
        q
    }
}

/// The sum that `Decimal::checked_add` returns for two non-zero decimals whose
/// exact sum does not fit 96 bits at the larger of their scales.
pub uninterp spec fn decimal_rounded_sum(a: Amount, b: Amount) -> Option<Amount>;

/// The difference that `Decimal::checked_sub` returns for two non-zero decimals
/// whose exact difference does not fit 96 bits at the larger of their scales.
pub uninterp spec fn decimal_rounded_difference(a: Amount, b: Amount) -> Option<Amount>;

/// The product that `Decimal::checked_mul` returns for two non-zero decimals
/// whose exact product needs more than 28 fractional digits or more than 96
/// bits.
pub uninterp spec fn decimal_rounded_product(a: Amount, b: Amount) -> Option<Amount>;

/// The quotient that `Decimal::checked_div` returns for a non-zero dividend
/// and a non-zero divisor.
pub uninterp spec fn decimal_quotient(a: Amount, b: Amount) -> Option<Amount>;

/// A signed decimal number, `mantissa / 10^scale`.
///
/// Two amounts with different scales can denote the same number (`1.5` and
/// `1.50`); [`Amount::units`] is the number itself.
#[derive(Clone, Copy, Debug)]
pub struct Amount {
    mantissa: i128,
    scale: u32,
}

impl Amount {
    /// Every amount is a decimal that `rust_decimal` can hold.
    #[verifier::type_invariant]
    pub open spec fn valid(self) -> bool {
        self.spec_scale() <= MAX_SCALE && fits_mantissa(self.spec_mantissa() as int)
    }

    /// The mantissa of the representation.
    pub closed spec fn spec_mantissa(&self) -> i128 {
        self.mantissa
    }

    /// The number of fractional digits of the representation.
    pub closed spec fn spec_scale(&self) -> u32 {
        self.scale
    }

    /// The amount with the given mantissa and scale.
    pub closed spec fn from_parts(mantissa: int, scale: nat) -> Amount {
        Amount { mantissa: mantissa as i128, scale: scale as u32 }
    }

    /// The number this amount denotes, in units of 10^-28.
    pub open spec fn units(self) -> int {
        self.spec_mantissa() * pow10((MAX_SCALE - self.spec_scale()) as nat)
    }

    /// The mantissa this amount has when written with `scale` fractional
    /// digits, for a `scale` not below its own.
    pub open spec fn aligned(self, scale: nat) -> int {
        self.spec_mantissa() * pow10((scale - self.spec_scale()) as nat)
    }

    /// The larger of the two scales.
    pub open spec fn common_scale(self, other: Amount) -> nat {
        if self.spec_scale() >= other.spec_scale() {
            self.spec_scale() as nat
        } else {
            other.spec_scale() as nat
        }
    }

    /// The integer zero.
    pub open spec fn spec_zero() -> Amount {
        Amount::from_parts(0, 0)
    }

    /// The whole number `n`.
    pub open spec fn spec_from_integer(n: i64) -> Amount {
        Amount::from_parts(n as int, 0)
    }

    /// A named result as far as it is a decimal, which is what every result
    /// of the decimal arithmetic is.
    pub open spec fn decimal(named: Option<Amount>) -> Option<Amount> {
        match named {
            Some(r) => if r.valid() {
                Some(r)
            } else {
                None
            },
            None => None,
        }
    }

    /// Whether the sum is computed without rounding: one operand is zero, or
    /// the exact sum fits the mantissa at the larger scale.
    pub open spec fn sum_is_exact(self, other: Amount) -> bool {
        let s = self.common_scale(other);
        self.spec_mantissa() == 0 || other.spec_mantissa() == 0 || fits_mantissa(
            self.aligned(s) + other.aligned(s),
        )
    }

    /// The sum where it is computed without rounding: the other operand where
    /// one is zero, else the exact sum at the larger scale.
    pub open spec fn exact_sum(self, other: Amount) -> Amount {
        let s = self.common_scale(other);
        if self.spec_mantissa() == 0 {
            other
        } else if other.spec_mantissa() == 0 {
            self
        } else {
            Amount::from_parts(self.aligned(s) + other.aligned(s), s)
        }
    }

    /// `self + other` in decimal arithmetic; `None` when it overflows.
    pub open spec fn sum(self, other: Amount) -> Option<Amount> {
        if self.sum_is_exact(other) {
            Some(self.exact_sum(other))
        } else {
            Amount::decimal(decimal_rounded_sum(self, other))
        }
    }

    /// Whether the difference is computed without rounding: one operand is
    /// zero, or the exact difference fits the mantissa at the larger scale.
    pub open spec fn difference_is_exact(self, other: Amount) -> bool {
        let s = self.common_scale(other);
        self.spec_mantissa() == 0 || other.spec_mantissa() == 0 || fits_mantissa(
            self.aligned(s) - other.aligned(s),
        )
    }

    /// The difference where it is computed without rounding: the negated
    /// subtrahend from zero, the minuend minus zero, else the exact
    /// difference at the larger scale.
    pub open spec fn exact_difference(self, other: Amount) -> Amount {
        let s = self.common_scale(other);
        if self.spec_mantissa() == 0 {
            other.negated()
        } else if other.spec_mantissa() == 0 {
            self
        } else {
            Amount::from_parts(self.aligned(s) - other.aligned(s), s)
        }
    }

    /// `self - other` in decimal arithmetic; `None` when it overflows.
    pub open spec fn difference(self, other: Amount) -> Option<Amount> {
        if self.difference_is_exact(other) {
            Some(self.exact_difference(other))
        } else {
            Amount::decimal(decimal_rounded_difference(self, other))
        }
    }

    /// Whether the product is computed without rounding: one operand is zero,
    /// or the exact product fits the mantissa with no more than 28 fractional
    /// digits.
    pub open spec fn product_is_exact(self, other: Amount) -> bool {
        self.spec_mantissa() == 0 || other.spec_mantissa() == 0 || (self.spec_scale()
            + other.spec_scale() <= MAX_SCALE && fits_mantissa(
            self.spec_mantissa() * other.spec_mantissa(),
        ))
    }

    /// The product where it is computed without rounding: the integer zero
    /// where an operand is zero, else the product of the mantissas with the
    /// scales added.
    pub open spec fn exact_product(self, other: Amount) -> Amount {
        if self.spec_mantissa() == 0 || other.spec_mantissa() == 0 {
            Amount::spec_zero()
        } else {
            Amount::from_parts(
                self.spec_mantissa() * other.spec_mantissa(),
                (self.spec_scale() + other.spec_scale()) as nat,
            )
        }
    }

    /// `self * other` in decimal arithmetic; `None` when it overflows.
    pub open spec fn product(self, other: Amount) -> Option<Amount> {
        if self.product_is_exact(other) {
            Some(self.exact_product(other))
        } else {
            Amount::decimal(decimal_rounded_product(self, other))
        }
    }

    /// `self / other` in decimal arithmetic; `None` when `other` is zero or
    /// the quotient overflows.
    pub open spec fn quotient(self, other: Amount) -> Option<Amount> {
        if other.spec_mantissa() == 0 {
            None
        } else if self.spec_mantissa() == 0 {
            Some(Amount::spec_zero())
        } else {
            Amount::decimal(decimal_quotient(self, other))
        }
    }

    /// `-self`.
    pub open spec fn negated(self) -> Amount {
        Amount::from_parts(-self.spec_mantissa(), self.spec_scale() as nat)
    }

    /// The amount rounded to `digits` fractional digits, ties to even. An
    /// amount with no more fractional digits than that is left as it is.
    pub open spec fn rounded(self, digits: u32) -> Amount {
        if self.spec_scale() <= digits {
            self
        } else {
            Amount::from_parts(
                round_half_even(
                    self.spec_mantissa() as int,
                    (self.spec_scale() - digits) as nat,
                ),
                digits as nat,
            )
        }
    }

    /// The minimum of the two; `self` when they denote the same number.
    pub open spec fn smaller(self, other: Amount) -> Amount {
        if self.units() > other.units() {
            other
        } else {
            self
        }
    }

    /// The maximum of the two; `self` when they denote the same number.
    pub open spec fn larger(self, other: Amount) -> Amount {
        if self.units() < other.units() {
            other
        } else {
            self
        }
    }

    /// Makes the amount `mantissa / 10^scale`, or `None` where the scale
    /// exceeds 28 digits or the mantissa 96 bits.
    pub fn new(mantissa: i128, scale: u32) -> (r: Option<Amount>)
        ensures
            r is Some <==> scale <= MAX_SCALE && fits_mantissa(mantissa as int),
            r matches Some(a) ==> a == Amount::from_parts(mantissa as int, scale as nat)
                && a.spec_mantissa() == mantissa && a.spec_scale() == scale,
    {
        if scale <= MAX_SCALE && -MAX_MANTISSA <= mantissa && mantissa <= MAX_MANTISSA {
            Some(Amount { mantissa, scale })
        } else {
            None
        }
    }

    /// The integer zero.
    #[verifier::when_used_as_spec(spec_zero)]
    pub fn zero() -> (r: Amount)
        ensures
            r == Amount::spec_zero(),
            r.units() == 0,
    {
        Amount { mantissa: 0, scale: 0 }
    }

    /// The whole number `n`.
    #[verifier::when_used_as_spec(spec_from_integer)]
    pub fn from_integer(n: i64) -> (r: Amount)
        ensures
            r == Amount::spec_from_integer(n),
            r.units() == n * pow10(MAX_SCALE as nat),
    {
        Amount { mantissa: n as i128, scale: 0 }
    }

    /// The mantissa of the representation.
    #[verifier::when_used_as_spec(spec_mantissa)]
    pub fn mantissa(&self) -> (r: i128)
        ensures
            r == self.spec_mantissa(),
    {
        self.mantissa
    }

    /// The number of fractional digits of the representation.
    #[verifier::when_used_as_spec(spec_scale)]
    pub fn scale(&self) -> (r: u32)
        ensures
            r == self.spec_scale(),
    {
        self.scale
    }

    /// Whether the amount denotes zero.
    pub fn is_zero(&self) -> (r: bool)
        ensures
            r == (self.units() == 0),
    {
        proof {
            self.lemma_units_sign();
        }
        self.mantissa == 0
    }

    /// Whether `self` does not exceed `other`.
    pub fn le(&self, other: &Amount) -> (r: bool)
        ensures
            r == (self.units() <= other.units()),
    {
        proof {
            use_type_invariant(self);
            use_type_invariant(other);
        }
        decimal_le(*self, *other)
    }

    /// Whether `self` is strictly below `other`.
    pub fn lt(&self, other: &Amount) -> (r: bool)
        ensures
            r == (self.units() < other.units()),
    {
        !other.le(self)
    }

    /// Whether `self` is strictly above `other`.
    pub fn gt(&self, other: &Amount) -> (r: bool)
        ensures
            r == (self.units() > other.units()),
    {
        !self.le(other)
    }

    /// Whether the two amounts denote the same number.
    pub fn same_value(&self, other: &Amount) -> (r: bool)
        ensures
            r == (self.units() == other.units()),
    {
        self.le(other) && other.le(self)
    }

    /// The minimum of the two; `self` when they denote the same number.
    pub fn min(self, other: Amount) -> (r: Amount)
        ensures
            r == self.smaller(other),
    {
        if self.gt(&other) {
            other
        } else {
            self
        }
    }

    /// The maximum of the two; `self` when they denote the same number.
    pub fn max(self, other: Amount) -> (r: Amount)
        ensures
            r == self.larger(other),
    {
        if self.lt(&other) {
            other
        } else {
            self
        }
    }

    /// `-self`.
    pub fn neg(self) -> (r: Amount)
        ensures
            r == self.negated(),
            r.units() == -self.units(),
    {
        proof {
            use_type_invariant(self);
            self.lemma_negated();
        }
        Amount { mantissa: -self.mantissa, scale: self.scale }
    }

    /// `self + other`, or `None` when the sum overflows.
    pub fn checked_add(self, other: Amount) -> (r: Option<Amount>)
        ensures
            r == self.sum(other),
    {
        proof {
            use_type_invariant(self);
            use_type_invariant(other);
        }
        decimal_add(self, other)
    }

    /// `self - other`, or `None` when the difference overflows.
    pub fn checked_sub(self, other: Amount) -> (r: Option<Amount>)
        ensures
            r == self.difference(other),
    {
        proof {
            use_type_invariant(self);
            use_type_invariant(other);
        }
        decimal_sub(self, other)
    }

    /// `self * other`, or `None` when the product overflows.
    pub fn checked_mul(self, other: Amount) -> (r: Option<Amount>)
        ensures
            r == self.product(other),
    {
        proof {
            use_type_invariant(self);
            use_type_invariant(other);
        }
        decimal_mul(self, other)
    }

    /// `self / other`, or `None` when `other` is zero or the quotient
    /// overflows.
    pub fn checked_div(self, other: Amount) -> (r: Option<Amount>)
        ensures
            r == self.quotient(other),
    {
        proof {
            use_type_invariant(self);
            use_type_invariant(other);
            self.lemma_units_sign();
            other.lemma_units_sign();
        }
        if other.mantissa == 0 {
            None
        } else if self.mantissa == 0 {
            Some(Amount::zero())
        } else {
            decimal_div(self, other)
        }
    }

    /// The amount rounded to `digits` fractional digits, ties to even.
    pub fn round_dp(self, digits: u32) -> (r: Amount)
        ensures
            r == self.rounded(digits),
    {
        proof {
            use_type_invariant(self);
        }
        decimal_round_dp(self, digits)
    }

    /// An amount is zero exactly when its mantissa is, and has the sign of
    /// its mantissa.
    pub proof fn lemma_units_sign(self)
        ensures
            self.units() == 0 <==> self.spec_mantissa() == 0,
            self.units() > 0 <==> self.spec_mantissa() > 0,
    {
        let p = pow10((MAX_SCALE - self.scale) as nat) as int;
        lemma_pow10_positive((MAX_SCALE - self.scale) as nat);
        let m = self.mantissa as int;
        assert(m > 0 ==> m * p > 0) by (nonlinear_arith)
            requires
                p > 0,
        ;
        assert(m < 0 ==> m * p < 0) by (nonlinear_arith)
            requires
                p > 0,
        ;
        assert(m == 0 ==> m * p == 0) by (nonlinear_arith);
    }

    /// Negation is exact and stays in range.
    pub proof fn lemma_negated(self)
        requires
            self.valid(),
        ensures
            self.negated().valid(),
            self.negated().units() == -self.units(),
            self.negated().spec_scale() == self.spec_scale(),
    {
        let p = pow10((MAX_SCALE - self.scale) as nat) as int;
        let m = self.mantissa as int;
        assert((-m) * p == -(m * p)) by (nonlinear_arith);
    }

    /// An amount made of parts that a decimal can have has those parts.
    pub proof fn lemma_from_parts(mantissa: int, scale: nat)
        requires
            fits_mantissa(mantissa),
            scale <= MAX_SCALE,
        ensures
            Amount::from_parts(mantissa, scale).spec_mantissa() == mantissa,
            Amount::from_parts(mantissa, scale).spec_scale() == scale,
            Amount::from_parts(mantissa, scale).valid(),
    {
    }

    /// Amounts of the same scale add and subtract mantissa by mantissa, as
    /// long as the result fits the mantissa of a decimal.
    pub proof fn law_same_scale_is_exact(self, other: Amount)
        requires
            self.valid(),
            other.valid(),
            self.spec_scale() == other.spec_scale(),
        ensures
            fits_mantissa(self.spec_mantissa() + other.spec_mantissa()) ==> (self.sum(other)
                matches Some(r) && r.spec_mantissa() == self.spec_mantissa()
                + other.spec_mantissa() && r.spec_scale() == self.spec_scale()),
            fits_mantissa(self.spec_mantissa() - other.spec_mantissa()) ==> (self.difference(
                other,
            ) matches Some(r) && r.spec_mantissa() == self.spec_mantissa()
                - other.spec_mantissa() && r.spec_scale() == self.spec_scale()),
    {
        let s = self.common_scale(other);
        let a = self.spec_mantissa() as int;
        let b = other.spec_mantissa() as int;
        assert(pow10((s - self.spec_scale()) as nat) == 1);
        assert(a * 1 == a && b * 1 == b);
        if fits_mantissa(a + b) {
            Amount::lemma_from_parts(a + b, s);
        }
        if fits_mantissa(a - b) {
            Amount::lemma_from_parts(a - b, s);
        }
        Amount::lemma_from_parts(-b, s);
    }

    /// Zero denotes zero.
    pub proof fn lemma_zero()
        ensures
            Amount::spec_zero().valid(),
            Amount::spec_zero().units() == 0,
            Amount::spec_zero().spec_mantissa() == 0,
            Amount::spec_zero().spec_scale() == 0,
    {
    }

    /// A whole number denotes itself.
    pub proof fn lemma_from_integer(n: i64)
        ensures
            Amount::spec_from_integer(n).valid(),
            Amount::spec_from_integer(n).units() == n * pow10(MAX_SCALE as nat),
            Amount::spec_from_integer(n).spec_mantissa() == n,
            Amount::spec_from_integer(n).spec_scale() == 0,
            n != 0 ==> Amount::spec_from_integer(n).units() != 0,
    {
        Amount::spec_from_integer(n).lemma_units_sign();
    }

    /// The number an amount denotes is its aligned mantissa at any scale
    /// between its own and 28, scaled up the rest of the way.
    proof fn lemma_aligned_units(self, scale: nat)
        requires
            self.scale <= scale <= MAX_SCALE,
        ensures
            self.units() == self.aligned(scale) * pow10((MAX_SCALE - scale) as nat),
    {
        let up = (scale - self.scale) as nat;
        let rest = (MAX_SCALE - scale) as nat;
        lemma_pow10_split(up, rest);
        let m = self.mantissa as int;
        let a = pow10(up) as int;
        let b = pow10(rest) as int;
        assert(m * (a * b) == (m * a) * b) by (nonlinear_arith);
    }

    /// Decimal arithmetic on decimals gives decimals.
    pub proof fn lemma_results_valid(self, other: Amount)
        requires
            self.valid(),
            other.valid(),
        ensures
            self.sum(other) matches Some(r) ==> r.valid(),
            self.difference(other) matches Some(r) ==> r.valid(),
            self.product(other) matches Some(r) ==> r.valid(),
            self.quotient(other) matches Some(r) ==> r.valid(),
            self.smaller(other).valid(),
            self.larger(other).valid(),
    {
    }

    /// Rounding a decimal gives a decimal.
    pub proof fn lemma_rounded_valid(self, digits: u32)
        requires
            self.valid(),
        ensures
            self.rounded(digits).valid(),
    {
        if self.scale > digits {
            let k = (self.scale - digits) as nat;
            let p = pow10(k) as int;
            assert(p >= 10) by {
                lemma_pow10_positive((k - 1) as nat);
            }
            let size = magnitude(self.mantissa as int);
            let q = size / p;
            assert(0 <= q && 10 * q <= size) by (nonlinear_arith)
                requires
                    p >= 10,
                    size >= 0,
                    q == size / p,
            ;
        }
    }

    /// A sum that is computed without rounding is the sum of the numbers.
    pub proof fn lemma_sum_exact(self, other: Amount)
        requires
            self.valid(),
            other.valid(),
            self.sum_is_exact(other),
        ensures
            self.sum(other) matches Some(r) && r.valid() && r.units() == self.units()
                + other.units(),
    {
        let s = self.common_scale(other);
        if self.mantissa != 0 && other.mantissa != 0 {
            self.lemma_aligned_units(s);
            other.lemma_aligned_units(s);
            let x = self.aligned(s);
            let y = other.aligned(s);
            let p = pow10((MAX_SCALE - s) as nat) as int;
            assert((x + y) * p == x * p + y * p) by (nonlinear_arith);
        }
    }

    /// A difference that is computed without rounding is the difference of the
    /// numbers.
    pub proof fn lemma_difference_exact(self, other: Amount)
        requires
            self.valid(),
            other.valid(),
            self.difference_is_exact(other),
        ensures
            self.difference(other) matches Some(r) && r.valid() && r.units() == self.units()
                - other.units(),
    {
        let s = self.common_scale(other);
        other.lemma_negated();
        if self.mantissa != 0 && other.mantissa != 0 {
            self.lemma_aligned_units(s);
            other.lemma_aligned_units(s);
            let x = self.aligned(s);
            let y = other.aligned(s);
            let p = pow10((MAX_SCALE - s) as nat) as int;
            assert((x - y) * p == x * p - y * p) by (nonlinear_arith);
        }
    }

    /// Sums and differences of amounts of few digits and moderate size are
    /// computed without rounding: it suffices that neither amount has more
    /// than `digits` fractional digits and that the two mantissas together,
    /// written with `digits` fractional digits, fit the mantissa of a decimal.
    pub proof fn lemma_short_amounts_exact(self, other: Amount, digits: nat)
        requires
            self.valid(),
            other.valid(),
            self.spec_scale() <= digits,
            other.spec_scale() <= digits,
            (magnitude(self.spec_mantissa() as int) + magnitude(other.spec_mantissa() as int))
                * pow10(digits) <= MAX_MANTISSA,
        ensures
            self.sum_is_exact(other),
            self.difference_is_exact(other),
    {
        let s = self.common_scale(other);
        let a = magnitude(self.mantissa as int);
        let b = magnitude(other.mantissa as int);
        let pa = pow10((s - self.scale) as nat) as int;
        let pb = pow10((s - other.scale) as nat) as int;
        let p = pow10(digits) as int;
        lemma_pow10_positive((s - self.scale) as nat);
        lemma_pow10_positive((s - other.scale) as nat);
        lemma_pow10_monotonic((s - self.scale) as nat, digits);
        lemma_pow10_monotonic((s - other.scale) as nat, digits);
        let x = self.aligned(s);
        let y = other.aligned(s);
        assert(magnitude(x) <= a * p && magnitude(y) <= b * p) by (nonlinear_arith)
            requires
                x == (self.mantissa as int) * pa,
                y == (other.mantissa as int) * pb,
                a == magnitude(self.mantissa as int),
                b == magnitude(other.mantissa as int),
                0 < pa <= p,
                0 < pb <= p,
        ;
        assert((a + b) * p == a * p + b * p) by (nonlinear_arith);
    }

    /// Two amounts that denote the same number have the same aligned mantissa.
    proof fn lemma_same_units_same_aligned(self, other: Amount)
        requires
            self.valid(),
            other.valid(),
        ensures
            self.units() == other.units() ==> self.aligned(self.common_scale(other))
                == other.aligned(self.common_scale(other)),
            self.units() == -other.units() ==> self.aligned(self.common_scale(other))
                == -other.aligned(self.common_scale(other)),
    {
        let s = self.common_scale(other);
        self.lemma_aligned_units(s);
        other.lemma_aligned_units(s);
        let x = self.aligned(s);
        let y = other.aligned(s);
        let p = pow10((MAX_SCALE - s) as nat) as int;
        lemma_pow10_positive((MAX_SCALE - s) as nat);
        assert(x * p == y * p ==> x == y) by (nonlinear_arith)
            requires
                p > 0,
        ;
        assert(x * p == -(y * p) ==> x == -y) by (nonlinear_arith)
            requires
                p > 0,
        ;
    }

    /// Subtracting an amount from one that denotes the same number leaves
    /// exactly zero.
    pub proof fn lemma_difference_of_equals(self, other: Amount)
        requires
            self.valid(),
            other.valid(),
            self.units() == other.units(),
        ensures
            self.difference_is_exact(other),
            self.difference(other) matches Some(r) && r.valid() && r.units() == 0,
    {
        self.lemma_same_units_same_aligned(other);
        self.lemma_difference_exact(other);
    }

    /// Adding an amount to its opposite leaves exactly zero.
    pub proof fn lemma_sum_of_opposites(self, other: Amount)
        requires
            self.valid(),
            other.valid(),
            self.units() == -other.units(),
        ensures
            self.sum_is_exact(other),
            self.sum(other) matches Some(r) && r.valid() && r.units() == 0,
    {
        self.lemma_same_units_same_aligned(other);
        self.lemma_sum_exact(other);
    }

    /// Adding to zero gives back the other operand, representation included.
    pub proof fn lemma_sum_with_zero(self, other: Amount)
        ensures
            self.units() == 0 ==> self.sum(other) == Some(other),
            self.units() != 0 && other.units() == 0 ==> self.sum(other) == Some(self),
    {
        self.lemma_units_sign();
        other.lemma_units_sign();
    }

    /// A product with zero is the integer zero.
    pub proof fn lemma_product_with_zero(self, other: Amount)
        requires
            self.units() == 0 || other.units() == 0,
        ensures
            self.product(other) == Some(Amount::spec_zero()),
    {
        self.lemma_units_sign();
        other.lemma_units_sign();
    }

    /// Zero divided by anything but zero is the integer zero; nothing can be
    /// divided by zero.
    pub proof fn lemma_quotient_with_zero(self, other: Amount)
        ensures
            other.units() == 0 ==> self.quotient(other) is None,
            other.units() != 0 && self.units() == 0 ==> self.quotient(other) == Some(
                Amount::spec_zero(),
            ),
    {
        self.lemma_units_sign();
        other.lemma_units_sign();
    }

    /// A rounded amount has no more fractional digits than asked for, and no
    /// more than it had.
    pub proof fn lemma_rounded_scale(self, digits: u32)
        ensures
            self.rounded(digits).spec_scale() <= digits,
            self.rounded(digits).spec_scale() <= self.spec_scale(),
    {
    }

    /// Rounding moves an amount by no more than half a unit of the last digit
    /// kept.
    pub proof fn lemma_rounded_close(self, digits: u32)
        requires
            self.valid(),
            digits <= MAX_SCALE,
        ensures
            2 * (self.rounded(digits).units() - self.units()) <= pow10((MAX_SCALE - digits) as nat),
            2 * (self.units() - self.rounded(digits).units()) <= pow10((MAX_SCALE - digits) as nat),
    {
        if self.scale > digits {
            let k = (self.scale - digits) as nat;
            let rest = (MAX_SCALE - self.scale) as nat;
            let p = pow10(k) as int;
            let f = pow10(rest) as int;
            lemma_pow10_positive(k);
            lemma_pow10_positive(rest);
            lemma_pow10_split(k, rest);
            let m = self.mantissa as int;
            let rounded = round_half_even(m, k);
            let size = magnitude(m);
            let q = size / p;
            let r = size % p;
            assert(size == q * p + r && 0 <= r < p) by (nonlinear_arith)
                requires
                    p > 0,
                    q == size / p,
                    r == size % p,
            ;
            // The distance between the rounded mantissa, scaled back, and the
            // mantissa is at most half of `p`.
            assert(2 * (rounded * p - m) <= p && 2 * (m - rounded * p) <= p) by (nonlinear_arith)
                requires
                    size == q * p + r,
                    0 <= r < p,
                    size == if m < 0 {
                        -m
                    } else {
                        m
                    },
                    rounded == if m < 0 {
                        -(if 2 * r > p || (2 * r == p && q % 2 == 1) {
                            q + 1
                        } else {
                            q
                        })
                    } else {
                        if 2 * r > p || (2 * r == p && q % 2 == 1) {
                            q + 1
                        } else {
                            q
                        }
                    },
            ;
            assert(2 * (rounded * (p * f) - m * f) <= p * f && 2 * (m * f - rounded * (p * f)) <= p
                * f) by (nonlinear_arith)
                requires
                    2 * (rounded * p - m) <= p,
                    2 * (m - rounded * p) <= p,
                    f > 0,
            ;
        }
    }

    /// Rounding leaves an amount that has no more digits than asked for as it
    /// is, and any zero stays zero.
    pub proof fn lemma_rounded_small(self, digits: u32)
        requires
            self.valid(),
        ensures
            self.spec_scale() <= digits ==> self.rounded(digits) == self,
            self.units() == 0 ==> self.rounded(digits).units() == 0,
    {
        self.lemma_units_sign();
        if self.scale > digits && self.mantissa == 0 {
            let k = (self.scale - digits) as nat;
            lemma_pow10_positive(k);
            let p = pow10(k) as int;
            assert(0int / p == 0 && 0int % p == 0) by (nonlinear_arith)
                requires
                    p > 0,
            ;
            self.rounded(digits).lemma_units_sign();
        }
    }
}

impl PartialEq for Amount {
    /// Two amounts are equal when they denote the same number.
    fn eq(&self, other: &Amount) -> (r: bool) {
        self.same_value(other)
    }
}

impl PartialEqSpecImpl for Amount {
    open spec fn obeys_eq_spec() -> bool {
        true
    }

    open spec fn eq_spec(&self, other: &Amount) -> bool {
        self.units() == other.units()
    }
}

/// Powers of ten grow with the exponent.
pub proof fn lemma_pow10_monotonic(a: nat, b: nat)
    requires
        a <= b,
    ensures
        pow10(a) <= pow10(b),
    decreases b - a,
{
    if a < b {
        lemma_pow10_monotonic(a, (b - 1) as nat);
    }
}

/// Powers of ten are positive.
pub proof fn lemma_pow10_positive(n: nat)
    ensures
        pow10(n) > 0,
    decreases n,
{
    if n > 0 {
        lemma_pow10_positive((n - 1) as nat);
    }
}

/// `10^(a+b) = 10^a * 10^b`.
pub proof fn lemma_pow10_split(a: nat, b: nat)
    ensures
        pow10(a + b) == pow10(a) * pow10(b),
    decreases a,
{
    if a > 0 {
        lemma_pow10_split((a - 1) as nat, b);
        let x = pow10((a - 1) as nat) as int;
        let y = pow10(b) as int;
        assert(10 * (x * y) == (10 * x) * y) by (nonlinear_arith);
    } else {
        assert(1 * pow10(b) == pow10(b));
    }
}

/// `Decimal::checked_add` on the two decimals.
///
/// Not proved, but taken from the crate: where one operand is zero, the crate
/// hands back the other as it is. Otherwise it brings the operand of the
/// smaller scale to the larger scale and adds the mantissas; it gives up
/// digits, and rounds, only where that sum does not fit 96 bits. So a sum
/// that fits 96 bits at the larger scale comes back exact and at that scale.
/// In every other case the crate rounds or reports overflow, and the result
/// is only named. Whatever comes back is a decimal: 96 bits of mantissa, at
/// most 28 fractional digits.
#[verifier::external_body]
fn decimal_add(a: Amount, b: Amount) -> (r: Option<Amount>)
    requires
        a.valid(),
        b.valid(),
    ensures
        a.sum_is_exact(b) ==> r == Some(a.exact_sum(b)),
        !a.sum_is_exact(b) ==> r == decimal_rounded_sum(a, b),
        r matches Some(v) ==> v.valid(),
{
    let x = Decimal::from_i128_with_scale(a.mantissa, a.scale);
    let y = Decimal::from_i128_with_scale(b.mantissa, b.scale);
    match x.checked_add(y) {
        Some(d) => Some(Amount { mantissa: d.mantissa(), scale: d.scale() }),
        None => None,
    }
}

/// `Decimal::checked_sub` on the two decimals.
///
/// Not proved, but taken from the crate, which subtracts by the code that
/// adds: from zero the crate gives the subtrahend with its sign turned,
/// minus zero the minuend as it is. Otherwise a difference that fits 96 bits
/// at the larger scale comes back exact and at that scale. In every other
/// case the crate rounds or reports overflow, and the result is only named.
/// Whatever comes back is a decimal.
#[verifier::external_body]
fn decimal_sub(a: Amount, b: Amount) -> (r: Option<Amount>)
    requires
        a.valid(),
        b.valid(),
    ensures
        a.difference_is_exact(b) ==> r == Some(a.exact_difference(b)),
        !a.difference_is_exact(b) ==> r == decimal_rounded_difference(a, b),
        r matches Some(v) ==> v.valid(),
{
    let x = Decimal::from_i128_with_scale(a.mantissa, a.scale);
    let y = Decimal::from_i128_with_scale(b.mantissa, b.scale);
    match x.checked_sub(y) {
        Some(d) => Some(Amount { mantissa: d.mantissa(), scale: d.scale() }),
        None => None,
    }
}

/// `Decimal::checked_mul` on the two decimals.
///
/// Not proved, but taken from the crate: a product with zero is the constant
/// zero, of scale zero. Otherwise the crate multiplies the mantissas and
/// adds the scales; it gives up digits, and rounds, only where the product
/// does not fit 96 bits or the scale exceeds 28. So a product of at most 28
/// fractional digits that fits 96 bits comes back exact. In every other case
/// the crate rounds or reports overflow, and the result is only named.
/// Whatever comes back is a decimal.
#[verifier::external_body]
fn decimal_mul(a: Amount, b: Amount) -> (r: Option<Amount>)
    requires
        a.valid(),
        b.valid(),
    ensures
        a.product_is_exact(b) ==> r == Some(a.exact_product(b)),
        !a.product_is_exact(b) ==> r == decimal_rounded_product(a, b),
        r matches Some(v) ==> v.valid(),
{
    let x = Decimal::from_i128_with_scale(a.mantissa, a.scale);
    let y = Decimal::from_i128_with_scale(b.mantissa, b.scale);
    match x.checked_mul(y) {
        Some(d) => Some(Amount { mantissa: d.mantissa(), scale: d.scale() }),
        None => None,
    }
}

/// `Decimal::checked_div` on a non-zero dividend and a non-zero divisor.
///
/// Not proved: the quotient, which the crate rounds to the digits that it
/// can hold, is only named. Whatever comes back is a decimal.
#[verifier::external_body]
fn decimal_div(a: Amount, b: Amount) -> (r: Option<Amount>)
    requires
        a.valid(),
        b.valid(),
        a.units() != 0,
        b.units() != 0,
    ensures
        r == decimal_quotient(a, b),
        r matches Some(v) ==> v.valid(),
{
    let x = Decimal::from_i128_with_scale(a.mantissa, a.scale);
    let y = Decimal::from_i128_with_scale(b.mantissa, b.scale);
    match x.checked_div(y) {
        Some(d) => Some(Amount { mantissa: d.mantissa(), scale: d.scale() }),
        None => None,
    }
}

/// `Decimal::round_dp` on the decimal.
///
/// Not proved, but taken from the crate: a decimal of no more than `digits`
/// fractional digits comes back as it is. Any other is rounded to `digits`
/// fractional digits by the crate's banker's rounding: the magnitude of the
/// mantissa is divided by the power of ten, a remainder above half rounds
/// up, a remainder of exactly half rounds to the even neighbour, and the
/// sign is kept.
#[verifier::external_body]
fn decimal_round_dp(a: Amount, digits: u32) -> (r: Amount)
    requires
        a.valid(),
    ensures
        r == a.rounded(digits),
{
    let d = Decimal::from_i128_with_scale(a.mantissa, a.scale).round_dp(digits);
    Amount { mantissa: d.mantissa(), scale: d.scale() }
}

/// `<=` on the two decimals.
///
/// Not proved, but taken from the crate: decimals are ordered by the numbers
/// that they denote, whatever their scales.
#[verifier::external_body]
fn decimal_le(a: Amount, b: Amount) -> (r: bool)
    requires
        a.valid(),
        b.valid(),
    ensures
        r == (a.units() <= b.units()),
{
    let x = Decimal::from_i128_with_scale(a.mantissa, a.scale);
    let y = Decimal::from_i128_with_scale(b.mantissa, b.scale);
    x <= y
}

} // verus!
