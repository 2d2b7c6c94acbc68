//! Exact decimal amounts.
//!
//! An [`Amount`] is a signed 96-bit mantissa together with a scale between 0
//! and 28: it stands for `mantissa / 10^scale`. Its mathematical model is
//! [`Decimal`], over unbounded integers, on which the arithmetic is defined.
//! The arithmetic itself is done by the `rust_decimal` crate; the functions of
//! this module that call it say what they take from it.

use vstd::prelude::*;

verus! {

/// The largest magnitude of a mantissa, `2^96 - 1`.
pub const MAX_MANTISSA: i128 = 0xFFFF_FFFF_FFFF_FFFF_FFFF_FFFF;

/// The largest scale.
pub const MAX_SCALE: u32 = 28;

/// `10^n`, written out for the scales that an amount can have.
pub open spec fn pow10(n: nat) -> int
    decreases n,
{
    if n == 0 {
        1
    } else if n == 1 {
        10
    } else if n == 2 {
        100
    } else if n == 3 {
        1_000
    } else if n == 4 {
        10_000
    } else if n == 5 {
        100_000
    } else if n == 6 {
        1_000_000
    } else if n == 7 {
        10_000_000
    } else if n == 8 {
        100_000_000
    } else if n == 9 {
        1_000_000_000
    } else if n == 10 {
        10_000_000_000
    } else if n == 11 {
        100_000_000_000
    } else if n == 12 {
        1_000_000_000_000
    } else if n == 13 {
        10_000_000_000_000
    } else if n == 14 {
        100_000_000_000_000
    } else if n == 15 {
        1_000_000_000_000_000
    } else if n == 16 {
        10_000_000_000_000_000
    } else if n == 17 {
        100_000_000_000_000_000
    } else if n == 18 {
        1_000_000_000_000_000_000
    } else if n == 19 {
        10_000_000_000_000_000_000
    } else if n == 20 {
        100_000_000_000_000_000_000
    } else if n == 21 {
        1_000_000_000_000_000_000_000
    } else if n == 22 {
        10_000_000_000_000_000_000_000
    } else if n == 23 {
        100_000_000_000_000_000_000_000
    } else if n == 24 {
        1_000_000_000_000_000_000_000_000
    } else if n == 25 {
        10_000_000_000_000_000_000_000_000
    } else if n == 26 {
        100_000_000_000_000_000_000_000_000
    } else if n == 27 {
        1_000_000_000_000_000_000_000_000_000
    } else if n == 28 {
        10_000_000_000_000_000_000_000_000_000
    } else {
        10 * pow10((n - 1) as nat)
    }
}

/// The number `mantissa / 10^scale`.
pub struct Decimal {
    pub mantissa: int,
    pub scale: nat,
}

impl Decimal {
    /// Whether an [`Amount`] can hold this decimal.
    pub open spec fn wf(self) -> bool {
        &&& -MAX_MANTISSA <= self.mantissa <= MAX_MANTISSA
        &&& self.scale <= MAX_SCALE
    }

    /// The value in units of `10^-28`, the finest any amount resolves: two
    /// decimals denote the same number exactly when their units agree.
    pub open spec fn units(self) -> int {
        self.mantissa * pow10((MAX_SCALE - self.scale) as nat)
    }

    /// Whether this number is zero, whatever its scale.
    pub open spec fn is_zero(self) -> bool {
        self.mantissa == 0
    }

    /// Zero, written without a scale.
    pub open spec fn zero() -> Decimal {
        Decimal { mantissa: 0, scale: 0 }
    }

    /// This number with the sign turned, at the same scale.
    pub open spec fn negated(self) -> Decimal {
        Decimal { mantissa: -self.mantissa, scale: self.scale }
    }

    /// The exact sum. A zero operand leaves the other as it is; otherwise
    /// both are brought to the larger scale.
    pub open spec fn plus(self, other: Decimal) -> Decimal {
        if self.mantissa == 0 {
            other
        } else if other.mantissa == 0 {
            self
        } else if self.scale >= other.scale {
            Decimal {
                mantissa: self.mantissa + other.mantissa * pow10(
                    (self.scale - other.scale) as nat,
                ),
                scale: self.scale,
            }
        } else {
            Decimal {
                mantissa: self.mantissa * pow10((other.scale - self.scale) as nat)
                    + other.mantissa,
                scale: other.scale,
            }
        }
    }

    /// The exact difference: the sum with the negation of `other`.
    pub open spec fn minus(self, other: Decimal) -> Decimal {
        self.plus(other.negated())
    }

    /// Whether this number is below `other`.
    pub open spec fn below(self, other: Decimal) -> bool {
        self.units() < other.units()
    }

    /// The decimal with at most `places` fractional digits that is nearest to
    /// this one, a tie going away from zero. One that has no more than
    /// `places` digits is left as it is.
    pub open spec fn rounded(self, places: nat) -> Decimal {
        if self.scale <= places {
            self
        } else {
            let unit = pow10((self.scale - places) as nat);
            let magnitude = if self.mantissa < 0 {
                -self.mantissa
            } else {
                self.mantissa
            };
            let kept = if 2 * (magnitude % unit) >= unit {
                magnitude / unit + 1
            } else {
                magnitude / unit
            };
            Decimal {
                mantissa: if self.mantissa < 0 {
                    -kept
                } else {
                    kept
                },
                scale: places,
            }
        }
    }

    /// This number with zero written in one way only, without a scale.
    pub open spec fn normalized(self) -> Decimal {
        if self.mantissa == 0 {
            Decimal::zero()
        } else {
            self
        }
    }

    /// This decimal as it is shown: rounded to `places` fractional digits,
    /// and, where that is zero, the plain zero.
    pub open spec fn presented(self, places: nat) -> Decimal {
        self.rounded(places).normalized()
    }
}

impl Decimal {
    /// The units of a sum are the sum of the units: `plus` is exact.
    pub proof fn lemma_plus_units(self, other: Decimal)
        requires
            self.scale <= MAX_SCALE,
            other.scale <= MAX_SCALE,
        ensures
            self.plus(other).units() == self.units() + other.units(),
            self.plus(other).scale <= MAX_SCALE,
    {
        if self.mantissa == 0 || other.mantissa == 0 {
        } else if self.scale >= other.scale {
            lemma_align_units(other.mantissa, other.scale, self.scale);
            assert((self.mantissa + other.mantissa * pow10((self.scale - other.scale) as nat))
                * pow10((MAX_SCALE - self.scale) as nat) == self.mantissa * pow10(
                (MAX_SCALE - self.scale) as nat,
            ) + (other.mantissa * pow10((self.scale - other.scale) as nat)) * pow10(
                (MAX_SCALE - self.scale) as nat,
            )) by (nonlinear_arith);
        } else {
            lemma_align_units(self.mantissa, self.scale, other.scale);
            assert((self.mantissa * pow10((other.scale - self.scale) as nat) + other.mantissa)
                * pow10((MAX_SCALE - other.scale) as nat) == (self.mantissa * pow10(
                (other.scale - self.scale) as nat,
            )) * pow10((MAX_SCALE - other.scale) as nat) + other.mantissa * pow10(
                (MAX_SCALE - other.scale) as nat,
            )) by (nonlinear_arith);
        }
    }

    /// The units of a negation are the negated units.
    pub proof fn lemma_negated_units(self)
        ensures
            self.negated().units() == -self.units(),
    {
        assert((-self.mantissa) * pow10((MAX_SCALE - self.scale) as nat) == -(self.mantissa
            * pow10((MAX_SCALE - self.scale) as nat))) by (nonlinear_arith);
    }

    /// The units of a difference are the difference of the units: `minus` is
    /// exact.
    pub proof fn lemma_minus_units(self, other: Decimal)
        requires
            self.scale <= MAX_SCALE,
            other.scale <= MAX_SCALE,
        ensures
            self.minus(other).units() == self.units() - other.units(),
            self.minus(other).scale <= MAX_SCALE,
    {
        other.lemma_negated_units();
        self.lemma_plus_units(other.negated());
    }
}

impl Decimal {
    /// What is shown is shown as it is: bringing a number to `places`
    /// fractional digits a second time changes nothing.
    pub proof fn lemma_presented_twice(self, places: nat)
        ensures
            self.presented(places).presented(places) == self.presented(places),
    {
    }

    /// Zero is shown in one way only, whatever its scale, and so is what
    /// rounds to zero.
    pub proof fn lemma_presented_zero(self, places: nat)
        ensures
            self.mantissa == 0 ==> self.presented(places) == Decimal::zero(),
            self.presented(places).mantissa == 0 ==> self.presented(places) == Decimal::zero(),
    {
        if self.mantissa == 0 && self.scale > places {
            lemma_pow10_positive((self.scale - places) as nat);
        }
    }

    /// A number with no more than `places` fractional digits is shown as it
    /// is, but for zero, which is written in one way only.
    pub proof fn lemma_presented_short(self, places: nat)
        requires
            self.scale <= places,
        ensures
            self.presented(places) == self.normalized(),
            self.mantissa != 0 ==> self.presented(places) == self,
            self.presented(places).units() == self.units(),
    {
        if self.mantissa == 0 {
            assert(self.mantissa * pow10((MAX_SCALE - self.scale) as nat) == 0) by (nonlinear_arith)
                requires
                    self.mantissa == 0,
            ;
            assert(0 * pow10(MAX_SCALE as nat) == 0) by (nonlinear_arith);
        }
    }

    /// What an amount holds, it holds when rounded and when shown.
    pub proof fn lemma_rounded_wf(self, places: nat)
        requires
            self.wf(),
        ensures
            self.rounded(places).wf(),
            self.presented(places).wf(),
    {
        if self.scale > places {
            let unit = pow10((self.scale - places) as nat);
            lemma_pow10_positive((self.scale - places - 1) as nat);
            let magnitude = if self.mantissa < 0 {
                -self.mantissa
            } else {
                self.mantissa
            };
            assert(magnitude / unit <= magnitude && (2 * (magnitude % unit) >= unit ==> magnitude
                / unit + 1 <= magnitude)) by (nonlinear_arith)
                requires
                    unit >= 10,
                    magnitude >= 0,
            ;
        }
    }

    /// Rounding away the last fractional digit: a digit of five or more
    /// rounds the magnitude up, a smaller one down.
    pub proof fn lemma_rounded_last_digit(self)
        requires
            self.scale >= 1,
            self.mantissa >= 0,
        ensures
            self.rounded((self.scale - 1) as nat) == (Decimal {
                mantissa: if self.mantissa % 10 >= 5 {
                    self.mantissa / 10 + 1
                } else {
                    self.mantissa / 10
                },
                scale: (self.scale - 1) as nat,
            }),
            self.negated().rounded((self.scale - 1) as nat) == self.rounded(
                (self.scale - 1) as nat,
            ).negated(),
    {
    }

    /// A rounded number is a nearest one: it is off by at most half a unit of
    /// its last digit.
    pub proof fn lemma_rounded_is_nearest(self, places: nat)
        requires
            places <= self.scale <= MAX_SCALE,
        ensures
            2 * (self.rounded(places).units() - self.units()) <= pow10((MAX_SCALE - places) as nat),
            2 * (self.units() - self.rounded(places).units()) <= pow10((MAX_SCALE - places) as nat),
    {
        let fine = pow10((MAX_SCALE - self.scale) as nat);
        let coarse = pow10((MAX_SCALE - places) as nat);
        lemma_pow10_positive((MAX_SCALE - self.scale) as nat);
        lemma_pow10_positive((MAX_SCALE - places) as nat);
        if self.scale > places {
            let unit = pow10((self.scale - places) as nat);
            lemma_pow10_positive((self.scale - places) as nat);
            lemma_pow10_adds((self.scale - places) as nat, (MAX_SCALE - self.scale) as nat);
            let magnitude = if self.mantissa < 0 {
                -self.mantissa
            } else {
                self.mantissa
            };
            let whole = magnitude / unit;
            let rest = magnitude % unit;
            let kept = if 2 * rest >= unit {
                whole + 1
            } else {
                whole
            };
            assert(magnitude == whole * unit + rest && 0 <= rest < unit) by (nonlinear_arith)
                requires
                    unit >= 1,
                    whole == magnitude / unit,
                    rest == magnitude % unit,
            ;
            assert(2 * (kept * coarse - magnitude * fine) <= coarse && 2 * (magnitude * fine - kept
                * coarse) <= coarse) by (nonlinear_arith)
                requires
                    coarse == unit * fine,
                    fine >= 1,
                    magnitude == whole * unit + rest,
                    0 <= rest < unit,
                    kept == if 2 * rest >= unit {
                        whole + 1
                    } else {
                        whole
                    },
            ;
            if self.mantissa < 0 {
                assert((-kept) * coarse == -(kept * coarse)) by (nonlinear_arith);
                assert(self.mantissa * fine == -(magnitude * fine)) by (nonlinear_arith)
                    requires
                        magnitude == -self.mantissa,
                ;
            }
        }
    }
}

/// Writing a mantissa at a larger scale leaves its units as they are.
proof fn lemma_align_units(mantissa: int, scale: nat, larger: nat)
    requires
        scale <= larger <= MAX_SCALE,
    ensures
        (mantissa * pow10((larger - scale) as nat)) * pow10((MAX_SCALE - larger) as nat)
            == mantissa * pow10((MAX_SCALE - scale) as nat),
{
    lemma_pow10_adds((larger - scale) as nat, (MAX_SCALE - larger) as nat);
    assert((mantissa * pow10((larger - scale) as nat)) * pow10((MAX_SCALE - larger) as nat)
        == mantissa * (pow10((larger - scale) as nat) * pow10((MAX_SCALE - larger) as nat)))
        by (nonlinear_arith);
}

/// A decimal amount of money: `mantissa / 10^scale` with a mantissa of at most
/// 96 bits and a scale of at most 28. What an amount holds is its view, a
/// [`Decimal`].
///
/// Two amounts are equal when they are written alike: `1.0` and `1.00` are
/// one number and two amounts. [`Amount::less_than`] compares the numbers.
#[derive(Clone, Copy, Debug, PartialEq, Eq, Hash, Structural)]
pub struct Amount {
    mantissa: i128,
    scale: u32,
}

impl View for Amount {
    type V = Decimal;

    closed spec fn view(&self) -> Decimal {
        Decimal { mantissa: self.mantissa as int, scale: self.scale as nat }
    }
}

impl Amount {
    /// What every amount is held to: its mantissa has at most 96 bits, and
    /// its scale is at most 28.
    #[verifier::type_invariant]
    pub open spec fn inv(self) -> bool {
        self@.wf()
    }

    /// The amount that holds `decimal`, where there is one.
    pub closed spec fn of(decimal: Decimal) -> Amount {
        Amount { mantissa: decimal.mantissa as i128, scale: decimal.scale as u32 }
    }

    /// `of` gives the amount that holds a decimal, if the decimal is one
    /// that an amount can hold.
    pub proof fn lemma_of_holds(decimal: Decimal)
        requires
            decimal.wf(),
        ensures
            Amount::of(decimal)@ == decimal,
    {
    }

    /// Two amounts that hold the same decimal are the same amount.
    pub proof fn lemma_same_view(self, other: Amount)
        requires
            self@ == other@,
        ensures
            self == other,
    {
    }

    /// The amount with the given mantissa and scale, if there is one.
    pub fn from_parts(mantissa: i128, scale: u32) -> (amount: Option<Amount>)
        ensures
            match amount {
                Some(a) => a@.wf() && a@ == (Decimal {
                    mantissa: mantissa as int,
                    scale: scale as nat,
                }),
                None => !(Decimal { mantissa: mantissa as int, scale: scale as nat }).wf(),
            },
    {
        if -MAX_MANTISSA <= mantissa && mantissa <= MAX_MANTISSA && scale <= MAX_SCALE {
            Some(Amount { mantissa, scale })
        } else {
            None
        }
    }

    /// Zero, written without a scale.
    pub fn zero() -> (amount: Amount)
        ensures
            amount@ == Decimal::zero(),
    {
        Amount { mantissa: 0, scale: 0 }
    }

    /// The mantissa: the amount in units of `10^-scale`.
    pub fn mantissa(&self) -> (m: i128)
        ensures
            m == self@.mantissa,
    {
        self.mantissa
    }

    /// The scale: the number of fractional digits.
    pub fn scale(&self) -> (s: u32)
        ensures
            s == self@.scale,
    {
        self.scale
    }

    /// Whether the amount is zero, whatever its scale.
    pub fn is_zero(&self) -> (zero: bool)
        ensures
            zero == self@.is_zero(),
    {
        self.mantissa == 0
    }

    /// Whether the amount is below zero.
    pub fn is_negative(&self) -> (negative: bool)
        ensures
            negative == (self@.mantissa < 0),
            negative == self@.below(Decimal::zero()),
    {
        proof {
            lemma_pow10_positive((MAX_SCALE - self.scale) as nat);
            lemma_mul_sign(self.mantissa as int, pow10((MAX_SCALE - self.scale) as nat));
        }
        self.mantissa < 0
    }

    /// The amount with the sign turned.
    pub fn negated(self) -> (negation: Amount)
        ensures
            negation@ == self@.negated(),
    {
        proof {
            use_type_invariant(&self);
        }
        Amount { mantissa: -self.mantissa, scale: self.scale }
    }

    /// The exact sum of two amounts, if an amount can hold it.
    pub fn checked_add(self, other: Amount) -> (sum: Option<Amount>)
        ensures
            match sum {
                Some(sum) => self@.plus(other@).wf() && sum@ == self@.plus(other@),
                None => !self@.plus(other@).wf(),
            },
    {
        if sum_fits(self, other) {
            proof {
                use_type_invariant(&self);
                use_type_invariant(&other);
            }
            decimal_checked_add(self, other)
        } else {
            None
        }
    }

    /// The exact difference of two amounts, if an amount can hold it.
    pub fn checked_sub(self, other: Amount) -> (difference: Option<Amount>)
        ensures
            match difference {
                Some(difference) => self@.minus(other@).wf() && difference@ == self@.minus(
                    other@,
                ),
                None => !self@.minus(other@).wf(),
            },
    {
        if sum_fits(self, other.negated()) {
            proof {
                use_type_invariant(&self);
                use_type_invariant(&other);
            }
            decimal_checked_sub(self, other)
        } else {
            None
        }
    }

    /// Whether this amount is below `other`.
    pub fn less_than(self, other: Amount) -> (below: bool)
        ensures
            below == self@.below(other@),
    {
        proof {
            use_type_invariant(&self);
            use_type_invariant(&other);
        }
        decimal_less_than(self, other)
    }

    /// The amount rounded to at most `places` fractional digits, a tie going
    /// away from zero.
    pub fn round_dp(self, places: u32) -> (rounded: Amount)
        ensures
            rounded@ == self@.rounded(places as nat),
    {
        proof {
            use_type_invariant(&self);
        }
        decimal_round_dp(self, places)
    }

    /// The amount brought down to at most `scale` fractional digits, a tie
    /// going away from zero. The scale is never raised: an amount with fewer
    /// digits is left as it is.
    pub fn rescale(self, scale: u32) -> (rescaled: Amount)
        ensures
            rescaled@ == self@.rounded(scale as nat),
    {
        if self.scale > scale {
            proof {
                use_type_invariant(&self);
            }
            decimal_rescale(self, scale)
        } else {
            self
        }
    }

    /// The amount with zero written in one way only.
    pub fn normalized(self) -> (normal: Amount)
        ensures
            normal@ == self@.normalized(),
    {
        if self.mantissa == 0 {
            Amount::zero()
        } else {
            self
        }
    }
}

/// Each power of ten is ten times the one before.
pub proof fn lemma_pow10_step(n: nat)
    ensures
        pow10(n + 1) == 10 * pow10(n),
{
}

/// `10^n` is positive.
pub proof fn lemma_pow10_positive(n: nat)
    ensures
        pow10(n) >= 1,
    decreases n,
{
    if n > 0 {
        lemma_pow10_positive((n - 1) as nat);
        lemma_pow10_step((n - 1) as nat);
    }
}

/// `10^(m + n) == 10^m * 10^n`.
pub proof fn lemma_pow10_adds(m: nat, n: nat)
    ensures
        pow10(m + n) == pow10(m) * pow10(n),
    decreases m,
{
    if m > 0 {
        lemma_pow10_adds((m - 1) as nat, n);
        lemma_pow10_step((m - 1) as nat);
        lemma_pow10_step((m - 1 + n) as nat);
        assert(10 * (pow10((m - 1) as nat) * pow10(n)) == (10 * pow10((m - 1) as nat)) * pow10(n))
            by (nonlinear_arith);
    }
}

/// A product with a positive number has the sign of the other factor.
proof fn lemma_mul_sign(m: int, p: int)
    requires
        p >= 1,
    ensures
        (m < 0) == (m * p < 0),
        (m == 0) == (m * p == 0),
{
    assert((m < 0) == (m * p < 0) && (m == 0) == (m * p == 0)) by (nonlinear_arith)
        requires
            p >= 1,
    ;
}

/// `10^n` for a scale `n`.
fn power_of_ten(n: u32) -> (power: i128)
    requires
        n <= MAX_SCALE,
    ensures
        power == pow10(n as nat),
{
    let mut power: i128 = 1;
    let mut i: u32 = 0;
    while i < n
        invariant
            i <= n <= MAX_SCALE,
            power == pow10(i as nat),
        decreases n - i,
    {
        proof {
            lemma_pow10_step(i as nat);
        }
        power = power * 10;
        i = i + 1;
    }
    power
}

/// Whether an amount can hold the exact sum of `a` and `b`.
fn sum_fits(a: Amount, b: Amount) -> (fits: bool)
    ensures
        fits == a@.plus(b@).wf(),
{
    proof {
        use_type_invariant(&a);
        use_type_invariant(&b);
    }
    if a.mantissa == 0 || b.mantissa == 0 {
        return true;
    }
    let (fine, coarse) = if a.scale >= b.scale {
        (a, b)
    } else {
        (b, a)
    };
    let unit = power_of_ten(fine.scale - coarse.scale);
    match coarse.mantissa.checked_mul(unit) {
        None => false,
        Some(aligned) => match aligned.checked_add(fine.mantissa) {
            None => false,
            Some(total) => -MAX_MANTISSA <= total && total <= MAX_MANTISSA,
        },
    }
}

/// `Decimal::checked_add` of `rust_decimal`. Where the exact sum, taken at the
/// larger of the two scales, has a mantissa of at most 96 bits, the call
/// returns that sum at that scale; where one operand is zero it returns the
/// other as it is. Of the remaining sums, which it rounds or refuses, nothing
/// is claimed.
#[verifier::external_body]
fn decimal_checked_add(a: Amount, b: Amount) -> (sum: Option<Amount>)
    requires
        a@.wf(),
        b@.wf(),
    ensures
        a@.plus(b@).wf() ==> sum is Some && sum->0@ == a@.plus(b@),
{
    let x = rust_decimal::Decimal::from_i128_with_scale(a.mantissa, a.scale);
    let y = rust_decimal::Decimal::from_i128_with_scale(b.mantissa, b.scale);
    match x.checked_add(y) {
        Some(d) => Some(Amount { mantissa: d.mantissa(), scale: d.scale() }),
        None => None,
    }
}

/// `Decimal::checked_sub` of `rust_decimal`. Where the exact difference, taken
/// at the larger of the two scales, has a mantissa of at most 96 bits, the
/// call returns that difference at that scale; from zero it returns the
/// negation of the other operand, and less zero the operand as it is. Of the
/// remaining differences nothing is claimed.
#[verifier::external_body]
fn decimal_checked_sub(a: Amount, b: Amount) -> (difference: Option<Amount>)
    requires
        a@.wf(),
        b@.wf(),
    ensures
        a@.minus(b@).wf() ==> difference is Some && difference->0@ == a@.minus(b@),
{
    let x = rust_decimal::Decimal::from_i128_with_scale(a.mantissa, a.scale);
    let y = rust_decimal::Decimal::from_i128_with_scale(b.mantissa, b.scale);
    match x.checked_sub(y) {
        Some(d) => Some(Amount { mantissa: d.mantissa(), scale: d.scale() }),
        None => None,
    }
}

/// The `<` of `rust_decimal`'s `Decimal`, which compares the numbers and not
/// how they are written: `1.0` is not below `1.00`.
#[verifier::external_body]
fn decimal_less_than(a: Amount, b: Amount) -> (below: bool)
    requires
        a@.wf(),
        b@.wf(),
    ensures
        below == a@.below(b@),
{
    let x = rust_decimal::Decimal::from_i128_with_scale(a.mantissa, a.scale);
    let y = rust_decimal::Decimal::from_i128_with_scale(b.mantissa, b.scale);
    x < y
}

/// `Decimal::round_dp_with_strategy` of `rust_decimal`, with the strategy
/// `MidpointAwayFromZero`: a number with more than `places` fractional digits
/// comes back with exactly `places`, the nearest such number, a tie going
/// away from zero; any other comes back as it is.
#[verifier::external_body]
fn decimal_round_dp(a: Amount, places: u32) -> (rounded: Amount)
    requires
        a@.wf(),
    ensures
        rounded@ == a@.rounded(places as nat),
{
    let x = rust_decimal::Decimal::from_i128_with_scale(a.mantissa, a.scale);
    let r = x.round_dp_with_strategy(places, rust_decimal::RoundingStrategy::MidpointAwayFromZero);
    Amount { mantissa: r.mantissa(), scale: r.scale() }
}

/// `Decimal::rescale` of `rust_decimal`, for a scale below the number's own:
/// the number comes back with exactly `scale` fractional digits, the nearest
/// such number, a tie going away from zero.
#[verifier::external_body]
fn decimal_rescale(a: Amount, scale: u32) -> (rescaled: Amount)
    requires
        a@.wf(),
        scale < a@.scale,
    ensures
        rescaled@ == a@.rounded(scale as nat),
{
    let mut x = rust_decimal::Decimal::from_i128_with_scale(a.mantissa, a.scale);
    x.rescale(scale);
    Amount { mantissa: x.mantissa(), scale: x.scale() }
}

} // verus!
