//! Money as a fixed-point decimal with four fractional digits.
//!
//! An [`Amount`] holds the number of ten-thousandths as an integer, so sums and
//! differences are exact. Text is turned into an amount by reading it as a
//! decimal, rounding half-to-even at the fourth fractional digit and refusing
//! what is negative or too large.

use rust_decimal::Decimal;
use std::cmp::Ordering;
use vstd::prelude::*;
use vstd::std_specs::cmp::PartialOrdSpecImpl;

verus! {

/// The error of `rust_decimal`, carried from the parser to where it is mapped.
#[verifier::external_type_specification]
#[verifier::external_body]
pub struct ExDecimalError(rust_decimal::Error);

/// The number of fractional digits every amount carries.
pub const PRECISION: u32 = 4;

/// The largest mantissa an amount holds: `2^96 - 1`, the bound of a 96-bit
/// decimal, so that every amount is a decimal of scale four.
pub const MAX_MANTISSA: i128 = 79_228_162_514_264_337_593_543_950_335;

/// Whether `v` ten-thousandths can be held by an [`Amount`].
pub open spec fn in_range(v: int) -> bool {
    -MAX_MANTISSA <= v <= MAX_MANTISSA
}

/// The largest scale a decimal has.
pub const MAX_SCALE: u32 = 28;

/// Why a text or a decimal is not an amount.
#[derive(Clone, Copy, Debug, PartialEq, Eq, Structural)]
pub enum AmountError {
    /// The text is no decimal literal, or the parts are those of no decimal.
    Invalid,
    /// The value, once rounded, is below zero.
    Negative,
    /// The value, once rounded, is above what an amount holds.
    Overflow,
}

/// A decimal number as plain values: `mantissa / 10^scale`.
#[derive(Clone, Copy, Debug, PartialEq, Eq, Structural)]
pub struct DecimalParts {
    pub mantissa: i128,
    pub scale: u32,
}

/// Ten to the power `n`.
pub open spec fn pow10(n: nat) -> nat
    decreases n,
{
    if n == 0 {
        1
    } else {
        10 * pow10((n - 1) as nat)
    }
}

/// `n / d` rounded to the nearest integer, a tie going to the even neighbour.
pub open spec fn round_half_even(n: nat, d: nat) -> nat
    recommends
        d > 0,
{
    let q = n / d;
    let r = n % d;
    if 2 * r < d {
        q
    } else if 2 * r > d {
        q + 1
    } else if q % 2 == 0 {
        q
    } else {
        q + 1
    }
}

/// The mantissa that `mantissa / 10^scale` has at four fractional digits:
/// scaled up exactly where the scale is at most four, rounded half-to-even
/// (on the magnitude, the sign kept) where it is more.
pub open spec fn rescaled(mantissa: int, scale: nat) -> int {
    if scale <= PRECISION {
        mantissa * pow10((PRECISION - scale) as nat)
    } else if mantissa >= 0 {
        round_half_even(mantissa as nat, pow10((scale - PRECISION) as nat)) as int
    } else {
        -(round_half_even((-mantissa) as nat, pow10((scale - PRECISION) as nat)) as int)
    }
}

impl DecimalParts {
    /// Whether these are the parts of a 96-bit decimal: a scale of at most 28
    /// and a mantissa strictly between `-2^96` and `2^96`.
    pub open spec fn is_decimal(self) -> bool {
        self.scale <= MAX_SCALE && in_range(self.mantissa as int)
    }

    /// What the decimal is as an amount: its mantissa in ten-thousandths, or
    /// the reason why it is none. Rounding comes first, so a negative value
    /// that rounds to zero is the amount zero.
    pub open spec fn as_amount(self) -> Result<int, AmountError> {
        if !self.is_decimal() {
            Err(AmountError::Invalid)
        } else {
            let v = rescaled(self.mantissa as int, self.scale as nat);
            if v < 0 {
                Err(AmountError::Negative)
            } else if v > MAX_MANTISSA {
                Err(AmountError::Overflow)
            } else {
                Ok(v)
            }
        }
    }
}

/// What `rust_decimal::Decimal::from_str_exact` makes of a text: the parts of
/// the decimal it reads, or `None` where it refuses the text.
pub uninterp spec fn decimal_from_str_exact(text: Seq<char>) -> Option<DecimalParts>;

/// Calls `rust_decimal::Decimal::from_str_exact` and hands the decimal back as
/// its mantissa and scale. Trusted: that the outcome is a function of the text
/// alone, which the contract names `decimal_from_str_exact`.
#[verifier::external_body]
fn parse_decimal(text: &str) -> (r: Result<DecimalParts, rust_decimal::Error>)
    ensures
        match r {
            Ok(parts) => decimal_from_str_exact(text@) == Some(parts),
            Err(_) => decimal_from_str_exact(text@) is None,
        },
{
    match Decimal::from_str_exact(text) {
        Ok(d) => Ok(DecimalParts { mantissa: d.mantissa(), scale: d.scale() }),
        Err(e) => Err(e),
    }
}

/// What a parsed text is as an amount.
pub open spec fn parsed_as_amount(parsed: Option<DecimalParts>) -> Result<int, AmountError> {
    match parsed {
        Some(parts) => parts.as_amount(),
        None => Err(AmountError::Invalid),
    }
}

/// `pow10` by hand for the exponents the rounding needs.
pub proof fn lemma_pow10_values()
    ensures
        pow10(0) == 1,
        pow10(1) == 10,
        pow10(2) == 100,
        pow10(3) == 1_000,
        pow10(4) == 10_000,
        pow10(24) == 1_000_000_000_000_000_000_000_000,
{
    reveal_with_fuel(pow10, 25);
}

/// `pow10` grows with its exponent.
pub proof fn lemma_pow10_monotonic(a: nat, b: nat)
    requires
        a <= b,
    ensures
        1 <= pow10(a) <= pow10(b),
    decreases b,
{
    if b == 0 {
    } else if a == b {
        lemma_pow10_monotonic(0, (b - 1) as nat);
    } else {
        lemma_pow10_monotonic(a, (b - 1) as nat);
    }
}

/// A decimal of at most four fractional digits is taken as it is: where it
/// is not negative and fits, the amount is its value, with nothing rounded
/// away.
pub proof fn lemma_short_decimals_are_exact(parts: DecimalParts)
    requires
        parts.is_decimal(),
        parts.scale <= PRECISION,
        0 <= parts.mantissa * pow10((PRECISION - parts.scale) as nat) <= MAX_MANTISSA,
    ensures
        parts.as_amount() == Ok::<int, AmountError>(
            parts.mantissa * pow10((PRECISION - parts.scale) as nat),
        ),
{
}

/// An amount that is not negative, written out with four fractional digits
/// and read again, is the same amount.
pub proof fn lemma_round_trip(v: int)
    requires
        0 <= v <= MAX_MANTISSA,
    ensures
        (DecimalParts { mantissa: v as i128, scale: PRECISION }).as_amount() == Ok::<
            int,
            AmountError,
        >(v),
{
    lemma_pow10_values();
    let parts = DecimalParts { mantissa: v as i128, scale: PRECISION };
    assert(parts.mantissa == v);
    assert((PRECISION - parts.scale) as nat == 0);
    assert(rescaled(v, PRECISION as nat) == v * 1);
}

/// Rounding moves a value by at most half a ten-thousandth, and a tie goes to
/// the even neighbour.
pub proof fn lemma_round_half_even(n: nat, d: nat)
    requires
        d > 0,
    ensures
        2 * (round_half_even(n, d) * d - n) <= d,
        2 * (n - round_half_even(n, d) * d) <= d,
        2 * (n % d) == d ==> round_half_even(n, d) % 2 == 0,
{
    let q = n / d;
    let r = n % d;
    assert(n == q * d + r && 0 <= r < d) by (nonlinear_arith)
        requires
            q == n / d,
            r == n % d,
            d > 0,
    ;
    assert((q + 1) * d == q * d + d) by (nonlinear_arith);
    if 2 * r == d && q % 2 != 0 {
        assert((q + 1) % 2 == 0) by (nonlinear_arith)
            requires
                q % 2 != 0,
        ;
    }
}

/// Ten to the power `n`, for `n` up to 24.
fn pow10_exec(n: u32) -> (r: u128)
    requires
        n <= 24,
    ensures
        r == pow10(n as nat),
        1 <= r <= 1_000_000_000_000_000_000_000_000,
{
    let mut r: u128 = 1;
    let mut i: u32 = 0;
    proof {
        lemma_pow10_values();
    }
    while i < n
        invariant
            i <= n <= 24,
            r == pow10(i as nat),
            r <= pow10(24),
        decreases n - i,
    {
        proof {
            lemma_pow10_monotonic((i + 1) as nat, 24);
            lemma_pow10_values();
        }
        r = r * 10;
        i = i + 1;
    }
    proof {
        lemma_pow10_monotonic(n as nat, 24);
        lemma_pow10_values();
    }
    r
}

/// A monetary value in ten-thousandths of a unit.
///
/// The type offers neither `Debug` nor `Display`: balances cannot end up in a
/// log by accident.
#[derive(Clone, Copy, PartialEq, Eq, Structural)]
pub struct Amount {
    mantissa: i128,
}

impl View for Amount {
    type V = int;

    /// The amount as a count of ten-thousandths.
    closed spec fn view(&self) -> int {
        self.mantissa as int
    }
}

impl PartialOrd for Amount {
    /// Amounts are ordered as the numbers they stand for.
    fn partial_cmp(&self, other: &Amount) -> (r: Option<Ordering>) {
        if self.mantissa < other.mantissa {
            Some(Ordering::Less)
        } else if self.mantissa == other.mantissa {
            Some(Ordering::Equal)
        } else {
            Some(Ordering::Greater)
        }
    }
}

impl PartialOrdSpecImpl for Amount {
    open spec fn obeys_partial_cmp_spec() -> bool {
        true
    }

    open spec fn partial_cmp_spec(&self, other: &Amount) -> Option<Ordering> {
        if self@ < other@ {
            Some(Ordering::Less)
        } else if self@ == other@ {
            Some(Ordering::Equal)
        } else {
            Some(Ordering::Greater)
        }
    }
}

impl Amount {
    /// The amount that stands for `v` ten-thousandths.
    pub closed spec fn of(v: int) -> Amount {
        Amount { mantissa: v as i128 }
    }

    /// `of` is the inverse of the view on what an amount holds.
    pub proof fn lemma_of(v: int)
        requires
            in_range(v),
        ensures
            Amount::of(v)@ == v,
    {
    }
}

impl std::ops::Add for Amount {
    type Output = Amount;

    /// The sum. The caller shows that it can be held; `checked_add` is there
    /// for where that is not known.
    fn add(self, rhs: Amount) -> (r: Amount) {
        proof {
            use_type_invariant(self);
            use_type_invariant(rhs);
        }
        Amount { mantissa: self.mantissa + rhs.mantissa }
    }
}

impl vstd::std_specs::ops::AddSpecImpl for Amount {
    open spec fn obeys_add_spec() -> bool {
        true
    }

    open spec fn add_req(self, rhs: Amount) -> bool {
        in_range(self@ + rhs@)
    }

    open spec fn add_spec(self, rhs: Amount) -> Amount {
        Amount::of(self@ + rhs@)
    }
}

impl std::ops::Sub for Amount {
    type Output = Amount;

    /// The difference. The caller shows that it can be held; `checked_sub`
    /// is there for where that is not known.
    fn sub(self, rhs: Amount) -> (r: Amount) {
        proof {
            use_type_invariant(self);
            use_type_invariant(rhs);
        }
        Amount { mantissa: self.mantissa - rhs.mantissa }
    }
}

impl vstd::std_specs::ops::SubSpecImpl for Amount {
    open spec fn obeys_sub_spec() -> bool {
        true
    }

    open spec fn sub_req(self, rhs: Amount) -> bool {
        in_range(self@ - rhs@)
    }

    open spec fn sub_spec(self, rhs: Amount) -> Amount {
        Amount::of(self@ - rhs@)
    }
}

impl Amount {
    #[verifier::type_invariant]
    spec fn fits_decimal(self) -> bool {
        in_range(self.mantissa as int)
    }

    /// The amount zero.
    pub fn zero() -> (r: Amount)
        ensures
            r@ == 0,
    {
        Amount { mantissa: 0 }
    }

    /// The amount a decimal stands for, given as its parts: rounded
    /// half-to-even at the fourth fractional digit, then refused where it is
    /// negative or too large. Parts that are those of no decimal are refused
    /// as invalid.
    pub fn from_parts(parts: DecimalParts) -> (r: Result<Amount, AmountError>)
        ensures
            match parts.as_amount() {
                Ok(v) => r matches Ok(a) && a@ == v,
                Err(e) => r matches Err(f) && f == e,
            },
    {
        let m: i128 = parts.mantissa;
        let s: u32 = parts.scale;
        if s > MAX_SCALE || m > MAX_MANTISSA || m < -MAX_MANTISSA {
            return Err(AmountError::Invalid);
        }
        if s <= PRECISION {
            let factor: u128 = pow10_exec(PRECISION - s);
            proof {
                lemma_pow10_monotonic((PRECISION - s) as nat, 4);
                lemma_pow10_values();
            }
            let f: i128 = factor as i128;
            assert(-MAX_MANTISSA * 10_000 <= m * f <= MAX_MANTISSA * 10_000) by (nonlinear_arith)
                requires
                    -MAX_MANTISSA <= m <= MAX_MANTISSA,
                    1 <= f <= 10_000,
            ;
            let v: i128 = m * f;
            if v < 0 {
                Err(AmountError::Negative)
            } else if v > MAX_MANTISSA {
                Err(AmountError::Overflow)
            } else {
                Ok(Amount { mantissa: v })
            }
        } else {
            let d: u128 = pow10_exec(s - PRECISION);
            proof {
                lemma_pow10_monotonic(1, (s - PRECISION) as nat);
                lemma_pow10_values();
            }
            let n: u128 = if m < 0 {
                (-m) as u128
            } else {
                m as u128
            };
            let q: u128 = n / d;
            let rem: u128 = n % d;
            assert(n == q * d + rem && q <= n) by (nonlinear_arith)
                requires
                    q == n / d,
                    rem == n % d,
                    d >= 10,
            ;
            let twice: u128 = 2 * rem;
            let up: bool = twice > d || (twice == d && q % 2 == 1);
            assert(up ==> q + 1 <= n) by (nonlinear_arith)
                requires
                    n == q * d + rem,
                    d >= 10,
                    up ==> 2 * rem >= d,
            ;
            let rounded: u128 = if up {
                q + 1
            } else {
                q
            };
            assert(rounded == round_half_even(n as nat, d as nat));
            if m < 0 && rounded > 0 {
                Err(AmountError::Negative)
            } else {
                Ok(Amount { mantissa: rounded as i128 })
            }
        }
    }

    /// Reads a decimal literal as an amount. The text is read by
    /// `rust_decimal`; what it reads is rounded half-to-even at the fourth
    /// fractional digit, and refused where it is then negative or too large.
    pub fn parse(text: &str) -> (r: Result<Amount, AmountError>)
        ensures
            match parsed_as_amount(decimal_from_str_exact(text@)) {
                Ok(v) => r matches Ok(a) && a@ == v,
                Err(e) => r matches Err(f) && f == e,
            },
    {
        match parse_decimal(text) {
            Ok(parts) => Amount::from_parts(parts),
            Err(_) => Err(AmountError::Invalid),
        }
    }

    /// The amount at four fractional digits. An amount never carries more, so
    /// this is the amount itself.
    pub fn round(self) -> (r: Amount)
        ensures
            r == self,
    {
        self
    }

    /// The amount as the parts of a decimal of scale four, from which
    /// `from_parts` gives the amount back where it is not negative.
    pub fn to_parts(&self) -> (r: DecimalParts)
        ensures
            r.mantissa == self@,
            r.scale == PRECISION,
            r.is_decimal(),
            self@ >= 0 ==> r.as_amount() == Ok::<int, AmountError>(self@),
    {
        proof {
            use_type_invariant(self);
            if self@ >= 0 {
                lemma_round_trip(self@);
            }
        }
        DecimalParts { mantissa: self.mantissa, scale: PRECISION }
    }

    /// Whether the amount is below zero.
    pub fn is_negative(&self) -> (r: bool)
        ensures
            r == (self@ < 0),
    {
        self.mantissa < 0
    }

    /// The amount as a count of ten-thousandths, always within
    /// `-MAX_MANTISSA ..= MAX_MANTISSA`.
    pub fn mantissa(&self) -> (r: i128)
        ensures
            r == self@,
            in_range(r as int),
    {
        proof {
            use_type_invariant(self);
        }
        self.mantissa
    }

    /// The sum, or `None` where it cannot be held.
    pub fn checked_add(self, rhs: Amount) -> (r: Option<Amount>)
        ensures
            match r {
                Some(s) => s@ == self@ + rhs@ && in_range(s@),
                None => !in_range(self@ + rhs@),
            },
    {
        proof {
            use_type_invariant(self);
            use_type_invariant(rhs);
        }
        let sum: i128 = self.mantissa + rhs.mantissa;
        if sum > MAX_MANTISSA || sum < -MAX_MANTISSA {
            None
        } else {
            Some(Amount { mantissa: sum })
        }
    }

    /// The difference, or `None` where it cannot be held.
    pub fn checked_sub(self, rhs: Amount) -> (r: Option<Amount>)
        ensures
            match r {
                Some(s) => s@ == self@ - rhs@ && in_range(s@),
                None => !in_range(self@ - rhs@),
            },
    {
        proof {
            use_type_invariant(self);
            use_type_invariant(rhs);
        }
        let diff: i128 = self.mantissa - rhs.mantissa;
        if diff > MAX_MANTISSA || diff < -MAX_MANTISSA {
            None
        } else {
            Some(Amount { mantissa: diff })
        }
    }

    /// Two amounts with the same view are the same amount.
    pub proof fn lemma_view_injective(a: Amount, b: Amount)
        requires
            a@ == b@,
        ensures
            a == b,
    {
    }
}

} // verus!
