//! Exact decimal money, held as a mantissa and a power-of-ten scale, with the
//! arithmetic done by `rust_decimal`.

use rust_decimal::Decimal;
use vstd::prelude::*;

verus! {

/// Largest magnitude of a mantissa: 96 bits.
pub const MAX_MANTISSA: i128 = 0xFFFF_FFFF_FFFF_FFFF_FFFF_FFFF;

/// Largest number of digits after the decimal point.
pub const MAX_SCALE: u32 = 28;

/// Ten to the power `n`.
pub open spec fn pow10(n: nat) -> int
    decreases n,
{
    if n == 0 {
        1
    } else {
        10 * pow10((n - 1) as nat)
    }
}

/// Whether `m * 10^-s` is a number a decimal can hold with exactly that mantissa and scale.
pub open spec fn fits_decimal(m: int, s: int) -> bool {
    -MAX_MANTISSA <= m <= MAX_MANTISSA && 0 <= s <= MAX_SCALE
}

/// A decimal amount `mantissa * 10^-scale`.
pub struct Money {
    mantissa: i128,
    scale: u32,
}

impl Money {
    #[verifier::type_invariant]
    spec fn inv(self) -> bool {
        fits_decimal(self.mantissa as int, self.scale as int)
    }

    pub closed spec fn mantissa_spec(self) -> int {
        self.mantissa as int
    }

    pub closed spec fn scale_spec(self) -> nat {
        self.scale as nat
    }

    /// The amount, counted in units of `10^-28`.
    pub open spec fn value(self) -> int {
        self.mantissa_spec() * pow10((MAX_SCALE - self.scale_spec()) as nat)
    }

    /// `mantissa * 10^-scale`, or `None` where a decimal cannot hold it.
    pub fn new(mantissa: i128, scale: u32) -> (r: Option<Money>)
        ensures
            r.is_some() == fits_decimal(mantissa as int, scale as int),
            r matches Some(m) ==> m.mantissa_spec() == mantissa && m.scale_spec() == scale,
    {
        if -MAX_MANTISSA <= mantissa && mantissa <= MAX_MANTISSA && scale <= MAX_SCALE {
            Some(Money { mantissa, scale })
        } else {
            None
        }
    }

    /// Zero.
    pub fn zero() -> (r: Money)
        ensures
            r.mantissa_spec() == 0,
            r.scale_spec() == 0,
            r.value() == 0,
    {
        Money { mantissa: 0, scale: 0 }
    }

    pub fn mantissa(&self) -> (r: i128)
        ensures
            r == self.mantissa_spec(),
            fits_decimal(self.mantissa_spec(), self.scale_spec() as int),
    {
        proof {
            use_type_invariant(self);
        }
        self.mantissa
    }

    pub fn scale(&self) -> (r: u32)
        ensures
            r == self.scale_spec(),
            fits_decimal(self.mantissa_spec(), self.scale_spec() as int),
    {
        proof {
            use_type_invariant(self);
        }
        self.scale
    }

    /// The same amount, as a new value.
    pub fn copy(&self) -> (r: Money)
        ensures
            r == *self,
    {
        proof {
            use_type_invariant(self);
        }
        Money { mantissa: self.mantissa, scale: self.scale }
    }
}

/// What `rust_decimal` gives for the product of the decimal `a` (mantissa,
/// scale) and the integer `n`: `None` where it overflows.
pub uninterp spec fn decimal_product(a: (int, int), n: int) -> Option<(int, int)>;

/// What `rust_decimal` gives for the sum of the decimals `a` and `b` (each a
/// mantissa and a scale): `None` where it overflows.
pub uninterp spec fn decimal_sum(a: (int, int), b: (int, int)) -> Option<(int, int)>;

/// The scale at which `a` and `b` are added: the larger of the two.
pub open spec fn common_scale(a: (int, int), b: (int, int)) -> int {
    if a.1 >= b.1 {
        a.1
    } else {
        b.1
    }
}

/// Whether the exact sum of `a` and `b` can be held at their common scale.
pub open spec fn sum_fits(a: (int, int), b: (int, int)) -> bool {
    let s = common_scale(a, b);
    fits_decimal(a.0 * pow10((s - a.1) as nat) + b.0 * pow10((s - b.1) as nat), s)
}

impl Money {
    /// The mantissa and the scale.
    pub open spec fn parts(self) -> (int, int) {
        (self.mantissa_spec(), self.scale_spec() as int)
    }
}

/// Relies on `Decimal::from_i128_with_scale` (which accepts any mantissa of 96
/// bits and scale up to 28), `Decimal::from(i32)` and `Decimal::checked_mul`:
/// the product keeps every digit whenever its exact mantissa fits in 96 bits
/// (a product by an integer keeps the decimal's scale), and is `None` only where
/// it does not.
#[verifier::external_body]
fn decimal_times(price: &Money, count: i32) -> (r: Option<Money>)
    ensures
        r.is_some() ==> decimal_product(price.parts(), count as int) == Some(r.unwrap().parts()),
        r.is_none() ==> decimal_product(price.parts(), count as int).is_none(),
        fits_decimal(price.mantissa_spec() * count, price.scale_spec() as int) ==> r.is_some()
            && r.unwrap().value() == price.value() * count,
{
    let d = Decimal::from_i128_with_scale(price.mantissa, price.scale);
    d.checked_mul(Decimal::from(count)).map(|p| Money { mantissa: p.mantissa(), scale: p.scale() })
}

/// Relies on `Decimal::from_i128_with_scale` and `Decimal::checked_add`: the sum
/// keeps every digit whenever the exact sum fits in 96 bits at the larger of the
/// two scales, and is `None` only where it does not.
#[verifier::external_body]
fn decimal_plus(a: &Money, b: &Money) -> (r: Option<Money>)
    ensures
        r.is_some() ==> decimal_sum(a.parts(), b.parts()) == Some(r.unwrap().parts()),
        r.is_none() ==> decimal_sum(a.parts(), b.parts()).is_none(),
        sum_fits(a.parts(), b.parts()) ==> r.is_some() && r.unwrap().value() == a.value()
            + b.value(),
{
    let x = Decimal::from_i128_with_scale(a.mantissa, a.scale);
    let y = Decimal::from_i128_with_scale(b.mantissa, b.scale);
    x.checked_add(y).map(|p| Money { mantissa: p.mantissa(), scale: p.scale() })
}

/// Relies on `Ord for Decimal`, which orders decimals by the numbers they stand for.
#[verifier::external_body]
fn decimal_cmp(a: &Money, b: &Money) -> (r: core::cmp::Ordering)
    ensures
        (r == core::cmp::Ordering::Less) == (a.value() < b.value()),
        (r == core::cmp::Ordering::Equal) == (a.value() == b.value()),
        (r == core::cmp::Ordering::Greater) == (a.value() > b.value()),
{
    let x = Decimal::from_i128_with_scale(a.mantissa, a.scale);
    let y = Decimal::from_i128_with_scale(b.mantissa, b.scale);
    x.cmp(&y)
}

impl Money {
    /// This amount times `count`; `None` where the product overflows.
    pub fn times(&self, count: i32) -> (r: Option<Money>)
        ensures
            r matches Some(p) ==> decimal_product(self.parts(), count as int) == Some(p.parts()),
            r is None ==> decimal_product(self.parts(), count as int) is None,
    {
        decimal_times(self, count)
    }

    /// The sum of two amounts; `None` where it overflows.
    pub fn plus(&self, other: &Money) -> (r: Option<Money>)
        ensures
            r matches Some(p) ==> decimal_sum(self.parts(), other.parts()) == Some(p.parts()),
            r is None ==> decimal_sum(self.parts(), other.parts()) is None,
    {
        decimal_plus(self, other)
    }

    /// Orders two amounts by the numbers they stand for.
    pub fn compare(&self, other: &Money) -> (r: core::cmp::Ordering)
        ensures
            (r == core::cmp::Ordering::Less) == (self.value() < other.value()),
            (r == core::cmp::Ordering::Equal) == (self.value() == other.value()),
            (r == core::cmp::Ordering::Greater) == (self.value() > other.value()),
    {
        decimal_cmp(self, other)
    }
}

} // verus!
