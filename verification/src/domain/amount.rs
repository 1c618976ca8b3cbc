//! Fixed-precision signed decimals.
//!
//! An [`Amount`] is a decimal number `mantissa / 10^scale` with a mantissa of
//! at most 96 bits and a scale of at most 28. Its arithmetic is that of
//! `rust_decimal`; the contracts here pin it down exactly wherever the sum or
//! difference is known to be produced without rounding, and by name
//! elsewhere.

use rust_decimal::Decimal;
use vstd::arithmetic::power::lemma_pow_adds;
use vstd::arithmetic::power::lemma_pow_positive;
use vstd::arithmetic::power::pow;
use vstd::prelude::*;
use vstd::std_specs::cmp::PartialEqSpecImpl;

verus! {

/// One more than the largest mantissa magnitude: 2^96.
pub const MANTISSA_LIMIT: i128 = 79228162514264337593543950336;

/// One more than the largest magnitude of a 64-bit mantissa: 2^64.
pub const WORD_LIMIT: i128 = 18446744073709551616;

/// The largest scale.
pub const MAX_SCALE: u32 = 28;

/// The mathematical value of an [`Amount`]: `mantissa / 10^scale`.
pub struct Dec {
    pub mantissa: int,
    pub scale: nat,
}

impl Dec {
    /// The mantissa fits in 96 bits and the scale is at most 28.
    pub open spec fn wf(self) -> bool {
        &&& -MANTISSA_LIMIT < self.mantissa < MANTISSA_LIMIT
        &&& self.scale <= MAX_SCALE
    }

    /// The value counted in units of 10^-28, which is an integer for every
    /// well-formed decimal.
    pub open spec fn units(self) -> int {
        self.mantissa * pow(10, (MAX_SCALE - self.scale) as nat)
    }

    pub open spec fn is_zero(self) -> bool {
        self.mantissa == 0
    }

    /// The same magnitude at the same scale, with the opposite sign.
    pub open spec fn negated(self) -> Dec {
        Dec { mantissa: -self.mantissa, scale: self.scale }
    }

    /// The mantissa that this value has when written at scale `s >= self.scale`.
    pub open spec fn mantissa_at(self, s: nat) -> int {
        if s == self.scale {
            self.mantissa
        } else {
            self.mantissa * pow(10, (s - self.scale) as nat)
        }
    }

    /// The mantissa's magnitude fits in 64 bits.
    pub open spec fn is_short(self) -> bool {
        -WORD_LIMIT < self.mantissa < WORD_LIMIT
    }
}

/// The zero of scale 0.
pub open spec fn zero() -> Dec {
    Dec { mantissa: 0, scale: 0 }
}

pub open spec fn max_scale(a: Dec, b: Dec) -> nat {
    if a.scale >= b.scale {
        a.scale
    } else {
        b.scale
    }
}

/// `a + b` written at the larger of the two scales.
pub open spec fn exact_sum(a: Dec, b: Dec) -> Dec {
    let s = max_scale(a, b);
    Dec { mantissa: a.mantissa_at(s) + b.mantissa_at(s), scale: s }
}

/// `a - b` written at the larger of the two scales.
pub open spec fn exact_difference(a: Dec, b: Dec) -> Dec {
    let s = max_scale(a, b);
    Dec { mantissa: a.mantissa_at(s) - b.mantissa_at(s), scale: s }
}

/// Both mantissas fit in 64 bits and the scales are at most 19 apart: the
/// operands that are aligned and combined in one 128-bit operation.
pub open spec fn short_operands(a: Dec, b: Dec) -> bool {
    &&& a.is_short()
    &&& b.is_short()
    &&& a.scale <= b.scale + 19
    &&& b.scale <= a.scale + 19
}

/// The operands that are combined without rounding while the result fits:
/// short ones, and those of one scale, which need no alignment.
pub open spec fn aligned_operands(a: Dec, b: Dec) -> bool {
    short_operands(a, b) || a.scale == b.scale
}

/// The operands on which addition is known to be exact: one of them is zero,
/// or they are short or of one scale and their sum at the larger scale fits
/// in 96 bits.
pub open spec fn sum_is_plain(a: Dec, b: Dec) -> bool {
    a.is_zero() || b.is_zero() || (aligned_operands(a, b) && exact_sum(a, b).wf())
}

/// The sum on plain operands. Adding zero hands the other operand back at its
/// own scale.
pub open spec fn plain_sum(a: Dec, b: Dec) -> Dec {
    if a.is_zero() {
        b
    } else if b.is_zero() {
        a
    } else {
        exact_sum(a, b)
    }
}

/// The operands on which subtraction is known to be exact.
pub open spec fn difference_is_plain(a: Dec, b: Dec) -> bool {
    a.is_zero() || b.is_zero() || (aligned_operands(a, b) && exact_difference(a, b).wf())
}

/// The difference on plain operands. Subtracting from zero negates the other
/// operand at its own scale; subtracting zero hands the first operand back.
pub open spec fn plain_difference(a: Dec, b: Dec) -> Dec {
    if a.is_zero() {
        b.negated()
    } else if b.is_zero() {
        a
    } else {
        exact_difference(a, b)
    }
}

/// What `Decimal::checked_add` returns on operands that are not plain: the
/// sum rounded to the largest scale at which it fits, or `None` when not even
/// its integer part fits.
pub uninterp spec fn rounded_sum(a: Dec, b: Dec) -> Option<Dec>;

/// What `Decimal::checked_sub` returns on operands that are not plain.
pub uninterp spec fn rounded_difference(a: Dec, b: Dec) -> Option<Dec>;

/// The result of a checked addition.
pub open spec fn checked_sum(a: Dec, b: Dec) -> Option<Dec> {
    if sum_is_plain(a, b) {
        Some(plain_sum(a, b))
    } else {
        rounded_sum(a, b)
    }
}

/// The result of a checked subtraction.
pub open spec fn checked_difference(a: Dec, b: Dec) -> Option<Dec> {
    if difference_is_plain(a, b) {
        Some(plain_difference(a, b))
    } else {
        rounded_difference(a, b)
    }
}

/// A signed decimal of at most 96 bits of mantissa and a scale of at most 28.
#[derive(Clone, Copy, Debug)]
pub struct Amount {
    mantissa: i128,
    scale: u32,
}

impl View for Amount {
    type V = Dec;

    closed spec fn view(&self) -> Dec {
        Dec { mantissa: self.mantissa as int, scale: self.scale as nat }
    }
}

impl Amount {
    /// Holds of every amount that exists.
    #[verifier::type_invariant]
    pub open spec fn well_formed(self) -> bool {
        self@.wf()
    }

    /// The decimal `mantissa / 10^scale`, if it is representable.
    pub fn new(mantissa: i128, scale: u32) -> (r: Option<Amount>)
        ensures
            r is Some <==> (Dec { mantissa: mantissa as int, scale: scale as nat }).wf(),
            r matches Some(a) ==> a@ == (Dec { mantissa: mantissa as int, scale: scale as nat }),
    {
        if -MANTISSA_LIMIT < mantissa && mantissa < MANTISSA_LIMIT && scale <= MAX_SCALE {
            Some(Amount { mantissa, scale })
        } else {
            None
        }
    }

    /// The zero of scale 0.
    pub fn zero() -> (r: Amount)
        ensures
            r@ == self::zero(),
    {
        Amount { mantissa: 0, scale: 0 }
    }

    /// The whole number `n`.
    pub fn from_u64(n: u64) -> (r: Amount)
        ensures
            r@ == (Dec { mantissa: n as int, scale: 0 }),
    {
        Amount { mantissa: n as i128, scale: 0 }
    }

    pub fn mantissa(&self) -> (m: i128)
        ensures
            m == self@.mantissa,
            -MANTISSA_LIMIT < m < MANTISSA_LIMIT,
    {
        proof {
            use_type_invariant(self);
        }
        self.mantissa
    }

    pub fn scale(&self) -> (s: u32)
        ensures
            s == self@.scale,
            s <= MAX_SCALE,
    {
        proof {
            use_type_invariant(self);
        }
        self.scale
    }

    pub fn is_zero(&self) -> (r: bool)
        ensures
            r == self@.is_zero(),
    {
        self.mantissa == 0
    }

    pub fn is_sign_negative(&self) -> (r: bool)
        ensures
            r == (self@.mantissa < 0),
    {
        self.mantissa < 0
    }

    pub fn is_sign_positive(&self) -> (r: bool)
        ensures
            r == (self@.mantissa >= 0),
    {
        self.mantissa >= 0
    }

    /// The same magnitude with the opposite sign.
    pub fn negated(&self) -> (r: Amount)
        ensures
            r@ == self@.negated(),
    {
        proof {
            use_type_invariant(self);
        }
        Amount { mantissa: -self.mantissa, scale: self.scale }
    }

    /// `self + rhs`, or `None` on overflow.
    pub fn checked_add(self, rhs: Amount) -> (r: Option<Amount>)
        ensures
            value_of(r) == checked_sum(self@, rhs@),
    {
        decimal_checked_add(self, rhs)
    }

    /// `self - rhs`, or `None` on overflow.
    pub fn checked_sub(self, rhs: Amount) -> (r: Option<Amount>)
        ensures
            value_of(r) == checked_difference(self@, rhs@),
    {
        decimal_checked_sub(self, rhs)
    }

    /// The amount whose value is `d`, for a well-formed `d`.
    pub closed spec fn of(d: Dec) -> Amount {
        Amount { mantissa: d.mantissa as i128, scale: d.scale as u32 }
    }

    /// `of` is the inverse of the view on well-formed values.
    pub proof fn lemma_of_view(d: Dec)
        requires
            d.wf(),
        ensures
            Amount::of(d)@ == d,
    {
    }

    /// Two amounts with the same value and scale are the same amount.
    pub proof fn lemma_view_injective(a: Amount, b: Amount)
        requires
            a@ == b@,
        ensures
            a == b,
    {
    }

}

/// The value of an amount that may be missing.
pub open spec fn value_of(r: Option<Amount>) -> Option<Dec> {
    match r {
        Some(a) => Some(a@),
        None => None,
    }
}

impl PartialEq for Amount {
    /// Whether the two amounts are the same number, whatever their scales.
    fn eq(&self, other: &Amount) -> (r: bool) {
        decimal_eq(*self, *other)
    }
}

impl PartialEqSpecImpl for Amount {
    open spec fn obeys_eq_spec() -> bool {
        true
    }

    open spec fn eq_spec(&self, other: &Amount) -> bool {
        self@.units() == other@.units()
    }
}

/// Writing a value at a larger scale does not change it.
pub proof fn lemma_mantissa_at_units(a: Dec, s: nat)
    requires
        a.scale <= s <= MAX_SCALE,
    ensures
        a.mantissa_at(s) * pow(10, (MAX_SCALE - s) as nat) == a.units(),
{
    let up = (s - a.scale) as nat;
    let rest = (MAX_SCALE - s) as nat;
    vstd::arithmetic::power::lemma_pow0(10);
    lemma_pow_adds(10, up, rest);
    assert(up + rest == (MAX_SCALE - a.scale) as nat);
    assert(a.mantissa * pow(10, up) * pow(10, rest) == a.mantissa * (pow(10, up) * pow(10, rest)))
        by (nonlinear_arith);
}

/// The exact sum is the sum of the values.
pub proof fn lemma_exact_sum_units(a: Dec, b: Dec)
    requires
        a.scale <= MAX_SCALE,
        b.scale <= MAX_SCALE,
    ensures
        exact_sum(a, b).units() == a.units() + b.units(),
        exact_difference(a, b).units() == a.units() - b.units(),
{
    let s = max_scale(a, b);
    let p = pow(10, (MAX_SCALE - s) as nat);
    lemma_mantissa_at_units(a, s);
    lemma_mantissa_at_units(b, s);
    let x = a.mantissa_at(s);
    let y = b.mantissa_at(s);
    assert((x + y) * p == x * p + y * p) by (nonlinear_arith);
    assert((x - y) * p == x * p - y * p) by (nonlinear_arith);
}

/// On plain operands addition is exact: the result is representable and its
/// value is the sum of the operands' values.
pub proof fn lemma_plain_sum(a: Dec, b: Dec)
    requires
        a.wf(),
        b.wf(),
        sum_is_plain(a, b),
    ensures
        checked_sum(a, b) == Some(plain_sum(a, b)),
        plain_sum(a, b).wf(),
        plain_sum(a, b).units() == a.units() + b.units(),
{
    lemma_exact_sum_units(a, b);
    assert(0 * pow(10, (MAX_SCALE - a.scale) as nat) == 0);
    assert(0 * pow(10, (MAX_SCALE - b.scale) as nat) == 0);
}

/// On plain operands subtraction is exact: the result is representable and
/// its value is the difference of the operands' values.
pub proof fn lemma_plain_difference(a: Dec, b: Dec)
    requires
        a.wf(),
        b.wf(),
        difference_is_plain(a, b),
    ensures
        checked_difference(a, b) == Some(plain_difference(a, b)),
        plain_difference(a, b).wf(),
        plain_difference(a, b).units() == a.units() - b.units(),
{
    lemma_exact_sum_units(a, b);
    let p = pow(10, (MAX_SCALE - b.scale) as nat);
    assert(0 * pow(10, (MAX_SCALE - a.scale) as nat) == 0);
    assert(0 * p == 0);
    assert((-b.mantissa) * p == -(b.mantissa * p)) by (nonlinear_arith);
}

/// A value has the sign of its mantissa.
pub proof fn lemma_units_sign(a: Dec)
    requires
        a.scale <= MAX_SCALE,
    ensures
        a.units() < 0 <==> a.mantissa < 0,
        a.units() == 0 <==> a.mantissa == 0,
{
    let p = pow(10, (MAX_SCALE - a.scale) as nat);
    lemma_pow_positive(10, (MAX_SCALE - a.scale) as nat);
    assert(p > 0 ==> ((a.mantissa * p < 0) <==> a.mantissa < 0)) by (nonlinear_arith);
    assert(p > 0 ==> ((a.mantissa * p == 0) <==> a.mantissa == 0)) by (nonlinear_arith);
}

/// Calls `Decimal::checked_add` of `rust_decimal`. The contract claims what
/// the operation shows where it does not rescale by pieces: a zero operand
/// hands the other one back unchanged; two operands of at most 64 bits whose
/// scales are at most 19 apart are aligned to the larger scale and added
/// exactly whenever that sum fits in 96 bits; and so are two operands of one
/// scale, whatever their size. On every other pair the result is only named.
/// Every result is a `Decimal`, and so has at most 96 bits and a scale of at
/// most 28.
#[verifier::external_body]
fn decimal_checked_add(a: Amount, b: Amount) -> (r: Option<Amount>)
    ensures
        value_of(r) == if sum_is_plain(a@, b@) {
            Some(plain_sum(a@, b@))
        } else {
            rounded_sum(a@, b@)
        },
        r matches Some(sum) ==> sum@.wf(),
{
    let x = Decimal::from_i128_with_scale(a.mantissa, a.scale);
    let y = Decimal::from_i128_with_scale(b.mantissa, b.scale);
    match x.checked_add(y) {
        Some(z) => Some(Amount { mantissa: z.mantissa(), scale: z.scale() }),
        None => None,
    }
}

/// Calls `Decimal::checked_sub` of `rust_decimal`. The contract claims what
/// the operation shows where it does not rescale by pieces: subtracting from
/// zero negates the other operand, subtracting zero hands the first operand
/// back; two operands of at most 64 bits whose scales are at most 19 apart
/// are aligned to the larger scale and subtracted exactly whenever that
/// difference fits in 96 bits; and so are two operands of one scale,
/// whatever their size. On every other pair the result is only named. Every
/// result is a `Decimal`, and so has at most 96 bits and a scale of at most
/// 28.
#[verifier::external_body]
fn decimal_checked_sub(a: Amount, b: Amount) -> (r: Option<Amount>)
    ensures
        value_of(r) == if difference_is_plain(a@, b@) {
            Some(plain_difference(a@, b@))
        } else {
            rounded_difference(a@, b@)
        },
        r matches Some(difference) ==> difference@.wf(),
{
    let x = Decimal::from_i128_with_scale(a.mantissa, a.scale);
    let y = Decimal::from_i128_with_scale(b.mantissa, b.scale);
    match x.checked_sub(y) {
        Some(z) => Some(Amount { mantissa: z.mantissa(), scale: z.scale() }),
        None => None,
    }
}

/// Calls `==` of `rust_decimal::Decimal`, which compares the numbers and not
/// their representations: `1.0` equals `1.00`.
#[verifier::external_body]
fn decimal_eq(a: Amount, b: Amount) -> (r: bool)
    ensures
        r == (a@.units() == b@.units()),
{
    let x = Decimal::from_i128_with_scale(a.mantissa, a.scale);
    let y = Decimal::from_i128_with_scale(b.mantissa, b.scale);
    x == y
}

} // verus!
