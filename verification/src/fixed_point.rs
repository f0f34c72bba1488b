//! Signed fixed-point numbers with 80 integer bits and 48 fractional bits.
//!
//! A number is held as its 128 bits and stands for `bits / 2^48`. Sums and
//! differences are exact. A product is rounded down to the next multiple of
//! `2^-48`, a quotient is rounded towards zero, and every operation says when
//! its result does not fit instead of wrapping.
use crate::wire::le_signed;
use vstd::prelude::*;

verus! {

/// A fixed-point number, held as its 128 bits: the number is `bits / 2^48`.
#[derive(Clone, Copy, Debug, PartialEq, Eq, Structural)]
pub struct I80F48 {
    pub bits: i128,
}

/// `2^48`, the bits of the number one.
pub open spec fn unit() -> int {
    0x1_0000_0000_0000
}

/// Whether `v` can be the bits of a number.
pub open spec fn fits(v: int) -> bool {
    i128::MIN <= v <= i128::MAX
}

/// The number with bits `v`, if there is one.
pub open spec fn checked(v: int) -> Option<I80F48> {
    if fits(v) {
        Some(I80F48 { bits: v as i128 })
    } else {
        None
    }
}

/// `n / d` rounded towards zero, for `d` other than 0.
pub open spec fn div_towards_zero(n: int, d: int) -> int {
    if n >= 0 && d > 0 {
        n / d
    } else if n >= 0 {
        -(n / (-d))
    } else if d > 0 {
        -((-n) / d)
    } else {
        (-n) / (-d)
    }
}

impl I80F48 {
    /// The sum, if it fits.
    pub open spec fn spec_add(self, rhs: I80F48) -> Option<I80F48> {
        checked(self.bits + rhs.bits)
    }

    /// The difference, if it fits.
    pub open spec fn spec_sub(self, rhs: I80F48) -> Option<I80F48> {
        checked(self.bits - rhs.bits)
    }

    /// The product rounded down, if it fits.
    pub open spec fn spec_mul(self, rhs: I80F48) -> Option<I80F48> {
        checked((self.bits * rhs.bits) / unit())
    }

    /// The quotient rounded towards zero, if there is one and it fits.
    pub open spec fn spec_div(self, rhs: I80F48) -> Option<I80F48> {
        if rhs.bits == 0 {
            None
        } else {
            checked(div_towards_zero(self.bits * unit(), rhs.bits as int))
        }
    }

    /// The whole number `n`.
    pub open spec fn spec_from_u64(n: u64) -> I80F48 {
        I80F48 { bits: (n * unit()) as i128 }
    }

    /// The whole number `n`.
    pub open spec fn spec_from_i64(n: i64) -> I80F48 {
        I80F48 { bits: (n * unit()) as i128 }
    }

    /// The number zero.
    pub fn zero() -> (r: I80F48)
        ensures
            r.bits == 0,
    {
        I80F48 { bits: 0 }
    }

    /// The number one.
    pub fn one() -> (r: I80F48)
        ensures
            r.bits == unit(),
    {
        I80F48 { bits: 0x1_0000_0000_0000 }
    }

    /// The whole number `n`.
    pub fn from_u64(n: u64) -> (r: I80F48)
        ensures
            r == Self::spec_from_u64(n),
            r.bits == n * unit(),
    {
        I80F48 { bits: (n as i128) * 0x1_0000_0000_0000 }
    }

    /// The whole number `n`.
    pub fn from_i64(n: i64) -> (r: I80F48)
        ensures
            r == Self::spec_from_i64(n),
            r.bits == n * unit(),
    {
        I80F48 { bits: (n as i128) * 0x1_0000_0000_0000 }
    }

    /// The sum, if it fits.
    pub fn checked_add(self, rhs: I80F48) -> (r: Option<I80F48>)
        ensures
            r == self.spec_add(rhs),
    {
        match self.bits.checked_add(rhs.bits) {
            Some(bits) => Some(I80F48 { bits }),
            None => None,
        }
    }

    /// The difference, if it fits.
    pub fn checked_sub(self, rhs: I80F48) -> (r: Option<I80F48>)
        ensures
            r == self.spec_sub(rhs),
    {
        match self.bits.checked_sub(rhs.bits) {
            Some(bits) => Some(I80F48 { bits }),
            None => None,
        }
    }

    /// Whether the number is below zero.
    pub fn is_negative(self) -> (r: bool)
        ensures
            r == (self.bits < 0),
    {
        self.bits < 0
    }

    /// Whether the number is above zero.
    pub fn is_positive(self) -> (r: bool)
        ensures
            r == (self.bits > 0),
    {
        self.bits > 0
    }

    /// The smaller of the two.
    pub fn min(self, rhs: I80F48) -> (r: I80F48)
        ensures
            r.bits == if self.bits <= rhs.bits {
                self.bits
            } else {
                rhs.bits
            },
    {
        if self.bits <= rhs.bits {
            self
        } else {
            rhs
        }
    }
}

/// Calls `fixed::types::I80F48::from_le_bytes`, which reads the 16 bytes as a
/// little-endian two's complement `i128` and takes it as the bits of the
/// number.
#[verifier::external_body]
pub(crate) fn from_le_bytes(bytes: [u8; 16]) -> (r: I80F48)
    ensures
        r.bits == le_signed(bytes@),
{
    I80F48 { bits: ::fixed::types::I80F48::from_le_bytes(bytes).to_bits() }
}

impl I80F48 {
    /// Calls `fixed::types::I80F48::checked_mul`. It multiplies the two bit
    /// patterns exactly, in 256 bits, shifts the product right by 48 bits,
    /// which rounds down, and returns nothing if what is left does not fit
    /// in 128 bits.
    #[verifier::external_body]
    pub(crate) fn checked_mul(self, rhs: I80F48) -> (r: Option<I80F48>)
        ensures
            r == self.spec_mul(rhs),
    {
        let x = ::fixed::types::I80F48::from_bits(self.bits);
        let y = ::fixed::types::I80F48::from_bits(rhs.bits);
        match x.checked_mul(y) {
            Some(p) => Some(I80F48 { bits: p.to_bits() }),
            None => None,
        }
    }

    /// Calls `fixed::types::I80F48::checked_div`. It returns nothing for a
    /// zero divisor. Otherwise it shifts the bits of the dividend left by 48
    /// bits, in 256 bits, divides the magnitudes, so that the quotient is
    /// rounded towards zero, and returns nothing if the quotient does not
    /// fit in 128 bits.
    #[verifier::external_body]
    pub(crate) fn checked_div(self, rhs: I80F48) -> (r: Option<I80F48>)
        ensures
            r == self.spec_div(rhs),
    {
        let x = ::fixed::types::I80F48::from_bits(self.bits);
        let y = ::fixed::types::I80F48::from_bits(rhs.bits);
        match x.checked_div(y) {
            Some(q) => Some(I80F48 { bits: q.to_bits() }),
            None => None,
        }
    }
}

/// The sum of two results, if both are there and it fits.
pub open spec fn add_opt(a: Option<I80F48>, b: Option<I80F48>) -> Option<I80F48> {
    match (a, b) {
        (Some(x), Some(y)) => x.spec_add(y),
        _ => None,
    }
}

/// The difference of two results, if both are there and it fits.
pub open spec fn sub_opt(a: Option<I80F48>, b: Option<I80F48>) -> Option<I80F48> {
    match (a, b) {
        (Some(x), Some(y)) => x.spec_sub(y),
        _ => None,
    }
}

/// The product of two results, if both are there and it fits.
pub open spec fn mul_opt(a: Option<I80F48>, b: Option<I80F48>) -> Option<I80F48> {
    match (a, b) {
        (Some(x), Some(y)) => x.spec_mul(y),
        _ => None,
    }
}

/// The quotient of two results, if both are there, the divisor is not zero
/// and it fits.
pub open spec fn div_opt(a: Option<I80F48>, b: Option<I80F48>) -> Option<I80F48> {
    match (a, b) {
        (Some(x), Some(y)) => x.spec_div(y),
        _ => None,
    }
}

/// The quotient of two results rounded up to the next number that the type
/// holds, for a dividend that is not negative and a divisor that is
/// positive. There is none for other operands, or where it does not fit.
pub open spec fn div_up_opt(a: Option<I80F48>, b: Option<I80F48>) -> Option<I80F48> {
    match (a, b) {
        (Some(x), Some(y)) => if x.bits >= 0 && y.bits > 0 {
            checked((x.bits * unit() + y.bits - 1) / (y.bits as int))
        } else {
            None
        },
        _ => None,
    }
}

/// The sum of two results, if both are there and it fits.
pub fn try_add(a: Option<I80F48>, b: Option<I80F48>) -> (r: Option<I80F48>)
    ensures
        r == add_opt(a, b),
{
    match (a, b) {
        (Some(x), Some(y)) => x.checked_add(y),
        _ => None,
    }
}

/// The difference of two results, if both are there and it fits.
pub fn try_sub(a: Option<I80F48>, b: Option<I80F48>) -> (r: Option<I80F48>)
    ensures
        r == sub_opt(a, b),
{
    match (a, b) {
        (Some(x), Some(y)) => x.checked_sub(y),
        _ => None,
    }
}

/// The product of two results, rounded down, if both are there and it fits.
pub fn try_mul(a: Option<I80F48>, b: Option<I80F48>) -> (r: Option<I80F48>)
    ensures
        r == mul_opt(a, b),
{
    match (a, b) {
        (Some(x), Some(y)) => x.checked_mul(y),
        _ => None,
    }
}

/// The quotient of two results, rounded towards zero, if both are there, the
/// divisor is not zero and it fits.
pub fn try_div(a: Option<I80F48>, b: Option<I80F48>) -> (r: Option<I80F48>)
    ensures
        r == div_opt(a, b),
{
    match (a, b) {
        (Some(x), Some(y)) => x.checked_div(y),
        _ => None,
    }
}

/// The quotient of two results, rounded up, for a dividend that is not
/// negative and a divisor that is positive.
pub fn try_div_up(a: Option<I80F48>, b: Option<I80F48>) -> (r: Option<I80F48>)
    ensures
        r == div_up_opt(a, b),
{
    let (x, y): (I80F48, I80F48) = match (a, b) {
        (Some(x), Some(y)) => (x, y),
        _ => { return None; },
    };
    if x.bits < 0 || y.bits <= 0 {
        return None;
    }
    let ghost n = x.bits * unit();
    let ghost d = y.bits as int;
    let ghost down = n / d;
    proof {
        assert(n >= 0) by (nonlinear_arith)
            requires
                n == x.bits * unit(),
                x.bits >= 0,
                unit() > 0,
        ;
        lemma_floor_scaled(n, d);
        // Rounded up is rounded down, and one more where that left a rest.
        let rest = n - down * d;
        if rest == 0 {
            vstd::arithmetic::div_mod::lemma_fundamental_div_mod_converse(
                n + d - 1,
                d,
                down,
                d - 1,
            );
        } else {
            assert((down + 1) * d == down * d + d) by (nonlinear_arith);
            vstd::arithmetic::div_mod::lemma_fundamental_div_mod_converse(
                n + d - 1,
                d,
                down + 1,
                rest - 1,
            );
        }
    }
    let q: I80F48 = match x.checked_div(y) {
        Some(q) => q,
        None => { return None; },
    };
    proof {
        // What the quotient gives back is the dividend or less.
        let qd = q.bits * d;
        assert(qd == down * d);
        assert(0 <= qd <= n);
        lemma_floor_scaled(qd, unit());
        vstd::arithmetic::div_mod::lemma_div_is_ordered(qd, n, unit());
        assert(n == unit() * x.bits) by (nonlinear_arith)
            requires
                n == x.bits * unit(),
        ;
        vstd::arithmetic::div_mod::lemma_div_multiples_vanish(x.bits as int, unit());
        assert(qd / unit() <= x.bits);
        if qd < n {
            assert(qd / unit() < x.bits) by (nonlinear_arith)
                requires
                    (qd / unit()) * unit() <= qd,
                    qd < n,
                    n == x.bits * unit(),
                    unit() > 0,
            ;
        }
    }
    match q.checked_mul(y) {
        Some(back) => if back.bits < x.bits {
            q.checked_add(I80F48 { bits: 1 })
        } else {
            Some(q)
        },
        None => None,
    }
}

/// What rounding a quotient up gives: the least number that, times the
/// divisor, is the dividend or more.
pub proof fn lemma_div_up(x: I80F48, y: I80F48)
    requires
        x.bits >= 0,
        y.bits > 0,
        div_up_opt(Some(x), Some(y)) is Some,
    ensures
        ({
            let q = div_up_opt(Some(x), Some(y)).unwrap();
            &&& q.bits >= 0
            &&& q.bits * y.bits >= x.bits * unit()
            &&& (q.bits - 1) * y.bits < x.bits * unit()
        }),
{
    let n = x.bits * unit();
    let d = y.bits as int;
    assert(n >= 0) by (nonlinear_arith)
        requires
            n == x.bits * unit(),
            x.bits >= 0,
            unit() > 0,
    ;
    let m = n + d - 1;
    lemma_floor_scaled(m, d);
    let q = m / d;
    assert((q - 1) * d == q * d - d) by (nonlinear_arith);
}

/// The product of two numbers that are not negative is not negative.
pub proof fn lemma_mul_nonnegative(a: I80F48, b: I80F48)
    requires
        a.bits >= 0,
        b.bits >= 0,
        a.spec_mul(b) is Some,
    ensures
        a.spec_mul(b).unwrap().bits >= 0,
{
    assert(a.bits * b.bits >= 0) by (nonlinear_arith)
        requires
            a.bits >= 0,
            b.bits >= 0,
    ;
}

/// The quotient of a number that is not negative by a positive number is not
/// negative.
pub proof fn lemma_div_nonnegative(a: I80F48, b: I80F48)
    requires
        a.bits >= 0,
        b.bits > 0,
        a.spec_div(b) is Some,
    ensures
        a.spec_div(b).unwrap().bits >= 0,
{
    assert(a.bits * unit() >= 0) by (nonlinear_arith)
        requires
            a.bits >= 0,
            unit() > 0,
    ;
    vstd::arithmetic::div_mod::lemma_div_pos_is_pos(a.bits * unit(), b.bits as int);
}

/// Rounding down and then scaling back up does not exceed the number, and
/// falls short of it by less than the divisor.
pub proof fn lemma_floor_scaled(x: int, d: int)
    requires
        d > 0,
    ensures
        (x / d) * d <= x,
        x < (x / d) * d + d,
        x >= 0 ==> x / d >= 0,
        x / d == 0 ==> 0 <= x < d,
{
    vstd::arithmetic::div_mod::lemma_fundamental_div_mod(x, d);
    vstd::arithmetic::div_mod::lemma_mod_bound(x, d);
    assert((x / d) * d == d * (x / d)) by (nonlinear_arith);
    if x >= 0 {
        vstd::arithmetic::div_mod::lemma_div_pos_is_pos(x, d);
    }
    if x / d == 0 {
        assert((x / d) * d == 0) by (nonlinear_arith)
            requires
                x / d == 0,
        ;
    }
}

} // verus!
