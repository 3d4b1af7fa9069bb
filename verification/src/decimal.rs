//! Fixed-point amounts with eighteen decimal places.
//!
//! An amount is a number of attos (`10^-18` units) in scrypto's 192-bit two's
//! complement representation, carried as its three 64-bit digits, least
//! significant first. The arithmetic and comparisons are scrypto's `Decimal`
//! operations, called through the wrappers below.

use vstd::prelude::*;
use scrypto::prelude::{CheckedAdd, CheckedDiv, CheckedMul, CheckedSub, Decimal, I192};

verus! {

/// Number of attos in one whole unit: the value of `dec!("1")`.
pub const ONE_ATTOS: u64 = 1_000_000_000_000_000_000u64;

/// A fixed-point amount: the 192-bit two's complement attos `hi:mid:lo`,
/// worth `val(self) / 10^18` units.
#[derive(Clone, Copy, Debug, PartialEq, Eq, Structural)]
pub struct Dec {
    pub lo: u64,
    pub mid: u64,
    pub hi: u64,
}

/// `2^64`.
pub open spec fn base64() -> int {
    0x1_0000_0000_0000_0000int
}

/// `2^191`: the attos of a `Dec` lie in `[-2^191, 2^191)`.
pub open spec fn half_range() -> int {
    0x8000_0000_0000_0000_0000_0000_0000_0000_0000_0000_0000_0000int
}

/// The attos that an amount stands for.
pub open spec fn val(d: Dec) -> int {
    let top: int = if d.hi >= 0x8000_0000_0000_0000u64 {
        d.hi - base64()
    } else {
        d.hi as int
    };
    (top * base64() + d.mid) * base64() + d.lo
}

/// Whether an integer can be carried as the attos of a `Dec`.
pub open spec fn fits(v: int) -> bool {
    -half_range() <= v < half_range()
}

/// The digits of `v` in 192-bit two's complement.
pub open spec fn limbs_of(v: int) -> Dec {
    let u: int = if v < 0 { v + 2 * half_range() } else { v };
    Dec {
        lo: (u % base64()) as u64,
        mid: ((u / base64()) % base64()) as u64,
        hi: ((u / base64()) / base64()) as u64,
    }
}

/// Integer division that rounds toward zero, as scrypto's integers divide.
pub open spec fn trunc_div(a: int, b: int) -> int
    recommends
        b != 0,
{
    if b > 0 {
        if a >= 0 { a / b } else { -((-a) / b) }
    } else {
        if a >= 0 { -(a / (-b)) } else { (-a) / (-b) }
    }
}

/// The amount with the given attos, where they fit.
pub open spec fn dec_of(v: int) -> Option<Dec> {
    if fits(v) { Some(limbs_of(v)) } else { None }
}

/// The amount with the given attos, where their magnitude fits 192 bits:
/// scrypto's products and quotients narrow a 256-bit result by its magnitude,
/// so they refuse `-2^191` as well.
pub open spec fn dec_of_magnitude(v: int) -> Option<Dec> {
    if -half_range() < v < half_range() { Some(limbs_of(v)) } else { None }
}

/// One whole unit.
pub open spec fn one() -> Dec {
    Dec { lo: ONE_ATTOS, mid: 0, hi: 0 }
}

/// `a + b`.
pub open spec fn spec_add(a: Dec, b: Dec) -> Option<Dec> {
    dec_of(val(a) + val(b))
}

/// `a - b`.
pub open spec fn spec_sub(a: Dec, b: Dec) -> Option<Dec> {
    dec_of(val(a) - val(b))
}

/// `a * b`, rounded toward zero to whole attos; nothing unless its magnitude
/// is below `2^191`.
pub open spec fn spec_mul(a: Dec, b: Dec) -> Option<Dec> {
    dec_of_magnitude(trunc_div(val(a) * val(b), ONE_ATTOS as int))
}

/// `a / b`, rounded toward zero to whole attos; nothing when `b` is zero or
/// the quotient's magnitude is not below `2^191`.
pub open spec fn spec_div(a: Dec, b: Dec) -> Option<Dec> {
    if val(b) == 0 {
        None
    } else {
        dec_of_magnitude(trunc_div(val(a) * ONE_ATTOS, val(b)))
    }
}

/// Every amount's attos fit.
pub proof fn lemma_val_fits(d: Dec)
    ensures
        fits(val(d)),
{
}

/// The digits of an integer that fits stand for that integer.
pub proof fn lemma_val_limbs(v: int)
    requires
        fits(v),
    ensures
        val(limbs_of(v)) == v,
{
    let b = base64();
    let u: int = if v < 0 { v + 2 * half_range() } else { v };
    assert(0 <= u < b * b * b);
    let q = u / b;
    let lo = u % b;
    let mid = q % b;
    let hi = q / b;
    assert(u == q * b + lo && 0 <= lo < b) by (nonlinear_arith)
        requires
            b > 0,
            q == u / b,
            lo == u % b,
    ;
    assert(q == hi * b + mid && 0 <= mid < b) by (nonlinear_arith)
        requires
            b > 0,
            hi == q / b,
            mid == q % b,
    ;
    assert(0 <= hi < b) by (nonlinear_arith)
        requires
            b > 0,
            0 <= u < b * b * b,
            u == q * b + lo,
            0 <= lo < b,
            q == hi * b + mid,
            0 <= mid < b,
    ;
    assert(u == (hi * b + mid) * b + lo);
    let d = limbs_of(v);
    assert(d.lo == lo && d.mid == mid && d.hi == hi);
    if v < 0 {
        assert(hi >= 0x8000_0000_0000_0000int) by (nonlinear_arith)
            requires
                u >= half_range(),
                u == (hi * b + mid) * b + lo,
                0 <= mid < b,
                0 <= lo < b,
                b == 0x1_0000_0000_0000_0000int,
                half_range() == 0x8000_0000_0000_0000int * b * b,
        ;
        assert(val(d) == ((hi - b) * b + mid) * b + lo);
        assert(((hi - b) * b + mid) * b + lo == u - b * b * b) by (nonlinear_arith)
            requires
                u == (hi * b + mid) * b + lo,
        ;
        assert(b * b * b == 2 * half_range());
    } else {
        assert(hi < 0x8000_0000_0000_0000int) by (nonlinear_arith)
            requires
                u < half_range(),
                u == (hi * b + mid) * b + lo,
                0 <= mid < b,
                0 <= lo < b,
                b == 0x1_0000_0000_0000_0000int,
                half_range() == 0x8000_0000_0000_0000int * b * b,
        ;
    }
}

/// An amount is the digits of the attos it stands for.
pub proof fn lemma_limbs_val(d: Dec)
    ensures
        limbs_of(val(d)) == d,
{
    let b = base64();
    let hi = d.hi as int;
    let mid = d.mid as int;
    let lo = d.lo as int;
    let v = val(d);
    let u = (hi * b + mid) * b + lo;
    if hi >= 0x8000_0000_0000_0000int {
        assert(v == ((hi - b) * b + mid) * b + lo);
        assert(v < 0 && u == v + 2 * half_range()) by (nonlinear_arith)
            requires
                v == ((hi - b) * b + mid) * b + lo,
                u == (hi * b + mid) * b + lo,
                0x8000_0000_0000_0000int <= hi < b,
                0 <= mid < b,
                0 <= lo < b,
                b == 0x1_0000_0000_0000_0000int,
                half_range() == 0x8000_0000_0000_0000int * b * b,
        ;
    } else {
        assert(v == (hi * b + mid) * b + lo);
        assert(v >= 0) by (nonlinear_arith)
            requires
                v == (hi * b + mid) * b + lo,
                0 <= hi,
                0 <= mid < b,
                0 <= lo < b,
                b > 0,
        ;
    }
    vstd::arithmetic::div_mod::lemma_fundamental_div_mod_converse(u, b, hi * b + mid, lo);
    vstd::arithmetic::div_mod::lemma_fundamental_div_mod_converse(hi * b + mid, b, hi, mid);
}

/// Adds two amounts with scrypto's `Decimal::checked_add`, which adds the
/// 192-bit attos and gives nothing on overflow.
#[verifier::external_body]
pub fn dec_add(a: Dec, b: Dec) -> (r: Option<Dec>)
    ensures
        r == spec_add(a, b),
{
    let x = Decimal::from_attos(I192::from_digits([a.lo, a.mid, a.hi]));
    match x.checked_add(Decimal::from_attos(I192::from_digits([b.lo, b.mid, b.hi]))) {
        Some(d) => {
            let [lo, mid, hi] = d.attos().to_digits();
            Some(Dec { lo, mid, hi })
        },
        None => None,
    }
}

/// Subtracts two amounts with scrypto's `Decimal::checked_sub`, which
/// subtracts the 192-bit attos and gives nothing on overflow.
#[verifier::external_body]
pub fn dec_sub(a: Dec, b: Dec) -> (r: Option<Dec>)
    ensures
        r == spec_sub(a, b),
{
    let x = Decimal::from_attos(I192::from_digits([a.lo, a.mid, a.hi]));
    match x.checked_sub(Decimal::from_attos(I192::from_digits([b.lo, b.mid, b.hi]))) {
        Some(d) => {
            let [lo, mid, hi] = d.attos().to_digits();
            Some(Dec { lo, mid, hi })
        },
        None => None,
    }
}

/// Multiplies two amounts with scrypto's `Decimal::checked_mul`: the product
/// of the attos is formed in 256 bits, divided by `10^18` rounding toward
/// zero, and given only if its magnitude is below `2^191` (`I192::try_from`
/// narrows by magnitude, so `-2^191` is refused too). A product that
/// overflows 256 bits has a quotient beyond 192 bits as well.
#[verifier::external_body]
pub fn dec_mul(a: Dec, b: Dec) -> (r: Option<Dec>)
    ensures
        r == spec_mul(a, b),
{
    let x = Decimal::from_attos(I192::from_digits([a.lo, a.mid, a.hi]));
    match x.checked_mul(Decimal::from_attos(I192::from_digits([b.lo, b.mid, b.hi]))) {
        Some(d) => {
            let [lo, mid, hi] = d.attos().to_digits();
            Some(Dec { lo, mid, hi })
        },
        None => None,
    }
}

/// Divides two amounts with scrypto's `Decimal::checked_div`: the attos of `a`
/// times `10^18` are divided by the attos of `b` rounding toward zero; nothing
/// when `b` is zero or the quotient's magnitude is not below `2^191`
/// (`I192::try_from` narrows by magnitude, so `-2^191` is refused too).
#[verifier::external_body]
pub fn dec_div(a: Dec, b: Dec) -> (r: Option<Dec>)
    ensures
        r == spec_div(a, b),
{
    let x = Decimal::from_attos(I192::from_digits([a.lo, a.mid, a.hi]));
    match x.checked_div(Decimal::from_attos(I192::from_digits([b.lo, b.mid, b.hi]))) {
        Some(d) => {
            let [lo, mid, hi] = d.attos().to_digits();
            Some(Dec { lo, mid, hi })
        },
        None => None,
    }
}

/// Compares two amounts with scrypto's `==` on `Decimal`, which is derived
/// over the 192-bit attos: true exactly when they stand for the same attos.
#[verifier::external_body]
pub fn dec_eq(a: Dec, b: Dec) -> (r: bool)
    ensures
        r == (val(a) == val(b)),
{
    Decimal::from_attos(I192::from_digits([a.lo, a.mid, a.hi]))
        == Decimal::from_attos(I192::from_digits([b.lo, b.mid, b.hi]))
}

/// Compares two amounts with scrypto's `<` on `Decimal`, which is derived
/// over the 192-bit attos, ordered as signed integers.
#[verifier::external_body]
pub fn dec_lt(a: Dec, b: Dec) -> (r: bool)
    ensures
        r == (val(a) < val(b)),
{
    Decimal::from_attos(I192::from_digits([a.lo, a.mid, a.hi]))
        < Decimal::from_attos(I192::from_digits([b.lo, b.mid, b.hi]))
}

} // verus!
