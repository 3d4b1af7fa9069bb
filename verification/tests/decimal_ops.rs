use ethereal::decimal::{dec_add, dec_div, dec_eq, dec_lt, dec_mul, dec_sub, Dec, ONE_ATTOS};
use scrypto::prelude::{Decimal, I192};

const ONE: i128 = 1_000_000_000_000_000_000;

fn dec(v: i128) -> Dec {
    let [lo, mid, hi] = I192::from(v).to_digits();
    Dec { lo, mid, hi }
}

fn from_decimal(x: Decimal) -> Dec {
    let [lo, mid, hi] = x.attos().to_digits();
    Dec { lo, mid, hi }
}


#[test]
fn add_sums_attos() {
    assert_eq!(dec_add(dec(2 * ONE), dec(3 * ONE)), Some(dec(5 * ONE)));
    assert_eq!(dec_add(from_decimal(Decimal::MAX), dec(1)), None);
    assert_eq!(dec_add(dec(i128::MAX), dec(1)), Some(from_decimal(Decimal::from_attos(I192::from(i128::MAX) + I192::from(1)))));
}

#[test]
fn sub_subtracts_attos() {
    assert_eq!(dec_sub(dec(2 * ONE), dec(3 * ONE)), Some(dec(-ONE)));
    assert_eq!(dec_sub(from_decimal(Decimal::MIN), dec(1)), None);
}

#[test]
fn mul_rounds_toward_zero() {
    assert_eq!(dec_mul(dec(2 * ONE), dec(3 * ONE)), Some(dec(6 * ONE)));
    assert_eq!(dec_mul(dec(3), dec(ONE / 2)), Some(dec(1)));
    assert_eq!(dec_mul(dec(-3), dec(ONE / 2)), Some(dec(-1)));
    assert_eq!(dec_mul(from_decimal(Decimal::MAX), dec(2 * ONE)), None);
    assert_eq!(dec_mul(from_decimal(Decimal::MAX), from_decimal(Decimal::MAX)), None);
}

#[test]
fn div_rounds_toward_zero() {
    assert_eq!(dec_div(dec(2 * ONE), dec(3 * ONE)), Some(dec(666_666_666_666_666_666)));
    assert_eq!(dec_div(dec(-2 * ONE), dec(3 * ONE)), Some(dec(-666_666_666_666_666_666)));
    assert_eq!(dec_div(dec(ONE), dec(0)), None);
    assert_eq!(dec_div(from_decimal(Decimal::MAX), dec(1)), None);
}

#[test]
fn one_is_ten_to_the_eighteen() {
    assert_eq!(ONE_ATTOS as i128, ONE);
}

#[test]
fn amounts_beyond_i128_attos() {
    // 10^20 units divided by 0.5 is 2 * 10^20 units, beyond 2^127 attos.
    let big = from_decimal(Decimal::from(100_000_000_000_000_000_000u128));
    let q = dec_div(big, dec(ONE / 2)).unwrap();
    assert_eq!(q, from_decimal(Decimal::from(200_000_000_000_000_000_000u128)));
    assert_eq!(dec_mul(q, dec(ONE / 2)), Some(big));
}

#[test]
fn comparisons_follow_values() {
    assert!(dec_eq(dec(ONE), dec(ONE)));
    assert!(!dec_eq(dec(ONE), dec(-ONE)));
    assert!(dec_lt(dec(-ONE), dec(0)));
    assert!(dec_lt(dec(0), dec(1)));
    assert!(!dec_lt(dec(1), dec(1)));
    assert!(dec_lt(from_decimal(Decimal::MIN), from_decimal(Decimal::MAX)));
}

#[test]
fn products_and_quotients_refuse_the_minimum() {
    let min = from_decimal(Decimal::MIN);
    assert_eq!(dec_mul(min, dec(ONE)), None);
    assert_eq!(dec_div(min, dec(ONE)), None);
    assert_eq!(dec_add(min, dec(0)), Some(min));
    assert_eq!(dec_sub(min, dec(0)), Some(min));
}
