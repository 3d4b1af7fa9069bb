use ethereal::decimal::Dec;
use ethereal::tri::{check_setup, reserve_lookup, swap_output, Tri, TriError};
use scrypto::prelude::{Decimal, ResourceAddress, ACCOUNT_OWNER_BADGE, CONSENSUS_MANAGER, FAUCET, I192, XRD};

const ONE: i128 = 1_000_000_000_000_000_000;

fn dec(v: i128) -> Dec {
    let [lo, mid, hi] = I192::from(v).to_digits();
    Dec { lo, mid, hi }
}


fn half_pool() -> Tri {
    let mut t = Tri::from_nothing(
        FAUCET,
        XRD,
        dec(ONE / 2),
        ACCOUNT_OWNER_BADGE,
        dec(ONE / 2),
        dec(99 * ONE / 100),
        CONSENSUS_MANAGER,
    )
    .unwrap();
    t.start_stop(false);
    t
}

fn reserves() -> Vec<(ResourceAddress, Dec)> {
    vec![(XRD, dec(1000 * ONE)), (ACCOUNT_OWNER_BADGE, dec(2000 * ONE))]
}

#[test]
fn setup_checks_weights_and_fee() {
    assert_eq!(check_setup(dec(ONE / 2), dec(ONE / 2), dec(99 * ONE / 100)), Ok(()));
    assert_eq!(check_setup(dec(ONE / 2), dec(ONE / 3), dec(99 * ONE / 100)), Err(TriError::BadWeights));
    assert_eq!(check_setup(dec(0), dec(ONE), dec(99 * ONE / 100)), Err(TriError::BadWeights));
    assert_eq!(check_setup(dec(2 * ONE), dec(-ONE), dec(99 * ONE / 100)), Err(TriError::BadWeights));
    assert_eq!(check_setup(dec(i128::MAX), dec(1), dec(99 * ONE / 100)), Err(TriError::BadWeights));
    let [lo, mid, hi] = Decimal::MAX.attos().to_digits();
    assert_eq!(check_setup(Dec { lo, mid, hi }, dec(1), dec(99 * ONE / 100)), Err(TriError::Overflow));
    assert_eq!(check_setup(dec(ONE / 2), dec(ONE / 2), dec(ONE + 1)), Err(TriError::BadFee));
    assert_eq!(check_setup(dec(ONE / 2), dec(ONE / 2), dec(9 * ONE / 10 - 1)), Err(TriError::BadFee));
    assert_eq!(check_setup(dec(ONE / 2), dec(ONE / 2), dec(9 * ONE / 10)), Err(TriError::BadFee));
    assert_eq!(check_setup(dec(ONE / 2), dec(ONE / 2), dec(ONE)), Err(TriError::BadFee));
    assert_eq!(check_setup(dec(ONE / 2), dec(ONE / 2), dec(9 * ONE / 10 + 1)), Ok(()));
    assert_eq!(check_setup(dec(ONE / 2), dec(ONE / 2), dec(ONE - 1)), Ok(()));
}

#[test]
fn new_exchange_starts_stopped() {
    let t = Tri::from_nothing(FAUCET, XRD, dec(ONE / 4), ACCOUNT_OWNER_BADGE, dec(3 * ONE / 4), dec(99 * ONE / 100), CONSENSUS_MANAGER)
        .unwrap();
    let (res, pool, fee, stopped) = t.look_within();
    assert_eq!(res, ((XRD, dec(ONE / 4)), (ACCOUNT_OWNER_BADGE, dec(3 * ONE / 4))));
    assert_eq!(pool, CONSENSUS_MANAGER);
    assert_eq!(fee, dec(99 * ONE / 100));
    assert!(stopped);
    assert!(Tri::from_nothing(FAUCET, XRD, dec(ONE), ACCOUNT_OWNER_BADGE, dec(ONE), dec(ONE), CONSENSUS_MANAGER).is_err());
}

#[test]
fn stopped_exchange_refuses() {
    let mut t = half_pool();
    assert_eq!(t.add_liquidity(false), Ok(()));
    assert_eq!(t.remove_liquidity(false), Ok(()));
    assert_eq!(t.add_liquidity(true), Err(TriError::Stopped));
    t.start_stop(true);
    assert_eq!(t.add_liquidity(false), Err(TriError::Stopped));
    assert_eq!(t.remove_liquidity(false), Err(TriError::Stopped));
    assert_eq!(t.swap(&reserves(), dec(ONE), XRD, false).err(), Some(TriError::Stopped));
    assert!(t.sim_swap(&reserves(), dec(ONE), XRD).is_ok());
}

#[test]
fn first_deposit_needs_empty_pool() {
    let t = half_pool();
    assert_eq!(t.first_deposit(&vec![(XRD, dec(0)), (ACCOUNT_OWNER_BADGE, dec(0))]), Ok(()));
    assert_eq!(t.first_deposit(&reserves()), Err(TriError::AlreadyRunning));
    assert_eq!(t.first_deposit(&vec![]), Err(TriError::Incoherence));
}

#[test]
fn lookup_takes_first_entry() {
    let res = vec![(XRD, dec(1)), (ACCOUNT_OWNER_BADGE, dec(2)), (XRD, dec(3))];
    assert_eq!(reserve_lookup(&res, &XRD), Some(dec(1)));
    assert_eq!(reserve_lookup(&res, &ACCOUNT_OWNER_BADGE), Some(dec(2)));
    assert_eq!(reserve_lookup(&res, &FAUCET_BADGE_NONE), None);
}

const FAUCET_BADGE_NONE: ResourceAddress = scrypto::prelude::IDENTITY_OWNER_BADGE;

#[test]
fn spot_price_of_half_pool() {
    let t = half_pool();
    assert_eq!(t.spot_price(&reserves()), Ok(dec(505_050_505_050_505_050)));
    assert_eq!(t.spot_price(&vec![(XRD, dec(1000 * ONE))]), Err(TriError::Incoherence));
    assert_eq!(t.spot_price(&vec![(XRD, dec(1000 * ONE)), (ACCOUNT_OWNER_BADGE, dec(0))]), Err(TriError::DivisionFailed));
}

#[test]
fn swap_of_hundred() {
    let t = half_pool();
    let q = t.swap(&reserves(), dec(100 * ONE), XRD, false).unwrap();
    assert_eq!(q.resource_out, ACCOUNT_OWNER_BADGE);
    assert_eq!(q.reserves_out, dec(2000 * ONE));
    assert_eq!(q.power.base, dec(909_918_107_370_336_669));
    assert_eq!(q.power.exponent, dec(ONE));
    let out = swap_output(q.reserves_out, q.power.base).unwrap();
    assert_eq!(out, dec(180_163_785_259_326_662_000));
    let s = t.sim_swap(&reserves(), dec(100 * ONE), XRD).unwrap();
    assert_eq!(s.resource_out, q.resource_out);
    assert_eq!(s.power.base, q.power.base);
}

#[test]
fn swap_pays_the_other_resource() {
    let t = half_pool();
    let q = t.sim_swap(&reserves(), dec(ONE), ACCOUNT_OWNER_BADGE).unwrap();
    assert_eq!(q.resource_out, XRD);
    assert_eq!(q.reserves_out, dec(1000 * ONE));
    assert_eq!(t.sim_swap(&reserves(), dec(ONE), FAUCET_BADGE_NONE).err(), Some(TriError::WrongResource));
    assert_eq!(t.sim_swap(&vec![(XRD, dec(ONE))], dec(ONE), XRD).err(), Some(TriError::CoherenceError));
}

#[test]
fn swap_exponent_follows_weights() {
    let t = Tri::from_nothing(FAUCET, XRD, dec(8 * ONE / 10), ACCOUNT_OWNER_BADGE, dec(2 * ONE / 10), dec(99 * ONE / 100), CONSENSUS_MANAGER)
        .unwrap();
    let q = t.sim_swap(&reserves(), dec(ONE), XRD).unwrap();
    assert_eq!(q.power.exponent, dec(4 * ONE));
    let q = t.sim_swap(&reserves(), dec(ONE), ACCOUNT_OWNER_BADGE).unwrap();
    assert_eq!(q.power.exponent, dec(ONE / 4));
    let q = t.in_given_out(&reserves(), dec(ONE), XRD).unwrap();
    assert_eq!(q.power.exponent, dec(ONE / 4));
}

#[test]
fn swap_output_within_reserve() {
    assert_eq!(swap_output(dec(1000 * ONE), dec(9 * ONE / 10)), Ok(dec(100 * ONE)));
    assert_eq!(swap_output(dec(1000 * ONE), dec(0)), Ok(dec(1000 * ONE)));
    assert_eq!(swap_output(dec(1000 * ONE), dec(ONE)), Ok(dec(0)));
    let [lo, mid, hi] = Decimal::MAX.attos().to_digits();
    assert_eq!(swap_output(Dec { lo, mid, hi }, dec(-ONE)), Err(TriError::Overflow));
}

#[test]
fn in_given_out_of_hundred() {
    let t = half_pool();
    let q = t.in_given_out(&reserves(), dec(100 * ONE), XRD).unwrap();
    assert_eq!(q.reserves_in, dec(1000 * ONE));
    assert_eq!(q.power.base, dec(1_052_631_578_947_368_421));
    assert_eq!(q.power.exponent, dec(ONE));
    assert_eq!(t.input_from_power(q.reserves_in, q.power.base), Ok(dec(53_163_211_057_947_900_000)));
    assert_eq!(t.in_given_out(&reserves(), dec(2000 * ONE), XRD).err(), Some(TriError::DivisionFailed));
}

#[test]
fn in_given_price_above_and_below() {
    let t = half_pool();
    let q = t.in_given_price(&reserves(), dec(ONE), XRD).unwrap().unwrap();
    assert_eq!(q.reserves_in, dec(1000 * ONE));
    assert_eq!(q.power.base, dec(2 * ONE));
    assert_eq!(q.power.exponent, dec(ONE / 2));
    assert_eq!(t.input_from_power(q.reserves_in, dec(3 * ONE / 2)), Ok(dec(505_050_505_050_505_050_505)));
    assert!(t.in_given_price(&reserves(), dec(ONE / 2), XRD).unwrap().is_none());
    assert!(t.in_given_price(&reserves(), dec(ONE / 4), XRD).unwrap().is_none());
    assert_eq!(t.in_given_price(&reserves(), dec(ONE), FAUCET_BADGE_NONE).err(), Some(TriError::WrongResource));
}

#[test]
fn spot_price_of_large_reserves() {
    // Reserves of 10^21 and 2 * 10^21 units lie beyond 2^127 attos.
    let t = half_pool();
    let big = |units: u128| {
        let [lo, mid, hi] = Decimal::from(units).attos().to_digits();
        Dec { lo, mid, hi }
    };
    let res = vec![(XRD, big(1_000_000_000_000_000_000_000)), (ACCOUNT_OWNER_BADGE, big(2_000_000_000_000_000_000_000))];
    assert_eq!(t.spot_price(&res), Ok(dec(505_050_505_050_505_050)));
}

#[test]
fn payout_falls_as_power_rises() {
    let low = swap_output(dec(1000 * ONE), dec(ONE / 4)).unwrap();
    let high = swap_output(dec(1000 * ONE), dec(3 * ONE / 4)).unwrap();
    assert_eq!(low, dec(750 * ONE));
    assert_eq!(high, dec(250 * ONE));
}

#[test]
fn base_falls_as_input_grows() {
    let t = half_pool();
    let small = t.sim_swap(&reserves(), dec(10 * ONE), XRD).unwrap().power.base;
    let large = t.sim_swap(&reserves(), dec(100 * ONE), XRD).unwrap().power.base;
    assert_eq!(large, dec(909_918_107_370_336_669));
    assert_eq!(small, dec(990_197_049_212_793_345));
}
