//! The weighted two-asset exchange: setup checks, reserve lookups, the spot
//! price and the swap and deposit-size formulas.
//!
//! The pool's vault amounts are read from the ledger by the caller and handed
//! in as a list of `(resource, amount)` entries. Where a formula raises an
//! amount to a fractional power, the computation is split in two: the first
//! function gives the base and the exponent, the caller computes the power,
//! and the second function takes the power and gives the amount.

use vstd::prelude::*;
use scrypto::prelude::{ComponentAddress, ResourceAddress};
use crate::address::same_resource;
use crate::decimal::{
    dec_add, dec_div, dec_eq, dec_lt, dec_mul, dec_sub, fits, lemma_limbs_val, lemma_val_fits,
    half_range, limbs_of, lemma_val_limbs, one, spec_add, spec_div, spec_mul, spec_sub, trunc_div,
    val, Dec, ONE_ATTOS,
};

verus! {

/// Attos of `dec!("0.9")`: the swap fee multiplier must exceed it, so that the
/// fee taken (`1 - swap_fee`) is smaller than 10%.
pub const MIN_FEE_ATTOS: u64 = 900_000_000_000_000_000u64;

/// Why an exchange operation is refused.
#[derive(Clone, Copy, Debug, PartialEq, Eq, Structural)]
pub enum TriError {
    /// The weights do not sum to one or one of them is not positive.
    BadWeights,
    /// The swap fee multiplier lies outside `(0.9, 1)`: the fee taken is not
    /// positive or not smaller than 10%.
    BadFee,
    /// The exchange is stopped or holds no authority badge.
    Stopped,
    /// A first deposit was asked of a pool that already holds liquidity.
    AlreadyRunning,
    /// The resource given is neither of the pool's two resources.
    WrongResource,
    /// The pool's reserves lack an entry that the spot price, or a first
    /// deposit, needs.
    Incoherence,
    /// The pool's reserves lack an entry that a swap or deposit-size formula
    /// needs.
    CoherenceError,
    /// An addition, subtraction or multiplication overflowed.
    Overflow,
    /// A division was by zero or overflowed.
    DivisionFailed,
}

/// A power `base ^ exponent` that a formula needs.
#[derive(Clone, Copy, Debug)]
pub struct PowerQuery {
    pub base: Dec,
    pub exponent: Dec,
}

/// The first half of a swap: the resource paid out, the pool's reserve of
/// it, and the power that the payout is computed from.
#[derive(Clone, Copy, Debug)]
pub struct SwapQuote {
    pub resource_out: ResourceAddress,
    pub reserves_out: Dec,
    pub power: PowerQuery,
}

/// The first half of a deposit-size formula: the pool's reserve of the
/// resource paid in, and the power that the size is computed from.
#[derive(Clone, Copy, Debug)]
pub struct InputQuery {
    pub reserves_in: Dec,
    pub power: PowerQuery,
}

/// The exchange's state: its two resources with their weights, the address
/// of the pool that holds the liquidity, the swap fee multiplier and whether
/// trading is stopped.
#[derive(Clone, Copy, Debug)]
pub struct Tri {
    pub alpha_addr: ComponentAddress,
    pub resources: ((ResourceAddress, Dec), (ResourceAddress, Dec)),
    pub pool: ComponentAddress,
    pub swap_fee: Dec,
    pub stopped: bool,
}

/// The amount held of `ra`, looked up from entry `i` on: the first entry for
/// `ra` decides.
pub open spec fn find_from(res: Seq<(ResourceAddress, Dec)>, ra: ResourceAddress, i: int) -> Option<Dec>
    decreases res.len() - i,
{
    if i < 0 || i >= res.len() {
        None
    } else if res[i].0 == ra {
        Some(res[i].1)
    } else {
        find_from(res, ra, i + 1)
    }
}

/// The amount that the reserves list holds of `ra`.
pub open spec fn reserve_of(res: Seq<(ResourceAddress, Dec)>, ra: ResourceAddress) -> Option<Dec> {
    find_from(res, ra, 0)
}

pub open spec fn add_r(a: Dec, b: Dec) -> Result<Dec, TriError> {
    match spec_add(a, b) {
        Some(c) => Ok(c),
        None => Err(TriError::Overflow),
    }
}

pub open spec fn sub_r(a: Dec, b: Dec) -> Result<Dec, TriError> {
    match spec_sub(a, b) {
        Some(c) => Ok(c),
        None => Err(TriError::Overflow),
    }
}

pub open spec fn mul_r(a: Dec, b: Dec) -> Result<Dec, TriError> {
    match spec_mul(a, b) {
        Some(c) => Ok(c),
        None => Err(TriError::Overflow),
    }
}

pub open spec fn div_r(a: Dec, b: Dec) -> Result<Dec, TriError> {
    match spec_div(a, b) {
        Some(c) => Ok(c),
        None => Err(TriError::DivisionFailed),
    }
}

pub open spec fn lookup_r(res: Seq<(ResourceAddress, Dec)>, ra: ResourceAddress, missing: TriError) -> Result<
    Dec,
    TriError,
> {
    match reserve_of(res, ra) {
        Some(d) => Ok(d),
        None => Err(missing),
    }
}

/// What setting up an exchange with these weights and fee gives.
pub open spec fn spec_check_setup(w1: Dec, w2: Dec, swap_fee: Dec) -> Result<(), TriError> {
    if !fits(val(w1) + val(w2)) {
        Err(TriError::Overflow)
    } else if !(val(w1) + val(w2) == ONE_ATTOS && val(w1) > 0 && val(w2) > 0) {
        Err(TriError::BadWeights)
    } else if !(val(swap_fee) < ONE_ATTOS && val(swap_fee) > MIN_FEE_ATTOS) {
        Err(TriError::BadFee)
    } else {
        Ok(())
    }
}

/// `(reserve of x / weight of x) / (reserve of y / weight of y)`.
pub open spec fn spec_weighted_ratio(
    res: Seq<(ResourceAddress, Dec)>,
    x: (ResourceAddress, Dec),
    y: (ResourceAddress, Dec),
) -> Result<Dec, TriError> {
    match lookup_r(res, x.0, TriError::Incoherence) {
        Err(e) => Err(e),
        Ok(rx) => match div_r(rx, x.1) {
            Err(e) => Err(e),
            Ok(a) => match lookup_r(res, y.0, TriError::Incoherence) {
                Err(e) => Err(e),
                Ok(ry) => match div_r(ry, y.1) {
                    Err(e) => Err(e),
                    Ok(b) => div_r(a, b),
                },
            },
        },
    }
}

/// `reserves_out * (1 - power)`.
pub open spec fn spec_swap_output(reserves_out: Dec, power: Dec) -> Result<Dec, TriError> {
    match sub_r(one(), power) {
        Err(e) => Err(e),
        Ok(f) => mul_r(reserves_out, f),
    }
}

fn add_or(a: Dec, b: Dec) -> (r: Result<Dec, TriError>)
    ensures
        r == add_r(a, b),
{
    match dec_add(a, b) {
        Some(c) => Ok(c),
        None => Err(TriError::Overflow),
    }
}

fn sub_or(a: Dec, b: Dec) -> (r: Result<Dec, TriError>)
    ensures
        r == sub_r(a, b),
{
    match dec_sub(a, b) {
        Some(c) => Ok(c),
        None => Err(TriError::Overflow),
    }
}

fn mul_or(a: Dec, b: Dec) -> (r: Result<Dec, TriError>)
    ensures
        r == mul_r(a, b),
{
    match dec_mul(a, b) {
        Some(c) => Ok(c),
        None => Err(TriError::Overflow),
    }
}

fn div_or(a: Dec, b: Dec) -> (r: Result<Dec, TriError>)
    ensures
        r == div_r(a, b),
{
    match dec_div(a, b) {
        Some(c) => Ok(c),
        None => Err(TriError::DivisionFailed),
    }
}

/// The amount that the reserves hold of `ra`: the first entry for `ra`.
pub fn reserve_lookup(reserves: &Vec<(ResourceAddress, Dec)>, ra: &ResourceAddress) -> (r: Option<Dec>)
    ensures
        r == reserve_of(reserves@, *ra),
{
    let mut i: usize = 0;
    while i < reserves.len()
        invariant
            0 <= i <= reserves.len(),
            find_from(reserves@, *ra, i as int) == reserve_of(reserves@, *ra),
        decreases reserves.len() - i,
    {
        let entry = &reserves[i];
        if same_resource(&entry.0, ra) {
            return Some(entry.1);
        }
        i = i + 1;
    }
    None
}

fn lookup_or(reserves: &Vec<(ResourceAddress, Dec)>, ra: &ResourceAddress, missing: TriError) -> (r: Result<
    Dec,
    TriError,
>)
    ensures
        r == lookup_r(reserves@, *ra, missing),
{
    match reserve_lookup(reserves, ra) {
        Some(d) => Ok(d),
        None => Err(missing),
    }
}

/// Checks the setup of an exchange: the two weights must be positive and sum
/// to one, and the swap fee multiplier must lie in `(0.9, 1)`, so that the
/// fee taken is positive and smaller than 10%.
pub fn check_setup(w1: Dec, w2: Dec, swap_fee: Dec) -> (r: Result<(), TriError>)
    ensures
        r == spec_check_setup(w1, w2, swap_fee),
{
    let zero = Dec { lo: 0, mid: 0, hi: 0 };
    let one_unit = Dec { lo: ONE_ATTOS, mid: 0, hi: 0 };
    let sum = match dec_add(w1, w2) {
        Some(s) => s,
        None => return Err(TriError::Overflow),
    };
    proof {
        lemma_val_limbs(val(w1) + val(w2));
    }
    if !(dec_eq(sum, one_unit) && dec_lt(zero, w1) && dec_lt(zero, w2)) {
        return Err(TriError::BadWeights);
    }
    let min_fee = Dec { lo: MIN_FEE_ATTOS, mid: 0, hi: 0 };
    if !(dec_lt(swap_fee, one_unit) && dec_lt(min_fee, swap_fee)) {
        return Err(TriError::BadFee);
    }
    Ok(())
}

/// `(reserve of x / weight of x) / (reserve of y / weight of y)`.
fn weighted_ratio(
    reserves: &Vec<(ResourceAddress, Dec)>,
    x: (ResourceAddress, Dec),
    y: (ResourceAddress, Dec),
) -> (r: Result<Dec, TriError>)
    ensures
        r == spec_weighted_ratio(reserves@, x, y),
{
    let rx = match lookup_or(reserves, &x.0, TriError::Incoherence) {
        Ok(d) => d,
        Err(e) => return Err(e),
    };
    let a = match div_or(rx, x.1) {
        Ok(d) => d,
        Err(e) => return Err(e),
    };
    let ry = match lookup_or(reserves, &y.0, TriError::Incoherence) {
        Ok(d) => d,
        Err(e) => return Err(e),
    };
    let b = match div_or(ry, y.1) {
        Ok(d) => d,
        Err(e) => return Err(e),
    };
    div_or(a, b)
}

/// The payout of a swap from the out-reserve and the computed power:
/// `reserves_out * (1 - power)`.
pub fn swap_output(reserves_out: Dec, power: Dec) -> (r: Result<Dec, TriError>)
    ensures
        r == spec_swap_output(reserves_out, power),
        // A swap never pays out more than the pool holds.
        0 <= val(reserves_out) && 0 <= val(power) <= ONE_ATTOS ==> (r matches Ok(out) && 0
            <= val(out) <= val(reserves_out)),
{
    let f = match sub_or(Dec { lo: ONE_ATTOS, mid: 0, hi: 0 }, power) {
        Ok(d) => d,
        Err(e) => return Err(e),
    };
    proof {
        if 0 <= val(reserves_out) && 0 <= val(power) <= ONE_ATTOS {
            lemma_val_limbs(ONE_ATTOS - val(power));
            lemma_val_fits(reserves_out);
            lemma_scaled_within(val(reserves_out), val(f));
            lemma_val_limbs((val(reserves_out) * val(f)) / (ONE_ATTOS as int));
        }
    }
    mul_or(reserves_out, f)
}

/// For `0 <= a` and `0 <= f <= 10^18`, `a * f / 10^18` lies in `[0, a]`.
proof fn lemma_scaled_within(a: int, f: int)
    requires
        0 <= a,
        0 <= f <= ONE_ATTOS,
    ensures
        0 <= (a * f) / (ONE_ATTOS as int) <= a,
{
    let one_attos = ONE_ATTOS as int;
    assert(0 <= a * f <= a * one_attos) by (nonlinear_arith)
        requires
            0 <= a,
            0 <= f <= one_attos,
    ;
    assert((a * one_attos) / one_attos == a) by (nonlinear_arith)
        requires
            one_attos > 0,
    ;
    assert(0 <= (a * f) / one_attos <= (a * one_attos) / one_attos) by (nonlinear_arith)
        requires
            0 <= a * f <= a * one_attos,
            one_attos > 0,
    ;
}

/// A simulated swap begins exactly as a regular swap of the same input does,
/// whenever the exchange is open; both end with `swap_output`.
pub proof fn sim_swap_matches_swap(
    t: Tri,
    res: Seq<(ResourceAddress, Dec)>,
    input: Dec,
    resource_in: ResourceAddress,
    power_tri_empty: bool,
)
    requires
        t.is_running(power_tri_empty),
    ensures
        t.spec_swap(res, input, resource_in, power_tri_empty) == t.spec_sim_swap(
            res,
            input,
            resource_in,
        ),
{
}

/// Stopping the exchange makes every swap refused; starting it again, with
/// badge authority present, makes a swap what a simulated swap is.
pub proof fn start_stop_governs_swaps(
    t: Tri,
    input_stop: bool,
    res: Seq<(ResourceAddress, Dec)>,
    input: Dec,
    resource_in: ResourceAddress,
    power_tri_empty: bool,
)
    ensures
        input_stop ==> (Tri { stopped: input_stop, ..t }).spec_swap(
            res,
            input,
            resource_in,
            power_tri_empty,
        ) == Err::<SwapQuote, TriError>(TriError::Stopped),
        input_stop ==> !(Tri { stopped: input_stop, ..t }).is_running(power_tri_empty),
        !input_stop && !power_tri_empty ==> (Tri { stopped: input_stop, ..t }).spec_swap(
            res,
            input,
            resource_in,
            power_tri_empty,
        ) == t.spec_sim_swap(res, input, resource_in),
{
}

/// A swap that goes through pays out the resource other than the one paid in.
pub proof fn swap_pays_other_resource(
    t: Tri,
    res: Seq<(ResourceAddress, Dec)>,
    ra_in: ResourceAddress,
    size_in: Dec,
)
    requires
        t.spec_swap_size(res, ra_in, size_in) is Ok,
    ensures
        ({
            let q = t.spec_swap_size(res, ra_in, size_in)->Ok_0;
            ||| ra_in == t.resources.0.0 && q.resource_out == t.resources.1.0
            ||| ra_in != t.resources.0.0 && ra_in == t.resources.1.0 && q.resource_out
                == t.resources.0.0
        }),
{
}

/// No deposit is asked to push a price that already stands at or above the
/// target: once the price and the reserve are known, `in_given_price` gives
/// nothing exactly when the target does not exceed the price.
pub proof fn in_given_price_nothing_when_reached(
    t: Tri,
    res: Seq<(ResourceAddress, Dec)>,
    target: Dec,
    ra_in: ResourceAddress,
)
    requires
        t.spec_price_of(res, ra_in) is Ok,
        reserve_of(res, ra_in) is Some,
    ensures
        (t.spec_in_given_price(res, target, ra_in) == Ok::<Option<InputQuery>, TriError>(None))
            <==> val(target) <= val(t.spec_price_of(res, ra_in)->Ok_0.0),
{
}

/// With a sound setup the swap exponent `(1 - w_out) / w_out` is always
/// defined: once both reserves are known and the base `r_in / (r_in + size_in)`
/// is computed, the first half of the swap goes through.
pub proof fn sound_setup_swap_exponent(
    t: Tri,
    res: Seq<(ResourceAddress, Dec)>,
    ra_in: ResourceAddress,
    size_in: Dec,
)
    requires
        t.wf(),
        t.spec_pair_of(ra_in) is Some,
        reserve_of(res, t.spec_pair_of(ra_in)->Some_0.0) is Some,
        reserve_of(res, ra_in) matches Some(r_in) && (spec_add(r_in, size_in) matches Some(den)
            && spec_div(r_in, den) is Some),
    ensures
        t.spec_swap_size(res, ra_in, size_in) is Ok,
{
    let w = t.spec_pair_of(ra_in)->Some_0.1;
    assert(0 < val(w) < ONE_ATTOS);
    let num = ONE_ATTOS - val(w);
    lemma_val_limbs(num);
    lemma_weight_quotient_fits(num, val(w));
}

/// For `0 < n, w < 10^18`, `n * 10^18 / w` lies in `[0, 10^36)`.
proof fn lemma_weight_quotient_fits(n: int, w: int)
    requires
        0 < n < ONE_ATTOS,
        0 < w < ONE_ATTOS,
    ensures
        0 <= (n * ONE_ATTOS) / w < 1_000_000_000_000_000_000_000_000_000_000_000_000int,
{
    let one_attos = ONE_ATTOS as int;
    assert(0 <= (n * one_attos) / w <= n * one_attos) by (nonlinear_arith)
        requires
            0 < n,
            0 < w,
            one_attos > 0,
    ;
    assert(n * one_attos < one_attos * one_attos) by (nonlinear_arith)
        requires
            0 < n < one_attos,
    ;
}

/// Each resource has at most one entry in the reserves list, as in the map
/// that the pool reports its vault amounts in.
pub open spec fn distinct_resources(res: Seq<(ResourceAddress, Dec)>) -> bool {
    forall|i: int, j: int| 0 <= i < j < res.len() ==> #[trigger] res[i].0 != #[trigger] res[j].0
}

/// With each resource listed once, the amount looked up for a resource is the
/// amount of its entry, wherever the entry stands, and nothing for a resource
/// without an entry.
pub proof fn reserve_of_listed_once(res: Seq<(ResourceAddress, Dec)>, i: int, absent: ResourceAddress)
    requires
        distinct_resources(res),
        0 <= i < res.len(),
        forall|j: int| 0 <= j < res.len() ==> #[trigger] res[j].0 != absent,
    ensures
        reserve_of(res, res[i].0) == Some(res[i].1),
        reserve_of(res, absent) == None::<Dec>,
{
    lemma_find_listed(res, i, 0);
    lemma_find_absent(res, absent, 0);
}

proof fn lemma_find_listed(res: Seq<(ResourceAddress, Dec)>, i: int, k: int)
    requires
        distinct_resources(res),
        0 <= k <= i < res.len(),
    ensures
        find_from(res, res[i].0, k) == Some(res[i].1),
    decreases i - k,
{
    if k < i {
        assert(res[k].0 != res[i].0);
        lemma_find_listed(res, i, k + 1);
    }
}

proof fn lemma_find_absent(res: Seq<(ResourceAddress, Dec)>, absent: ResourceAddress, k: int)
    requires
        0 <= k <= res.len(),
        forall|j: int| 0 <= j < res.len() ==> #[trigger] res[j].0 != absent,
    ensures
        find_from(res, absent, k) == None::<Dec>,
    decreases res.len() - k,
{
    if k < res.len() {
        assert(res[k].0 != absent);
        lemma_find_absent(res, absent, k + 1);
    }
}

/// The payout falls as the power rises: for powers in `[0, 1]` and a
/// non-negative out-reserve, a larger power never gives a larger payout.
pub proof fn swap_output_falls_as_power_rises(reserves_out: Dec, p1: Dec, p2: Dec)
    requires
        0 <= val(reserves_out),
        0 <= val(p1) <= val(p2) <= ONE_ATTOS,
    ensures
        spec_swap_output(reserves_out, p1) matches Ok(o1) && (spec_swap_output(reserves_out, p2)
            matches Ok(o2) && val(o2) <= val(o1)),
{
    let one_attos = ONE_ATTOS as int;
    let r = val(reserves_out);
    let f1 = one_attos - val(p1);
    let f2 = one_attos - val(p2);
    lemma_val_fits(reserves_out);
    lemma_val_limbs(f1);
    lemma_val_limbs(f2);
    lemma_scaled_within(r, f1);
    lemma_scaled_within(r, f2);
    assert((r * f2) / one_attos <= (r * f1) / one_attos) by (nonlinear_arith)
        requires
            0 <= r,
            0 <= f2 <= f1,
            one_attos > 0,
    ;
    lemma_val_limbs((r * f1) / one_attos);
    lemma_val_limbs((r * f2) / one_attos);
}

/// The swap base `r_in / (r_in + size_in)` lies in `[0, 1]` and falls as the
/// input grows: a larger input never gives a larger base.
pub proof fn swap_base_falls_as_input_grows(r_in: Dec, s1: Dec, s2: Dec)
    requires
        0 < val(r_in),
        0 <= val(s1) <= val(s2),
        fits(val(r_in) + val(s2)),
    ensures
        spec_add(r_in, s1) matches Some(d1) && (spec_add(r_in, s2) matches Some(d2) && (spec_div(
            r_in,
            d1,
        ) matches Some(b1) && (spec_div(r_in, d2) matches Some(b2) && 0 <= val(b2) <= val(b1)
            <= ONE_ATTOS))),
{
    let one_attos = ONE_ATTOS as int;
    let r = val(r_in);
    let d1 = r + val(s1);
    let d2 = r + val(s2);
    lemma_val_fits(r_in);
    lemma_val_limbs(d1);
    lemma_val_limbs(d2);
    assert(0 <= (r * one_attos) / d2 <= (r * one_attos) / d1 <= one_attos) by (nonlinear_arith)
        requires
            0 < r <= d1 <= d2,
            one_attos > 0,
    ;
    lemma_val_limbs((r * one_attos) / d1);
    lemma_val_limbs((r * one_attos) / d2);
}

/// The setup is accepted exactly when both weights are positive and sum to
/// one and the fee multiplier lies strictly between 0.9 and 1; a sum of
/// weights beyond 192 bits is an overflow.
pub proof fn check_setup_accepts_exactly(w1: Dec, w2: Dec, swap_fee: Dec)
    ensures
        (spec_check_setup(w1, w2, swap_fee) is Ok) <==> (val(w1) + val(w2)
            == 1_000_000_000_000_000_000int && val(w1) > 0 && val(w2) > 0
            && 900_000_000_000_000_000int < val(swap_fee) < 1_000_000_000_000_000_000int),
        (spec_check_setup(w1, w2, swap_fee) == Err::<(), TriError>(TriError::Overflow)) <==> !fits(
            val(w1) + val(w2),
        ),
{
}

/// The spot price divides each reserve by its own weight: once both reserves
/// are found and `r1 / w1`, `r2 / w2`, their quotient and `1 / swap_fee` are
/// computed, the price is that quotient times `1 / swap_fee`.
pub proof fn spot_price_divides_each_reserve_by_its_weight(
    t: Tri,
    res: Seq<(ResourceAddress, Dec)>,
    r1: Dec,
    r2: Dec,
    x1: Dec,
    x2: Dec,
    ratio: Dec,
    inv_fee: Dec,
)
    requires
        reserve_of(res, t.resources.0.0) == Some(r1),
        reserve_of(res, t.resources.1.0) == Some(r2),
        spec_div(r1, t.resources.0.1) == Some(x1),
        spec_div(r2, t.resources.1.1) == Some(x2),
        spec_div(x1, x2) == Some(ratio),
        spec_div(Dec { lo: ONE_ATTOS, mid: 0, hi: 0 }, t.swap_fee) == Some(inv_fee),
    ensures
        t.spec_spot_price(res) == (match spec_mul(ratio, inv_fee) {
            Some(p) => Ok(p),
            None => Err(TriError::Overflow),
        }),
{
}

/// A pool whose reserves stand in the proportion of its weights
/// (`r1 / w1 == r2 / w2`, not zero) has spot price `1 / swap_fee`, whatever
/// the weights.
pub proof fn balanced_pool_spot_price_is_inverse_fee(
    t: Tri,
    res: Seq<(ResourceAddress, Dec)>,
    r1: Dec,
    r2: Dec,
    x: Dec,
    inv_fee: Dec,
)
    requires
        reserve_of(res, t.resources.0.0) == Some(r1),
        reserve_of(res, t.resources.1.0) == Some(r2),
        spec_div(r1, t.resources.0.1) == Some(x),
        spec_div(r2, t.resources.1.1) == Some(x),
        val(x) != 0,
        spec_div(Dec { lo: ONE_ATTOS, mid: 0, hi: 0 }, t.swap_fee) == Some(inv_fee),
    ensures
        t.spec_spot_price(res) == Ok::<Dec, TriError>(inv_fee),
{
    let one_attos = ONE_ATTOS as int;
    let xv = val(x);
    assert(trunc_div(xv * one_attos, xv) == one_attos) by {
        if xv > 0 {
            assert((xv * one_attos) / xv == one_attos) by (nonlinear_arith)
                requires
                    xv > 0,
            ;
        } else {
            assert(((-(xv * one_attos)) / (-xv)) == one_attos) by (nonlinear_arith)
                requires
                    xv < 0,
            ;
        }
    }
    assert(limbs_of(one_attos) == Dec { lo: ONE_ATTOS, mid: 0, hi: 0 });
    assert(val(Dec { lo: ONE_ATTOS, mid: 0, hi: 0 }) == one_attos);
    let fv = val(inv_fee);
    assert((one_attos * fv) / one_attos == fv) by (nonlinear_arith)
        requires
            one_attos > 0,
    ;
    assert(-half_range() < fv);
    lemma_limbs_val(inv_fee);
}

/// A swap is refused whenever the exchange is stopped or its authority vault
/// is empty; otherwise it is the simulated swap of the same input.
pub proof fn swap_refused_unless_running(
    t: Tri,
    res: Seq<(ResourceAddress, Dec)>,
    input: Dec,
    resource_in: ResourceAddress,
    power_tri_empty: bool,
)
    ensures
        t.stopped || power_tri_empty ==> t.spec_swap(res, input, resource_in, power_tri_empty)
            == Err::<SwapQuote, TriError>(TriError::Stopped),
        !t.stopped && !power_tri_empty ==> t.spec_swap(res, input, resource_in, power_tri_empty)
            == t.spec_sim_swap(res, input, resource_in),
{
}

/// A simulated swap takes the fee first: it is the swap formula for
/// `input * swap_fee`, or an overflow when that product overflows.
pub proof fn sim_swap_takes_fee_first(
    t: Tri,
    res: Seq<(ResourceAddress, Dec)>,
    input: Dec,
    resource_in: ResourceAddress,
)
    ensures
        t.spec_sim_swap(res, input, resource_in) == (match spec_mul(input, t.swap_fee) {
            Some(size_in) => t.spec_swap_size(res, resource_in, size_in),
            None => Err(TriError::Overflow),
        }),
{
}

/// What the first half of a swap gives: the resource paid in is one of the
/// pool's two, the resource paid out is the other one with its reserve, the
/// base is `r_in / (r_in + size_in)` over the reserve of the resource paid
/// in, and the exponent is `(1 - w_out) / w_out` for the weight of the
/// resource paid out.
pub proof fn swap_size_result(t: Tri, res: Seq<(ResourceAddress, Dec)>, ra_in: ResourceAddress, size_in: Dec)
    requires
        t.spec_swap_size(res, ra_in, size_in) is Ok,
    ensures
        ({
            let q = t.spec_swap_size(res, ra_in, size_in)->Ok_0;
            let other = if ra_in == t.resources.0.0 { t.resources.1 } else { t.resources.0 };
            let r_in = reserve_of(res, ra_in)->Some_0;
            let den = spec_add(r_in, size_in)->Some_0;
            let num = spec_sub(Dec { lo: ONE_ATTOS, mid: 0, hi: 0 }, other.1)->Some_0;
            &&& ra_in == t.resources.0.0 || ra_in == t.resources.1.0
            &&& q.resource_out == other.0
            &&& reserve_of(res, other.0) == Some(q.reserves_out)
            &&& reserve_of(res, ra_in) is Some
            &&& spec_add(r_in, size_in) is Some
            &&& spec_div(r_in, den) == Some(q.power.base)
            &&& spec_sub(Dec { lo: ONE_ATTOS, mid: 0, hi: 0 }, other.1) is Some
            &&& spec_div(num, other.1) == Some(q.power.exponent)
        }),
{
}

/// What the first half of `in_given_out` gives: the reserve is that of the
/// resource paid in, the base is `r_out / (r_out - size_out)` over the reserve
/// of the other resource, and the exponent is `w_out / (1 - w_out)` for the
/// other resource's weight.
pub proof fn in_given_out_result(t: Tri, res: Seq<(ResourceAddress, Dec)>, size_out: Dec, ra_in: ResourceAddress)
    requires
        t.spec_in_given_out(res, size_out, ra_in) is Ok,
    ensures
        ({
            let q = t.spec_in_given_out(res, size_out, ra_in)->Ok_0;
            let other = if ra_in == t.resources.0.0 { t.resources.1 } else { t.resources.0 };
            let r_out = reserve_of(res, other.0)->Some_0;
            let den = spec_sub(r_out, size_out)->Some_0;
            let rest = spec_sub(Dec { lo: ONE_ATTOS, mid: 0, hi: 0 }, other.1)->Some_0;
            &&& ra_in == t.resources.0.0 || ra_in == t.resources.1.0
            &&& reserve_of(res, ra_in) == Some(q.reserves_in)
            &&& reserve_of(res, other.0) is Some
            &&& spec_sub(r_out, size_out) is Some
            &&& spec_div(r_out, den) == Some(q.power.base)
            &&& spec_sub(Dec { lo: ONE_ATTOS, mid: 0, hi: 0 }, other.1) is Some
            &&& spec_div(other.1, rest) == Some(q.power.exponent)
        }),
{
}

/// What `in_given_price` gives: with `spot` the price of `ra_in` in the other
/// resource, `(r_in / w_in) / (r_other / w_other)`, nothing when the target
/// does not exceed it; otherwise the reserve of `ra_in`, the base
/// `target / spot` and, as exponent, the weight of the other resource.
pub proof fn in_given_price_result(t: Tri, res: Seq<(ResourceAddress, Dec)>, target: Dec, ra_in: ResourceAddress)
    requires
        t.spec_in_given_price(res, target, ra_in) is Ok,
    ensures
        ({
            let r = t.spec_in_given_price(res, target, ra_in)->Ok_0;
            let own = if ra_in == t.resources.0.0 { t.resources.0 } else { t.resources.1 };
            let other = if ra_in == t.resources.0.0 { t.resources.1 } else { t.resources.0 };
            let a = reserve_of(res, own.0)->Some_0;
            let b = reserve_of(res, other.0)->Some_0;
            let pa = spec_div(a, own.1)->Some_0;
            let pb = spec_div(b, other.1)->Some_0;
            let spot = spec_div(pa, pb)->Some_0;
            &&& ra_in == t.resources.0.0 || ra_in == t.resources.1.0
            &&& own.0 == ra_in
            &&& reserve_of(res, own.0) is Some
            &&& reserve_of(res, other.0) is Some
            &&& spec_div(a, own.1) is Some
            &&& spec_div(b, other.1) is Some
            &&& spec_div(pa, pb) is Some
            &&& (r is None <==> val(target) <= val(spot))
            &&& (r matches Some(q) ==> q.reserves_in == a && q.power.exponent == other.1
                && spec_div(target, spot) == Some(q.power.base))
        }),
{
}

/// The payout is `reserves_out * (1 - power)` rounded down, for a
/// non-negative out-reserve and a power in `[0, 1]`.
pub proof fn swap_output_value(reserves_out: Dec, power: Dec)
    requires
        0 <= val(reserves_out),
        0 <= val(power) <= ONE_ATTOS,
    ensures
        spec_swap_output(reserves_out, power) is Ok,
        val(spec_swap_output(reserves_out, power)->Ok_0) == (val(reserves_out) * (
        1_000_000_000_000_000_000int - val(power))) / 1_000_000_000_000_000_000int,
{
    let one_attos = ONE_ATTOS as int;
    let f = one_attos - val(power);
    lemma_val_fits(reserves_out);
    lemma_val_limbs(f);
    lemma_scaled_within(val(reserves_out), f);
    lemma_val_limbs((val(reserves_out) * f) / one_attos);
}

/// The first entry for a resource decides the amount looked up for it,
/// whatever stands after it.
pub proof fn reserve_of_first_entry(res: Seq<(ResourceAddress, Dec)>, i: int)
    requires
        0 <= i < res.len(),
        forall|j: int| 0 <= j < i ==> #[trigger] res[j].0 != res[i].0,
    ensures
        reserve_of(res, res[i].0) == Some(res[i].1),
{
    lemma_find_first(res, i, 0);
}

proof fn lemma_find_first(res: Seq<(ResourceAddress, Dec)>, i: int, k: int)
    requires
        0 <= k <= i < res.len(),
        forall|j: int| 0 <= j < i ==> #[trigger] res[j].0 != res[i].0,
    ensures
        find_from(res, res[i].0, k) == Some(res[i].1),
    decreases i - k,
{
    if k < i {
        assert(res[k].0 != res[i].0);
        lemma_find_first(res, i, k + 1);
    }
}

/// The deposit size from a power: `reserves_in * (power - 1)`, rounded
/// toward zero to whole attos, divided by the swap fee multiplier, rounded
/// toward zero again.
pub proof fn input_from_power_value(t: Tri, reserves_in: Dec, power: Dec)
    requires
        t.spec_input_from_power(reserves_in, power) is Ok,
    ensures
        ({
            let one_attos = 1_000_000_000_000_000_000int;
            let g = val(power) - one_attos;
            let m = trunc_div(val(reserves_in) * g, one_attos);
            &&& val(t.swap_fee) != 0
            &&& val(t.spec_input_from_power(reserves_in, power)->Ok_0) == trunc_div(m * one_attos, val(t.swap_fee))
        }),
{
    let one_attos = ONE_ATTOS as int;
    let g = val(power) - one_attos;
    lemma_val_limbs(g);
    let m = trunc_div(val(reserves_in) * g, one_attos);
    lemma_val_limbs(m);
    lemma_val_limbs(trunc_div(m * one_attos, val(t.swap_fee)));
}

/// A power of one (the price already reached) asks for no deposit.
pub proof fn input_from_power_of_one(t: Tri, reserves_in: Dec)
    requires
        val(t.swap_fee) != 0,
    ensures
        t.spec_input_from_power(reserves_in, Dec { lo: ONE_ATTOS, mid: 0, hi: 0 }) matches Ok(d)
            && val(d) == 0,
{
    lemma_val_limbs(0);
    assert(limbs_of(0) == Dec { lo: 0, mid: 0, hi: 0 });
}

impl Tri {
    /// The exchange's setup is sound: both weights are positive and sum to
    /// one, and the swap fee multiplier lies in `(0.9, 1)`.
    pub open spec fn wf(self) -> bool {
        spec_check_setup(self.resources.0.1, self.resources.1.1, self.swap_fee) is Ok
    }

    /// Whether trades are open, given whether the authority vault is empty.
    pub open spec fn is_running(self, power_tri_empty: bool) -> bool {
        !self.stopped && !power_tri_empty
    }

    /// The resource paid out, with its weight, when `ra_in` is paid in.
    pub open spec fn spec_pair_of(self, ra_in: ResourceAddress) -> Option<(ResourceAddress, Dec)> {
        if ra_in == self.resources.0.0 {
            Some(self.resources.1)
        } else if ra_in == self.resources.1.0 {
            Some(self.resources.0)
        } else {
            None
        }
    }

    pub open spec fn spec_spot_price(self, res: Seq<(ResourceAddress, Dec)>) -> Result<Dec, TriError> {
        match spec_weighted_ratio(res, self.resources.0, self.resources.1) {
            Err(e) => Err(e),
            Ok(ratio) => match div_r(one(), self.swap_fee) {
                Err(e) => Err(e),
                Ok(inv_fee) => mul_r(ratio, inv_fee),
            },
        }
    }

    pub open spec fn spec_swap_size(
        self,
        res: Seq<(ResourceAddress, Dec)>,
        ra_in: ResourceAddress,
        size_in: Dec,
    ) -> Result<SwapQuote, TriError> {
        match self.spec_pair_of(ra_in) {
            None => Err(TriError::WrongResource),
            Some(pair) => match lookup_r(res, pair.0, TriError::CoherenceError) {
                Err(e) => Err(e),
                Ok(r_out) => match lookup_r(res, ra_in, TriError::CoherenceError) {
                    Err(e) => Err(e),
                    Ok(r_in) => match add_r(r_in, size_in) {
                        Err(e) => Err(e),
                        Ok(den) => match div_r(r_in, den) {
                            Err(e) => Err(e),
                            Ok(base) => match sub_r(one(), pair.1) {
                                Err(e) => Err(e),
                                Ok(num) => match div_r(num, pair.1) {
                                    Err(e) => Err(e),
                                    Ok(exponent) => Ok(
                                        SwapQuote {
                                            resource_out: pair.0,
                                            reserves_out: r_out,
                                            power: PowerQuery { base, exponent },
                                        },
                                    ),
                                },
                            },
                        },
                    },
                },
            },
        }
    }

    pub open spec fn spec_sim_swap(
        self,
        res: Seq<(ResourceAddress, Dec)>,
        input: Dec,
        resource_in: ResourceAddress,
    ) -> Result<SwapQuote, TriError> {
        match mul_r(input, self.swap_fee) {
            Err(e) => Err(e),
            Ok(size_in) => self.spec_swap_size(res, resource_in, size_in),
        }
    }

    pub open spec fn spec_swap(
        self,
        res: Seq<(ResourceAddress, Dec)>,
        input: Dec,
        resource_in: ResourceAddress,
        power_tri_empty: bool,
    ) -> Result<SwapQuote, TriError> {
        if !self.is_running(power_tri_empty) {
            Err(TriError::Stopped)
        } else {
            self.spec_sim_swap(res, input, resource_in)
        }
    }

    pub open spec fn spec_in_given_out(
        self,
        res: Seq<(ResourceAddress, Dec)>,
        size_out: Dec,
        ra_in: ResourceAddress,
    ) -> Result<InputQuery, TriError> {
        match self.spec_pair_of(ra_in) {
            None => Err(TriError::WrongResource),
            Some(pair) => match lookup_r(res, pair.0, TriError::CoherenceError) {
                Err(e) => Err(e),
                Ok(r_out) => match lookup_r(res, ra_in, TriError::CoherenceError) {
                    Err(e) => Err(e),
                    Ok(r_in) => match sub_r(r_out, size_out) {
                        Err(e) => Err(e),
                        Ok(den) => match div_r(r_out, den) {
                            Err(e) => Err(e),
                            Ok(base) => match sub_r(one(), pair.1) {
                                Err(e) => Err(e),
                                Ok(rest) => match div_r(pair.1, rest) {
                                    Err(e) => Err(e),
                                    Ok(exponent) => Ok(
                                        InputQuery {
                                            reserves_in: r_in,
                                            power: PowerQuery { base, exponent },
                                        },
                                    ),
                                },
                            },
                        },
                    },
                },
            },
        }
    }

    /// The spot price of `ra_in` in the other resource and the weight of the
    /// other resource.
    pub open spec fn spec_price_of(
        self,
        res: Seq<(ResourceAddress, Dec)>,
        ra_in: ResourceAddress,
    ) -> Result<(Dec, Dec), TriError> {
        if ra_in == self.resources.0.0 {
            match spec_weighted_ratio(res, self.resources.0, self.resources.1) {
                Err(e) => Err(e),
                Ok(spot) => Ok((spot, self.resources.1.1)),
            }
        } else if ra_in == self.resources.1.0 {
            match spec_weighted_ratio(res, self.resources.1, self.resources.0) {
                Err(e) => Err(e),
                Ok(spot) => Ok((spot, self.resources.0.1)),
            }
        } else {
            Err(TriError::WrongResource)
        }
    }

    pub open spec fn spec_in_given_price(
        self,
        res: Seq<(ResourceAddress, Dec)>,
        target: Dec,
        ra_in: ResourceAddress,
    ) -> Result<Option<InputQuery>, TriError> {
        match self.spec_price_of(res, ra_in) {
            Err(e) => Err(e),
            Ok(pw) => match lookup_r(res, ra_in, TriError::CoherenceError) {
                Err(e) => Err(e),
                Ok(r_in) => if val(target) > val(pw.0) {
                    match div_r(target, pw.0) {
                        Err(e) => Err(e),
                        Ok(base) => Ok(
                            Some(
                                InputQuery {
                                    reserves_in: r_in,
                                    power: PowerQuery { base, exponent: pw.1 },
                                },
                            ),
                        ),
                    }
                } else {
                    Ok(None)
                },
            },
        }
    }

    /// `(reserves_in * (power - 1)) / swap_fee`.
    pub open spec fn spec_input_from_power(self, reserves_in: Dec, power: Dec) -> Result<Dec, TriError> {
        match sub_r(power, one()) {
            Err(e) => Err(e),
            Ok(g) => match mul_r(reserves_in, g) {
                Err(e) => Err(e),
                Ok(m) => div_r(m, self.swap_fee),
            },
        }
    }

    /// Sets up an exchange between `t1` (weight `t1w`) and `t2` (weight
    /// `t2w`) whose liquidity `pool` holds; it starts stopped. Refused unless
    /// the weights are positive and sum to one and the fee multiplier lies in
    /// `(0.9, 1)`.
    pub fn from_nothing(
        alpha_addr: ComponentAddress,
        t1: ResourceAddress,
        t1w: Dec,
        t2: ResourceAddress,
        t2w: Dec,
        swap_fee: Dec,
        pool: ComponentAddress,
    ) -> (r: Result<Tri, TriError>)
        ensures
            r == (match spec_check_setup(t1w, t2w, swap_fee) {
                Err(e) => Err(e),
                Ok(_) => Ok(
                    Tri {
                        alpha_addr,
                        resources: ((t1, t1w), (t2, t2w)),
                        pool,
                        swap_fee,
                        stopped: true,
                    },
                ),
            }),
            r matches Ok(t) ==> t.wf(),
    {
        match check_setup(t1w, t2w, swap_fee) {
            Err(e) => Err(e),
            Ok(_) => Ok(
                Tri { alpha_addr, resources: ((t1, t1w), (t2, t2w)), pool, swap_fee, stopped: true },
            ),
        }
    }

    /// The exchange's resources with their weights, its pool, its swap fee
    /// multiplier and whether it is stopped.
    pub fn look_within(&self) -> (r: (
        ((ResourceAddress, Dec), (ResourceAddress, Dec)),
        ComponentAddress,
        Dec,
        bool,
    ))
        ensures
            r == (self.resources, self.pool, self.swap_fee, self.stopped),
    {
        (self.resources, self.pool, self.swap_fee, self.stopped)
    }

    /// Whether a first deposit may go into the pool: its first reserve entry
    /// must be zero; a pool without entries is incoherent.
    pub fn first_deposit(&self, reserves: &Vec<(ResourceAddress, Dec)>) -> (r: Result<(), TriError>)
        ensures
            r == (if reserves@.len() == 0 {
                Err(TriError::Incoherence)
            } else if val(reserves@[0].1) != 0 {
                Err(TriError::AlreadyRunning)
            } else {
                Ok(())
            }),
    {
        if reserves.len() == 0 {
            return Err(TriError::Incoherence);
        }
        if !dec_eq(reserves[0].1, Dec { lo: 0, mid: 0, hi: 0 }) {
            return Err(TriError::AlreadyRunning);
        }
        Ok(())
    }

    /// Stops (`true`) or starts (`false`) trading.
    pub fn start_stop(&mut self, input: bool)
        ensures
            *final(self) == (Tri { stopped: input, ..*old(self) }),
            old(self).wf() ==> final(self).wf(),
    {
        self.stopped = input;
    }

    /// Whether liquidity may be added: refused while the exchange is stopped
    /// or its authority vault is empty.
    pub fn add_liquidity(&self, power_tri_empty: bool) -> (r: Result<(), TriError>)
        ensures
            r == (if !self.stopped && !power_tri_empty {
                Ok(())
            } else {
                Err(TriError::Stopped)
            }),
    {
        if self.stopped || power_tri_empty {
            Err(TriError::Stopped)
        } else {
            Ok(())
        }
    }

    /// Whether liquidity may be removed: refused while the exchange is
    /// stopped or its authority vault is empty.
    pub fn remove_liquidity(&self, power_tri_empty: bool) -> (r: Result<(), TriError>)
        ensures
            r == (if !self.stopped && !power_tri_empty {
                Ok(())
            } else {
                Err(TriError::Stopped)
            }),
    {
        if self.stopped || power_tri_empty {
            Err(TriError::Stopped)
        } else {
            Ok(())
        }
    }

    /// The resource paid out, with its weight, when `ra_in` is paid in.
    fn pair_of(&self, ra_in: &ResourceAddress) -> (r: Option<(ResourceAddress, Dec)>)
        ensures
            r == self.spec_pair_of(*ra_in),
    {
        if same_resource(ra_in, &self.resources.0.0) {
            Some(self.resources.1)
        } else if same_resource(ra_in, &self.resources.1.0) {
            Some(self.resources.0)
        } else {
            None
        }
    }

    /// The first half of the swap formula for `size_in` (after the fee) of
    /// `ra_in`: the other resource, its reserve, and the power
    /// `(r_in / (r_in + size_in)) ^ ((1 - w_out) / w_out)`; the payout is
    /// `swap_output(reserves_out, power)`.
    pub fn swap_size(
        &self,
        reserves: &Vec<(ResourceAddress, Dec)>,
        ra_in: ResourceAddress,
        size_in: Dec,
    ) -> (r: Result<SwapQuote, TriError>)
        ensures
            r == self.spec_swap_size(reserves@, ra_in, size_in),
    {
        let pair = match self.pair_of(&ra_in) {
            Some(p) => p,
            None => return Err(TriError::WrongResource),
        };
        let r_out = match lookup_or(reserves, &pair.0, TriError::CoherenceError) {
            Ok(d) => d,
            Err(e) => return Err(e),
        };
        let r_in = match lookup_or(reserves, &ra_in, TriError::CoherenceError) {
            Ok(d) => d,
            Err(e) => return Err(e),
        };
        let den = match add_or(r_in, size_in) {
            Ok(d) => d,
            Err(e) => return Err(e),
        };
        let base = match div_or(r_in, den) {
            Ok(d) => d,
            Err(e) => return Err(e),
        };
        let num = match sub_or(Dec { lo: ONE_ATTOS, mid: 0, hi: 0 }, pair.1) {
            Ok(d) => d,
            Err(e) => return Err(e),
        };
        let exponent = match div_or(num, pair.1) {
            Ok(d) => d,
            Err(e) => return Err(e),
        };
        Ok(SwapQuote { resource_out: pair.0, reserves_out: r_out, power: PowerQuery { base, exponent } })
    }

    /// A swap of `input` of `resource_in`: refused while the exchange is
    /// stopped or its authority vault is empty; otherwise the fee is taken
    /// (`input * swap_fee`) and the swap formula begun.
    pub fn swap(
        &self,
        reserves: &Vec<(ResourceAddress, Dec)>,
        input: Dec,
        resource_in: ResourceAddress,
        power_tri_empty: bool,
    ) -> (r: Result<SwapQuote, TriError>)
        ensures
            r == self.spec_swap(reserves@, input, resource_in, power_tri_empty),
    {
        if self.stopped || power_tri_empty {
            return Err(TriError::Stopped);
        }
        self.sim_swap(reserves, input, resource_in)
    }

    /// A simulated swap of `input` of `resource_in`: the fee is taken
    /// (`input * swap_fee`) and the swap formula begun, whether or not the
    /// exchange is stopped.
    pub fn sim_swap(
        &self,
        reserves: &Vec<(ResourceAddress, Dec)>,
        input: Dec,
        resource_in: ResourceAddress,
    ) -> (r: Result<SwapQuote, TriError>)
        ensures
            r == self.spec_sim_swap(reserves@, input, resource_in),
    {
        let size_in = match mul_or(input, self.swap_fee) {
            Ok(d) => d,
            Err(e) => return Err(e),
        };
        self.swap_size(reserves, resource_in, size_in)
    }

    /// The first half of the formula for how much of `ra_in` buys `size_out`
    /// of the other resource: its reserve of `ra_in` and the power
    /// `(r_out / (r_out - size_out)) ^ (w_out / (1 - w_out))`; the size is
    /// `input_from_power(reserves_in, power)`.
    pub fn in_given_out(
        &self,
        reserves: &Vec<(ResourceAddress, Dec)>,
        size_out: Dec,
        ra_in: ResourceAddress,
    ) -> (r: Result<InputQuery, TriError>)
        ensures
            r == self.spec_in_given_out(reserves@, size_out, ra_in),
    {
        let pair = match self.pair_of(&ra_in) {
            Some(p) => p,
            None => return Err(TriError::WrongResource),
        };
        let r_out = match lookup_or(reserves, &pair.0, TriError::CoherenceError) {
            Ok(d) => d,
            Err(e) => return Err(e),
        };
        let r_in = match lookup_or(reserves, &ra_in, TriError::CoherenceError) {
            Ok(d) => d,
            Err(e) => return Err(e),
        };
        let den = match sub_or(r_out, size_out) {
            Ok(d) => d,
            Err(e) => return Err(e),
        };
        let base = match div_or(r_out, den) {
            Ok(d) => d,
            Err(e) => return Err(e),
        };
        let rest = match sub_or(Dec { lo: ONE_ATTOS, mid: 0, hi: 0 }, pair.1) {
            Ok(d) => d,
            Err(e) => return Err(e),
        };
        let exponent = match div_or(pair.1, rest) {
            Ok(d) => d,
            Err(e) => return Err(e),
        };
        Ok(InputQuery { reserves_in: r_in, power: PowerQuery { base, exponent } })
    }

    /// The spot price of `ra_in` in the other resource, with the other
    /// resource's weight.
    fn price_of(&self, reserves: &Vec<(ResourceAddress, Dec)>, ra_in: &ResourceAddress) -> (r: Result<
        (Dec, Dec),
        TriError,
    >)
        ensures
            r == self.spec_price_of(reserves@, *ra_in),
    {
        if same_resource(ra_in, &self.resources.0.0) {
            match weighted_ratio(reserves, self.resources.0, self.resources.1) {
                Err(e) => Err(e),
                Ok(spot) => Ok((spot, self.resources.1.1)),
            }
        } else if same_resource(ra_in, &self.resources.1.0) {
            match weighted_ratio(reserves, self.resources.1, self.resources.0) {
                Err(e) => Err(e),
                Ok(spot) => Ok((spot, self.resources.0.1)),
            }
        } else {
            Err(TriError::WrongResource)
        }
    }

    /// The first half of the formula for how much of `ra_in` pushes its
    /// price to `target`: nothing when `target` does not exceed the current
    /// price, otherwise its reserve of `ra_in` and the power
    /// `(target / spot) ^ w_out`; the size is
    /// `input_from_power(reserves_in, power)`.
    pub fn in_given_price(
        &self,
        reserves: &Vec<(ResourceAddress, Dec)>,
        target: Dec,
        ra_in: ResourceAddress,
    ) -> (r: Result<Option<InputQuery>, TriError>)
        ensures
            r == self.spec_in_given_price(reserves@, target, ra_in),
    {
        let pw = match self.price_of(reserves, &ra_in) {
            Ok(p) => p,
            Err(e) => return Err(e),
        };
        let r_in = match lookup_or(reserves, &ra_in, TriError::CoherenceError) {
            Ok(d) => d,
            Err(e) => return Err(e),
        };
        if dec_lt(pw.0, target) {
            let base = match div_or(target, pw.0) {
                Ok(d) => d,
                Err(e) => return Err(e),
            };
            Ok(Some(InputQuery { reserves_in: r_in, power: PowerQuery { base, exponent: pw.1 } }))
        } else {
            Ok(None)
        }
    }

    /// The second half of the deposit-size formulas:
    /// `(reserves_in * (power - 1)) / swap_fee`.
    pub fn input_from_power(&self, reserves_in: Dec, power: Dec) -> (r: Result<Dec, TriError>)
        ensures
            r == self.spec_input_from_power(reserves_in, power),
    {
        let g = match sub_or(power, Dec { lo: ONE_ATTOS, mid: 0, hi: 0 }) {
            Ok(d) => d,
            Err(e) => return Err(e),
        };
        let m = match mul_or(reserves_in, g) {
            Ok(d) => d,
            Err(e) => return Err(e),
        };
        div_or(m, self.swap_fee)
    }

    /// The spot price: `((r_1 / w_1) / (r_2 / w_2)) * (1 / swap_fee)`.
    pub fn spot_price(&self, reserves: &Vec<(ResourceAddress, Dec)>) -> (r: Result<Dec, TriError>)
        ensures
            r == self.spec_spot_price(reserves@),
    {
        let ratio = match weighted_ratio(reserves, self.resources.0, self.resources.1) {
            Ok(d) => d,
            Err(e) => return Err(e),
        };
        let inv_fee = match div_or(Dec { lo: ONE_ATTOS, mid: 0, hi: 0 }, self.swap_fee) {
            Ok(d) => d,
            Err(e) => return Err(e),
        };
        mul_or(ratio, inv_fee)
    }
}

} // verus!
