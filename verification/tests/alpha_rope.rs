use ethereal::alpha::{aa_rope_start, aa_rope_step, Alpha, AaRopeAction, AaRopeEvent, AaRopeStage};
use ethereal::decimal::Dec;
use scrypto::prelude::{I192, ACCOUNT_OWNER_BADGE, CONSENSUS_MANAGER, FAUCET, GENESIS_HELPER, TRANSACTION_TRACKER, XRD};


fn dec(v: i128) -> Dec {
    let [lo, mid, hi] = I192::from(v).to_digits();
    Dec { lo, mid, hi }
}

#[test]
fn app_addrs_read_back() {
    let mut a = Alpha::from_nothing(FAUCET, XRD, ACCOUNT_OWNER_BADGE, FAUCET, FAUCET, FAUCET);
    assert_eq!(a.get_app_addrs(), (FAUCET, FAUCET, FAUCET));
    a.set_app_addrs((CONSENSUS_MANAGER, GENESIS_HELPER, TRANSACTION_TRACKER));
    assert_eq!(a.get_app_addrs(), (CONSENSUS_MANAGER, GENESIS_HELPER, TRANSACTION_TRACKER));
    a.set_dao_addr(GENESIS_HELPER);
    assert_eq!(a.dao_addr, GENESIS_HELPER);
    assert_eq!(a.get_app_addrs(), (CONSENSUS_MANAGER, GENESIS_HELPER, TRANSACTION_TRACKER));
    assert_eq!(a.power_azero, ACCOUNT_OWNER_BADGE);
}

#[test]
fn rope_adds_liquidity_above_half() {
    let (s, a) = aa_rope_start();
    assert_eq!(a, AaRopeAction::FetchBranches);
    let (s, a) = aa_rope_step(s, AaRopeEvent::BranchesFetched).unwrap();
    assert_eq!(a, AaRopeAction::TapTreasury);
    let (s, a) = aa_rope_step(s, AaRopeEvent::Tapped { real_allotted: true }).unwrap();
    assert_eq!(a, AaRopeAction::QuerySpotPrice);
    let (s, a) = aa_rope_step(s, AaRopeEvent::SpotPrice { price: dec(500_000_000_000_000_001) }).unwrap();
    assert_eq!(a, AaRopeAction::AddLiquidity);
    let (s, a) = aa_rope_step(s, AaRopeEvent::LiquidityAdded).unwrap();
    assert_eq!(a, AaRopeAction::SettleLiquidity);
    assert_eq!(s, AaRopeStage::Done);
}

#[test]
fn rope_returns_input_at_half() {
    let s = AaRopeStage::AwaitSpot;
    let (s, a) = aa_rope_step(s, AaRopeEvent::SpotPrice { price: dec(500_000_000_000_000_000) }).unwrap();
    assert_eq!(a, AaRopeAction::ReturnInput);
    assert_eq!(s, AaRopeStage::Done);
}

#[test]
fn rope_returns_input_without_real() {
    let (s, a) = aa_rope_step(AaRopeStage::AwaitTap, AaRopeEvent::Tapped { real_allotted: false }).unwrap();
    assert_eq!(a, AaRopeAction::ReturnInput);
    assert_eq!(s, AaRopeStage::Done);
}

#[test]
fn rope_ignores_out_of_order_replies() {
    assert_eq!(aa_rope_step(AaRopeStage::AwaitBranches, AaRopeEvent::LiquidityAdded), None);
    assert_eq!(aa_rope_step(AaRopeStage::Done, AaRopeEvent::BranchesFetched), None);
}
