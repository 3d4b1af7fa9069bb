//! The liquidity acquisition component: its addresses, and the decisions of
//! the rope that pairs incoming liquidity tokens with treasury REAL.
//!
//! The rope alternates calls to other components with decisions. The calls
//! are made by the caller; the decisions are a step function from the stage
//! reached and the reply to the call just made to the next stage and the
//! next call.

use vstd::prelude::*;
use scrypto::prelude::{ComponentAddress, ResourceAddress};
use crate::decimal::{dec_lt, val, Dec};

verus! {

/// Attos of `dec!("0.5")`: the spot price that the exchange must exceed for
/// the rope to add liquidity.
pub const MIN_ROPE_SPOT_ATTOS: u64 = 500_000_000_000_000_000u64;

/// The component's state: the DAO it serves, its two badges and the
/// addresses of its three applications (usd, eux, tri).
#[derive(Clone, Copy, Debug)]
pub struct Alpha {
    pub dao_addr: ComponentAddress,
    pub power_zero: ResourceAddress,
    pub power_azero: ResourceAddress,
    pub app_addrs: (ComponentAddress, ComponentAddress, ComponentAddress),
}

/// How far a rope has come.
#[derive(Clone, Copy, Debug, PartialEq, Eq, Structural)]
pub enum AaRopeStage {
    /// Waiting for the DAO's branch addresses.
    AwaitBranches,
    /// Waiting for the treasury's tap.
    AwaitTap,
    /// Waiting for the exchange's spot price.
    AwaitSpot,
    /// Waiting for the exchange to add the liquidity.
    AwaitLiquidity,
    /// Finished.
    Done,
}

/// The reply to the call that a rope made last.
#[derive(Clone, Copy, Debug, PartialEq, Eq, Structural)]
pub enum AaRopeEvent {
    /// The DAO gave its branch addresses.
    BranchesFetched,
    /// The treasury's tap answered; `real_allotted` says whether it gave
    /// REAL (its remainder has been put with the input).
    Tapped { real_allotted: bool },
    /// The exchange gave its spot price.
    SpotPrice { price: Dec },
    /// The exchange added the liquidity and gave back its pool units and
    /// remainder.
    LiquidityAdded,
}

/// The call that a rope makes next.
#[derive(Clone, Copy, Debug, PartialEq, Eq, Structural)]
pub enum AaRopeAction {
    /// Ask the DAO for its branch addresses.
    FetchBranches,
    /// Tap the treasury for REAL, under the alpha badge.
    TapTreasury,
    /// Ask the exchange for its spot price.
    QuerySpotPrice,
    /// Add the REAL and the input to the exchange's liquidity.
    AddLiquidity,
    /// Hand the input back to the treasury (`aa_out`), under the alpha badge.
    ReturnInput,
    /// Hand the remainder back to the treasury (`aa_out`) and deposit the
    /// pool units there, under the alpha badge.
    SettleLiquidity,
}

/// The rope's decision on a reply: the next stage and call, or nothing when
/// the reply does not belong to the stage.
pub open spec fn spec_aa_rope_step(stage: AaRopeStage, event: AaRopeEvent) -> Option<
    (AaRopeStage, AaRopeAction),
> {
    match (stage, event) {
        (AaRopeStage::AwaitBranches, AaRopeEvent::BranchesFetched) => Some(
            (AaRopeStage::AwaitTap, AaRopeAction::TapTreasury),
        ),
        (AaRopeStage::AwaitTap, AaRopeEvent::Tapped { real_allotted }) => if real_allotted {
            Some((AaRopeStage::AwaitSpot, AaRopeAction::QuerySpotPrice))
        } else {
            Some((AaRopeStage::Done, AaRopeAction::ReturnInput))
        },
        (AaRopeStage::AwaitSpot, AaRopeEvent::SpotPrice { price }) => if val(price)
            > MIN_ROPE_SPOT_ATTOS {
            Some((AaRopeStage::AwaitLiquidity, AaRopeAction::AddLiquidity))
        } else {
            Some((AaRopeStage::Done, AaRopeAction::ReturnInput))
        },
        (AaRopeStage::AwaitLiquidity, AaRopeEvent::LiquidityAdded) => Some(
            (AaRopeStage::Done, AaRopeAction::SettleLiquidity),
        ),
        _ => None,
    }
}

/// The stages and calls of a rope fed the replies `events` from `stage` on,
/// or nothing if one of them does not belong to the stage reached.
pub open spec fn aa_rope_run(stage: AaRopeStage, events: Seq<AaRopeEvent>) -> Option<
    (AaRopeStage, Seq<AaRopeAction>),
>
    decreases events.len(),
{
    if events.len() == 0 {
        Some((stage, Seq::empty()))
    } else {
        match spec_aa_rope_step(stage, events[0]) {
            None => None,
            Some((next, action)) => match aa_rope_run(next, events.drop_first()) {
                None => None,
                Some((last, actions)) => Some((last, seq![action] + actions)),
            },
        }
    }
}

/// Whether a call hands the input, or what is left of it, back to the
/// treasury.
pub open spec fn returns_input(action: AaRopeAction) -> bool {
    action == AaRopeAction::ReturnInput || action == AaRopeAction::SettleLiquidity
}

/// How many of `actions` hand the input back to the treasury.
pub open spec fn count_returns(actions: Seq<AaRopeAction>) -> nat
    decreases actions.len(),
{
    if actions.len() == 0 {
        0
    } else {
        (if returns_input(actions[0]) { 1nat } else { 0nat }) + count_returns(actions.drop_first())
    }
}

/// How many hand-backs a rope at `stage` has still to make.
pub open spec fn pending_returns(stage: AaRopeStage) -> nat {
    if stage == AaRopeStage::Done { 0 } else { 1 }
}

/// Starts a rope: it first asks the DAO for its branch addresses.
pub fn aa_rope_start() -> (r: (AaRopeStage, AaRopeAction))
    ensures
        r == (AaRopeStage::AwaitBranches, AaRopeAction::FetchBranches),
{
    (AaRopeStage::AwaitBranches, AaRopeAction::FetchBranches)
}

/// The rope's decision on a reply. Without REAL from the treasury the input
/// goes back; with it, liquidity is added only when the exchange's spot price
/// exceeds `0.5`, else the input goes back.
pub fn aa_rope_step(stage: AaRopeStage, event: AaRopeEvent) -> (r: Option<(AaRopeStage, AaRopeAction)>)
    ensures
        r == spec_aa_rope_step(stage, event),
        r matches Some((_, a)) && a == AaRopeAction::AddLiquidity ==> (stage
            == AaRopeStage::AwaitSpot && (event matches AaRopeEvent::SpotPrice { price }
            && val(price) > MIN_ROPE_SPOT_ATTOS)),
{
    match (stage, event) {
        (AaRopeStage::AwaitBranches, AaRopeEvent::BranchesFetched) => Some(
            (AaRopeStage::AwaitTap, AaRopeAction::TapTreasury),
        ),
        (AaRopeStage::AwaitTap, AaRopeEvent::Tapped { real_allotted }) => if real_allotted {
            Some((AaRopeStage::AwaitSpot, AaRopeAction::QuerySpotPrice))
        } else {
            Some((AaRopeStage::Done, AaRopeAction::ReturnInput))
        },
        (AaRopeStage::AwaitSpot, AaRopeEvent::SpotPrice { price }) => if dec_lt(
            Dec { lo: MIN_ROPE_SPOT_ATTOS, mid: 0, hi: 0 },
            price,
        ) {
            Some((AaRopeStage::AwaitLiquidity, AaRopeAction::AddLiquidity))
        } else {
            Some((AaRopeStage::Done, AaRopeAction::ReturnInput))
        },
        (AaRopeStage::AwaitLiquidity, AaRopeEvent::LiquidityAdded) => Some(
            (AaRopeStage::Done, AaRopeAction::SettleLiquidity),
        ),
        _ => None,
    }
}

/// At the spot-price stage the rope adds liquidity exactly when the price
/// exceeds 0.5, whatever the price, and hands the input back otherwise.
pub proof fn aa_rope_adds_liquidity_above_half(price: Dec)
    ensures
        val(price) > 500_000_000_000_000_000int ==> spec_aa_rope_step(
            AaRopeStage::AwaitSpot,
            AaRopeEvent::SpotPrice { price },
        ) == Some((AaRopeStage::AwaitLiquidity, AaRopeAction::AddLiquidity)),
        val(price) <= 500_000_000_000_000_000int ==> spec_aa_rope_step(
            AaRopeStage::AwaitSpot,
            AaRopeEvent::SpotPrice { price },
        ) == Some((AaRopeStage::Done, AaRopeAction::ReturnInput)),
{
}

/// After the treasury's tap the rope asks for the spot price exactly when
/// REAL was allotted, and hands the input back at once otherwise; the branch
/// addresses lead to the tap and added liquidity to the settlement.
pub proof fn aa_rope_follows_the_replies(real_allotted: bool)
    ensures
        spec_aa_rope_step(AaRopeStage::AwaitTap, AaRopeEvent::Tapped { real_allotted }) == (if real_allotted {
            Some((AaRopeStage::AwaitSpot, AaRopeAction::QuerySpotPrice))
        } else {
            Some((AaRopeStage::Done, AaRopeAction::ReturnInput))
        }),
        spec_aa_rope_step(AaRopeStage::AwaitBranches, AaRopeEvent::BranchesFetched) == Some(
            (AaRopeStage::AwaitTap, AaRopeAction::TapTreasury),
        ),
        spec_aa_rope_step(AaRopeStage::AwaitLiquidity, AaRopeEvent::LiquidityAdded) == Some(
            (AaRopeStage::Done, AaRopeAction::SettleLiquidity),
        ),
{
}

/// Every rope that runs to its end hands the input (or what is left of it)
/// back to the treasury exactly once.
pub proof fn aa_rope_returns_input_once(events: Seq<AaRopeEvent>, actions: Seq<AaRopeAction>)
    requires
        aa_rope_run(AaRopeStage::AwaitBranches, events) == Some((AaRopeStage::Done, actions)),
    ensures
        count_returns(actions) == 1,
{
    lemma_run_returns(AaRopeStage::AwaitBranches, events, actions);
}

proof fn lemma_run_returns(stage: AaRopeStage, events: Seq<AaRopeEvent>, actions: Seq<AaRopeAction>)
    requires
        aa_rope_run(stage, events) == Some((AaRopeStage::Done, actions)),
    ensures
        count_returns(actions) == pending_returns(stage),
    decreases events.len(),
{
    if events.len() > 0 {
        let (next, action) = spec_aa_rope_step(stage, events[0]).unwrap();
        let (last, rest) = aa_rope_run(next, events.drop_first()).unwrap();
        lemma_run_returns(next, events.drop_first(), rest);
        assert((seq![action] + rest).drop_first() =~= rest);
    }
}

/// Setting the application addresses is what reading them gives back, and
/// setting the DAO address afterwards leaves them as they are.
pub proof fn app_addrs_read_back(
    a: Alpha,
    new: (ComponentAddress, ComponentAddress, ComponentAddress),
    dao: ComponentAddress,
)
    ensures
        (Alpha { app_addrs: new, ..a }).app_addrs == new,
        (Alpha { dao_addr: dao, ..Alpha { app_addrs: new, ..a } }).app_addrs == new,
        (Alpha { dao_addr: dao, ..Alpha { app_addrs: new, ..a } }).dao_addr == dao,
{
}

impl Alpha {
    /// The component's state when set up with the given DAO, badges and
    /// applications.
    pub fn from_nothing(
        dao_addr: ComponentAddress,
        power_zero: ResourceAddress,
        power_azero: ResourceAddress,
        usd_addr: ComponentAddress,
        eux_addr: ComponentAddress,
        tri_addr: ComponentAddress,
    ) -> (r: Alpha)
        ensures
            r == (Alpha {
                dao_addr,
                power_zero,
                power_azero,
                app_addrs: (usd_addr, eux_addr, tri_addr),
            }),
    {
        Alpha { dao_addr, power_zero, power_azero, app_addrs: (usd_addr, eux_addr, tri_addr) }
    }

    /// The addresses of the three applications.
    pub fn get_app_addrs(&self) -> (r: (ComponentAddress, ComponentAddress, ComponentAddress))
        ensures
            r == self.app_addrs,
    {
        self.app_addrs
    }

    /// Replaces the addresses of the three applications.
    pub fn set_app_addrs(&mut self, new: (ComponentAddress, ComponentAddress, ComponentAddress))
        ensures
            *final(self) == (Alpha { app_addrs: new, ..*old(self) }),
    {
        self.app_addrs = new;
    }

    /// Replaces the address of the DAO.
    pub fn set_dao_addr(&mut self, new: ComponentAddress)
        ensures
            *final(self) == (Alpha { dao_addr: new, ..*old(self) }),
    {
        self.dao_addr = new;
    }
}

} // verus!
