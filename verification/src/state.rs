//! The pool's stored state, and its model as plain values.
use crate::ledger::{amounts_fit, EpochLedger};
use crate::types::{Address, TokenId};
use vstd::prelude::*;

verus! {

/// The least amount of each token that must stay in the reserves.
pub const MIN_LIQUIDITY: u128 = 10000u128;

/// Fees are given in hundredths of a percent: 100 is 1%.
pub const FEE_DENOMINATOR: u128 = 10000u128;

/// Everything the pool keeps in storage.
pub struct Pair {
    pub first_token: TokenId,
    pub second_token: TokenId,
    /// Empty until the LP token has been issued.
    pub lp_token: TokenId,
    pub first_token_reserve: u128,
    pub second_token_reserve: u128,
    pub lp_token_supply: u128,
    pub paused: bool,
    /// Liquidity providers' share of each swap, in hundredths of a percent.
    pub liq_providers_fees: u32,
    /// The platform's share of each swap, in hundredths of a percent.
    pub platform_fees: u32,
    /// `None` while the storage slot is empty.
    pub platform_fees_receiver: Option<Address>,
    pub lp_fees_ledger: EpochLedger,
    pub trading_volume_ledger: EpochLedger,
}

/// The pool's state as plain values.
#[verifier::ext_equal]
pub struct PairModel {
    pub first_token: Seq<u8>,
    pub second_token: Seq<u8>,
    pub lp_token: Seq<u8>,
    pub first_reserve: nat,
    pub second_reserve: nat,
    pub lp_supply: nat,
    pub paused: bool,
    pub lp_fees_bps: nat,
    pub platform_fees_bps: nat,
    pub platform_fees_receiver: Option<Seq<u8>>,
    /// Liquidity providers' fees collected, by (epoch, token).
    pub lp_fees: Map<(u64, Seq<u8>), nat>,
    /// Volume traded, by (epoch, token).
    pub trading_volume: Map<(u64, Seq<u8>), nat>,
}

pub open spec fn address_option_view(a: Option<Address>) -> Option<Seq<u8>> {
    match a {
        Some(x) => Some(x@),
        None => None,
    }
}

impl View for Pair {
    type V = PairModel;

    open spec fn view(&self) -> PairModel {
        PairModel {
            first_token: self.first_token@,
            second_token: self.second_token@,
            lp_token: self.lp_token@,
            first_reserve: self.first_token_reserve as nat,
            second_reserve: self.second_token_reserve as nat,
            lp_supply: self.lp_token_supply as nat,
            paused: self.paused,
            lp_fees_bps: self.liq_providers_fees as nat,
            platform_fees_bps: self.platform_fees as nat,
            platform_fees_receiver: address_option_view(self.platform_fees_receiver),
            lp_fees: self.lp_fees_ledger.amounts(),
            trading_volume: self.trading_volume_ledger.amounts(),
        }
    }
}

/// The amounts of a model fit the widths they are stored in.
pub open spec fn model_in_range(m: PairModel) -> bool {
    &&& m.first_reserve <= u128::MAX
    &&& m.second_reserve <= u128::MAX
    &&& m.lp_supply <= u128::MAX
    &&& m.lp_fees_bps <= u32::MAX
    &&& m.platform_fees_bps <= u32::MAX
    &&& amounts_fit(m.lp_fees)
    &&& amounts_fit(m.trading_volume)
}

/// Every stored state is in range.
pub proof fn lemma_stored_state_in_range(p: Pair)
    ensures
        model_in_range(p@),
{
    p.lp_fees_ledger.lemma_amounts_fit();
    p.trading_volume_ledger.lemma_amounts_fit();
}

/// The state of a freshly deployed pool, before `init`: every slot empty.
pub open spec fn empty_model() -> PairModel {
    PairModel {
        first_token: Seq::empty(),
        second_token: Seq::empty(),
        lp_token: Seq::empty(),
        first_reserve: 0,
        second_reserve: 0,
        lp_supply: 0,
        paused: false,
        lp_fees_bps: 0,
        platform_fees_bps: 0,
        platform_fees_receiver: None,
        lp_fees: Map::empty(),
        trading_volume: Map::empty(),
    }
}

/// The reserves as (in, out) for a trade in the given direction.
pub open spec fn reserves_in_out(m: PairModel, is_first_token_in: bool) -> (nat, nat) {
    if is_first_token_in {
        (m.first_reserve, m.second_reserve)
    } else {
        (m.second_reserve, m.first_reserve)
    }
}

/// The model with the reserves of the (in, out) direction set.
pub open spec fn with_reserves_in_out(
    m: PairModel,
    is_first_token_in: bool,
    in_reserve: nat,
    out_reserve: nat,
) -> PairModel {
    if is_first_token_in {
        PairModel { first_reserve: in_reserve, second_reserve: out_reserve, ..m }
    } else {
        PairModel { first_reserve: out_reserve, second_reserve: in_reserve, ..m }
    }
}

impl Pair {
    /// A freshly deployed pool, before `init`.
    pub fn new() -> (res: Pair)
        ensures
            res@ == empty_model(),
    {
        Pair {
            first_token: TokenId::empty(),
            second_token: TokenId::empty(),
            lp_token: TokenId::empty(),
            first_token_reserve: 0,
            second_token_reserve: 0,
            lp_token_supply: 0,
            paused: false,
            liq_providers_fees: 0,
            platform_fees: 0,
            platform_fees_receiver: None,
            lp_fees_ledger: EpochLedger::new(),
            trading_volume_ledger: EpochLedger::new(),
        }
    }

    /// The reserves as (in, out) for a trade in the given direction.
    pub fn reserves_in_out(&self, is_first_token_in: bool) -> (res: (u128, u128))
        ensures
            (res.0 as nat, res.1 as nat) == reserves_in_out(self@, is_first_token_in),
    {
        if is_first_token_in {
            (self.first_token_reserve, self.second_token_reserve)
        } else {
            (self.second_token_reserve, self.first_token_reserve)
        }
    }

    /// Sets the reserves of the (in, out) direction.
    pub fn set_reserves_in_out(&mut self, is_first_token_in: bool, in_reserve: u128, out_reserve: u128)
        ensures
            final(self)@ == with_reserves_in_out(
                old(self)@,
                is_first_token_in,
                in_reserve as nat,
                out_reserve as nat,
            ),
    {
        if is_first_token_in {
            self.first_token_reserve = in_reserve;
            self.second_token_reserve = out_reserve;
        } else {
            self.first_token_reserve = out_reserve;
            self.second_token_reserve = in_reserve;
        }
    }
}

} // verus!

verus! {

impl Pair {
    /// The amounts that trades and liquidity changes move: both reserves and
    /// the LP supply.
    pub fn saved_amounts(&self) -> (res: (u128, u128, u128))
        ensures
            res.0 as nat == self@.first_reserve,
            res.1 as nat == self@.second_reserve,
            res.2 as nat == self@.lp_supply,
    {
        (self.first_token_reserve, self.second_token_reserve, self.lp_token_supply)
    }

    /// Puts back amounts taken by `saved_amounts`.
    pub fn restore_amounts(&mut self, saved: (u128, u128, u128))
        ensures
            final(self)@ == (PairModel {
                first_reserve: saved.0 as nat,
                second_reserve: saved.1 as nat,
                lp_supply: saved.2 as nat,
                ..old(self)@
            }),
    {
        self.first_token_reserve = saved.0;
        self.second_token_reserve = saved.1;
        self.lp_token_supply = saved.2;
    }
}

} // verus!
