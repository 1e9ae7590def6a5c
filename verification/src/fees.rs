//! Swap fees: the liquidity providers' share and the platform's share, both
//! in hundredths of a percent of the amount out.
use crate::math::mul_div;
use crate::state::{Pair, PairModel, FEE_DENOMINATOR};
use crate::types::{actions_view, Action, ActionView, PairError, TokenId};
use vstd::prelude::*;

verus! {

/// `amount * bps / 10000`, rounded down.
pub open spec fn fee_of(amount: nat, bps: nat) -> nat {
    amount * bps / (FEE_DENOMINATOR as nat)
}

/// A fee as a 128-bit amount, refused when it does not fit.
pub open spec fn fee_result(amount: nat, bps: nat) -> Result<u128, PairError> {
    if fee_of(amount, bps) > u128::MAX {
        Err(PairError::AmountOverflow)
    } else {
        Ok(fee_of(amount, bps) as u128)
    }
}

/// The transfer of the platform fee to its receiver, when the fee is not zero.
pub open spec fn send_platform_fee_spec(m: PairModel, token: Seq<u8>, fee: nat) -> Result<
    Seq<ActionView>,
    PairError,
> {
    if fee > 0 {
        match m.platform_fees_receiver {
            None => Err(PairError::StorageDecodeError),
            Some(to) => Ok(seq![ActionView::SendEsdt { to, token, nonce: 0, amount: fee }]),
        }
    } else {
        Ok(Seq::empty())
    }
}

pub fn fee_amount(amount: u128, bps: u32) -> (res: Result<u128, PairError>)
    ensures
        res == fee_result(amount as nat, bps as nat),
{
    match mul_div(amount, bps as u128, FEE_DENOMINATOR) {
        Some(f) => Ok(f),
        None => Err(PairError::AmountOverflow),
    }
}

pub trait FeesModule {
    fn calculate_liq_providers_fee(&self, amount: u128) -> Result<u128, PairError>;

    fn calculate_platform_fee(&self, amount: u128) -> Result<u128, PairError>;

    fn send_platform_fee(&self, token: &TokenId, fee: u128, actions: &mut Vec<Action>) -> Result<
        (),
        PairError,
    >;

    fn liq_providers_fees(&self) -> u32;

    fn platform_fees(&self) -> u32;

    fn platform_fees_receiver(&self) -> Result<crate::types::Address, PairError>;
}

impl FeesModule for Pair {
    fn calculate_liq_providers_fee(&self, amount: u128) -> (res: Result<u128, PairError>)
        ensures
            res == fee_result(amount as nat, self@.lp_fees_bps),
    {
        fee_amount(amount, self.liq_providers_fees)
    }

    fn calculate_platform_fee(&self, amount: u128) -> (res: Result<u128, PairError>)
        ensures
            res == fee_result(amount as nat, self@.platform_fees_bps),
    {
        fee_amount(amount, self.platform_fees)
    }

    fn send_platform_fee(&self, token: &TokenId, fee: u128, actions: &mut Vec<Action>) -> (res:
        Result<(), PairError>)
        ensures
            match send_platform_fee_spec(self@, token@, fee as nat) {
                Ok(acts) => res == Ok::<(), PairError>(()) && actions_view(final(actions)@)
                    == actions_view(old(actions)@) + acts,
                Err(e) => res == Err::<(), PairError>(e) && final(actions)@ == old(actions)@,
            },
    {
        if fee > 0 {
            match &self.platform_fees_receiver {
                None => Err(PairError::StorageDecodeError),
                Some(to) => {
                    let ghost before = actions@;
                    actions.push(
                        Action::SendEsdt { to: to.copy(), token: token.copy(), nonce: 0, amount: fee },
                    );
                    assert(actions_view(actions@) =~= actions_view(before) + send_platform_fee_spec(
                        self@,
                        token@,
                        fee as nat,
                    ).unwrap());
                    Ok(())
                },
            }
        } else {
            assert(actions_view(actions@) =~= actions_view(actions@) + Seq::<ActionView>::empty());
            Ok(())
        }
    }

    fn liq_providers_fees(&self) -> (res: u32)
        ensures
            res as nat == self@.lp_fees_bps,
    {
        self.liq_providers_fees
    }

    fn platform_fees(&self) -> (res: u32)
        ensures
            res as nat == self@.platform_fees_bps,
    {
        self.platform_fees
    }

    /// Refused when no receiver was ever configured: the empty slot does not
    /// decode as an address.
    fn platform_fees_receiver(&self) -> (res: Result<crate::types::Address, PairError>)
        ensures
            match self@.platform_fees_receiver {
                Some(a) => res is Ok && res->Ok_0@ == a,
                None => res == Err::<crate::types::Address, PairError>(PairError::StorageDecodeError),
            },
    {
        match &self.platform_fees_receiver {
            Some(a) => Ok(a.copy()),
            None => Err(PairError::StorageDecodeError),
        }
    }
}

} // verus!
