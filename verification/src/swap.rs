//! Swaps at constant product, less the fees.
use crate::fees::{fee_amount, fee_of, send_platform_fee_spec, FeesModule};
use crate::math::{mul_div, mul_div_spec};
use crate::state::{reserves_in_out, with_reserves_in_out, Pair, PairModel};
use crate::types::{actions_view, Action, ActionView, EsdtTokenPayment, PairError, TokenId};
use vstd::prelude::*;

verus! {

/// What a swap of a given input gives: the gross amount out, the two fees
/// taken from it, and what is left for the trader.
#[derive(PartialEq, Eq, Structural, Clone, Copy, Debug)]
pub struct EstimeAmountOut {
    pub net_amount_out: u128,
    pub amount_out: u128,
    pub liq_providers_fee: u128,
    pub platform_fee: u128,
}

/// The estimate of a swap of `amount_in` against reserves `in_reserve` and
/// `out_reserve`, at constant product: the amount out is
/// `amount_in * out_reserve / (in_reserve + amount_in)`, rounded down, the
/// most that keeps `in_reserve * out_reserve` from falling; it must stay below
/// the out reserve. Both fees are taken from it.
pub open spec fn estimate_amount_out_at(
    in_reserve: nat,
    out_reserve: nat,
    lp_fees_bps: nat,
    platform_fees_bps: nat,
    amount_in: nat,
) -> Result<EstimeAmountOut, PairError> {
    let in_reserve_after = in_reserve + amount_in;
    if in_reserve_after == 0 {
        Err(PairError::DivisionByZero)
    } else if in_reserve_after > u128::MAX {
        Err(PairError::AmountOverflow)
    } else {
        let amount_out = mul_div_spec(amount_in, out_reserve, in_reserve_after);
        if amount_out >= out_reserve {
            Err(PairError::NotEnoughLiquidity)
        } else {
            let lp_fee = fee_of(amount_out, lp_fees_bps);
            let platform_fee = fee_of(amount_out, platform_fees_bps);
            if lp_fee + platform_fee > amount_out {
                Err(PairError::NegativeSubtraction)
            } else {
                Ok(
                    EstimeAmountOut {
                        net_amount_out: (amount_out - lp_fee - platform_fee) as u128,
                        amount_out: amount_out as u128,
                        liq_providers_fee: lp_fee as u128,
                        platform_fee: platform_fee as u128,
                    },
                )
            }
        }
    }
}

/// The estimate of a swap of `amount_in` against the pool's reserves and fees.
pub open spec fn estimate_amount_out_spec(m: PairModel, amount_in: nat, is_first_token_in: bool) -> Result<
    EstimeAmountOut,
    PairError,
> {
    let (in_reserve, out_reserve) = reserves_in_out(m, is_first_token_in);
    estimate_amount_out_at(in_reserve, out_reserve, m.lp_fees_bps, m.platform_fees_bps, amount_in)
}

/// The estimate of a swap of `amount_in` against given reserves and fees.
pub fn estimate_out_at(
    in_reserve: u128,
    out_reserve: u128,
    lp_fees_bps: u32,
    platform_fees_bps: u32,
    amount_in: u128,
) -> (res: Result<EstimeAmountOut, PairError>)
    ensures
        res == estimate_amount_out_at(
            in_reserve as nat,
            out_reserve as nat,
            lp_fees_bps as nat,
            platform_fees_bps as nat,
            amount_in as nat,
        ),
{
    if in_reserve == 0 && amount_in == 0 {
        return Err(PairError::DivisionByZero);
    }
    if in_reserve > u128::MAX - amount_in {
        return Err(PairError::AmountOverflow);
    }
    let in_reserve_after = in_reserve + amount_in;
    let amount_out = match mul_div(amount_in, out_reserve, in_reserve_after) {
        Some(x) => x,
        None => return Err(PairError::NotEnoughLiquidity),
    };
    if amount_out >= out_reserve {
        return Err(PairError::NotEnoughLiquidity);
    }
    // a fee beyond 128 bits exceeds the amount out it is taken from
    let liq_providers_fee = match fee_amount(amount_out, lp_fees_bps) {
        Ok(f) => f,
        Err(_) => return Err(PairError::NegativeSubtraction),
    };
    let platform_fee = match fee_amount(amount_out, platform_fees_bps) {
        Ok(f) => f,
        Err(_) => return Err(PairError::NegativeSubtraction),
    };
    if liq_providers_fee > amount_out || platform_fee > amount_out - liq_providers_fee {
        return Err(PairError::NegativeSubtraction);
    }
    Ok(
        EstimeAmountOut {
            net_amount_out: amount_out - liq_providers_fee - platform_fee,
            amount_out,
            liq_providers_fee,
            platform_fee,
        },
    )
}

/// A swap of `amount_in`: the in reserve grows by `amount_in`, the out reserve
/// gives up the amount out less the liquidity providers' fee, the platform fee
/// goes to its receiver, and the trader is owed the net amount out.
pub open spec fn swap_fixed_input_spec(
    m: PairModel,
    amount_in: nat,
    token_out: Seq<u8>,
    is_first_token_in: bool,
) -> Result<(PairModel, Seq<ActionView>, nat), PairError> {
    match estimate_amount_out_spec(m, amount_in, is_first_token_in) {
        Err(e) => Err(e),
        Ok(est) => {
            let (in_reserve, out_reserve) = reserves_in_out(m, is_first_token_in);
            let leaving = est.amount_out - est.liq_providers_fee;
            let m2 = with_reserves_in_out(
                m,
                is_first_token_in,
                in_reserve + amount_in,
                (out_reserve - leaving) as nat,
            );
            match send_platform_fee_spec(m2, token_out, est.platform_fee as nat) {
                Err(e) => Err(e),
                Ok(acts) => Ok((m2, acts, est.net_amount_out as nat)),
            }
        },
    }
}

pub trait SwapModule {
    fn swap_tokens_fixed_input_inner(
        &mut self,
        amount_in: u128,
        token_out: &TokenId,
        is_first_token_in: bool,
        actions: &mut Vec<Action>,
    ) -> Result<EsdtTokenPayment, PairError>;

    fn estimate_amount_out_inner(&self, amount_in: u128, is_first_token_in: bool) -> Result<
        EstimeAmountOut,
        PairError,
    >;
}

impl SwapModule for Pair {
    fn swap_tokens_fixed_input_inner(
        &mut self,
        amount_in: u128,
        token_out: &TokenId,
        is_first_token_in: bool,
        actions: &mut Vec<Action>,
    ) -> (res: Result<EsdtTokenPayment, PairError>)
        ensures
            match swap_fixed_input_spec(old(self)@, amount_in as nat, token_out@, is_first_token_in) {
                Ok((m2, acts, net)) => res is Ok && final(self)@ == m2 && actions_view(
                    final(actions)@,
                ) == actions_view(old(actions)@) + acts && res->Ok_0.token_identifier@
                    == token_out@ && res->Ok_0.token_nonce == 0 && res->Ok_0.amount == net,
                Err(e) => res is Err && res->Err_0 == e && final(self)@ == old(self)@
                    && final(actions)@ == old(actions)@,
            },
    {
        let est = match self.estimate_amount_out_inner(amount_in, is_first_token_in) {
            Ok(est) => est,
            Err(e) => return Err(e),
        };
        let (in_reserve, out_reserve) = self.reserves_in_out(is_first_token_in);
        let leaving = est.amount_out - est.liq_providers_fee;
        let ghost m2 = with_reserves_in_out(
            self@,
            is_first_token_in,
            (in_reserve + amount_in) as nat,
            (out_reserve - leaving) as nat,
        );
        assert(m2.platform_fees_receiver == self@.platform_fees_receiver);
        match self.send_platform_fee(token_out, est.platform_fee, actions) {
            Ok(()) => {},
            Err(e) => return Err(e),
        }
        self.set_reserves_in_out(is_first_token_in, in_reserve + amount_in, out_reserve - leaving);
        Ok(
            EsdtTokenPayment {
                token_identifier: token_out.copy(),
                token_nonce: 0,
                amount: est.net_amount_out,
            },
        )
    }

    fn estimate_amount_out_inner(&self, amount_in: u128, is_first_token_in: bool) -> (res: Result<
        EstimeAmountOut,
        PairError,
    >)
        ensures
            res == estimate_amount_out_spec(self@, amount_in as nat, is_first_token_in),
    {
        let (in_reserve, out_reserve) = self.reserves_in_out(is_first_token_in);
        estimate_out_at(in_reserve, out_reserve, self.liq_providers_fees, self.platform_fees, amount_in)
    }
}

} // verus!
