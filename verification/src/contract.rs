//! The pool's endpoints. Each takes the pool's state and what the request
//! carried (payments, caller, epoch), and either gives the next state and the
//! actions the chain must carry out, or refuses the request and leaves the
//! state as it was.
use crate::analytics::{analytics_for_epoch_spec, AnalyticsForEpoch, AnalyticsModule};
use crate::ledger::amount_at;
use crate::liquidity::{
    lp_add_initial_liquidity_spec, lp_add_liquidity_single_side_spec, lp_add_liquidity_spec,
    lp_estimate_add_liquidity_single_spec, lp_estimate_remove_liquidity_spec,
    lp_remove_liquidity_spec, EstimateAddLiquidityOut, EstimateRemoveLiquidityOut, LiquidityModule,
};
use crate::math::lemma_share_at_most_whole;
use crate::pausable::PausableModule;
use crate::state::{Pair, PairModel};
use crate::swap::{
    estimate_amount_out_at, estimate_amount_out_spec, estimate_out_at, swap_fixed_input_spec,
    EstimeAmountOut, SwapModule,
};
use crate::types::{
    actions_view, Action, ActionView, Address, EgldOrEsdt, EsdtTokenPayment, PairError, TokenId,
    TokenProperties,
};
use vstd::prelude::*;

verus! {

/// The initial supply asked for when the LP token is issued.
pub const LP_TOKEN_INITIAL_SUPPLY: u128 = 1000u128;

/// The number of decimals of the LP token.
pub const LP_TOKEN_DECIMALS: u32 = 18u32;

/// The properties the LP token is issued with: every one of them granted.
pub open spec fn lp_token_properties_spec() -> TokenProperties {
    TokenProperties {
        can_freeze: true,
        can_wipe: true,
        can_pause: true,
        can_mint: true,
        can_burn: true,
        can_change_owner: true,
        can_upgrade: true,
        can_add_special_roles: true,
    }
}

/// The properties the LP token is issued with.
pub fn lp_token_properties() -> (res: TokenProperties)
    ensures
        res == lp_token_properties_spec(),
{
    TokenProperties {
        can_freeze: true,
        can_wipe: true,
        can_pause: true,
        can_mint: true,
        can_burn: true,
        can_change_owner: true,
        can_upgrade: true,
        can_add_special_roles: true,
    }
}

/// A summary of the pool, as the `getStatus` view gives it.
pub struct PairStatus {
    pub paused: bool,
    pub first_token_identifier: TokenId,
    pub first_token_reserve: u128,
    pub second_token_identifier: TokenId,
    pub second_token_reserve: u128,
    pub lp_token_identifier: TokenId,
    pub lp_token_supply: u128,
    pub owner: Address,
    pub lp_fees: u32,
    pub platform_fees: u32,
    pub platform_fees_receiver: Option<Address>,
    /// Volume of the first and of the second token in the previous epoch.
    pub volume_prev_epoch: [u128; 2],
    /// Liquidity providers' fees of each token in the previous epoch.
    pub fees_prev_epoch: [u128; 2],
    /// Liquidity providers' fees of each token over the 7 epochs up to the previous one.
    pub fees_last_7_epochs: [u128; 2],
}

/// `res` is what `expected` describes: on success the state becomes the
/// expected one and the actions are the expected ones; on refusal the error
/// is the expected one and the state is unchanged.
pub open spec fn step_matches(
    res: Result<Vec<Action>, PairError>,
    before: PairModel,
    after: PairModel,
    expected: Result<(PairModel, Seq<ActionView>), PairError>,
) -> bool {
    match expected {
        Ok((m, acts)) => res is Ok && after == m && actions_view(res->Ok_0@) == acts,
        Err(e) => res is Err && res->Err_0 == e && after == before,
    }
}

/// A transfer of an ESDT token, as plain values.
pub open spec fn send_esdt(to: Seq<u8>, token: Seq<u8>, nonce: u64, amount: nat) -> ActionView {
    ActionView::SendEsdt { to, token, nonce, amount }
}

pub open spec fn init_spec(m: PairModel, first_token: Seq<u8>, second_token: Seq<u8>) -> PairModel {
    PairModel {
        first_token: if m.first_token.len() == 0 {
            first_token
        } else {
            m.first_token
        },
        second_token: if m.second_token.len() == 0 {
            second_token
        } else {
            m.second_token
        },
        paused: true,
        ..m
    }
}

pub open spec fn issue_lp_token_spec(
    m: PairModel,
    display_name: Seq<u8>,
    ticker: Seq<u8>,
    egld_value: nat,
    caller: Seq<u8>,
) -> Result<(PairModel, Seq<ActionView>), PairError> {
    if m.lp_token.len() != 0 {
        Err(PairError::LpTokenAlreadyIssued)
    } else {
        Ok(
            (
                m,
                seq![
                    ActionView::IssueLpToken {
                        egld_value,
                        display_name,
                        ticker,
                        initial_supply: LP_TOKEN_INITIAL_SUPPLY as nat,
                        num_decimals: LP_TOKEN_DECIMALS as nat,
                        properties: lp_token_properties_spec(),
                        caller,
                    },
                ],
            ),
        )
    }
}

pub open spec fn enable_mint_burn_spec(m: PairModel, lp_token_is_valid: bool, sc_address: Seq<u8>) -> Result<
    (PairModel, Seq<ActionView>),
    PairError,
> {
    if !lp_token_is_valid {
        Err(PairError::LpTokenNotIssued)
    } else {
        Ok((m, seq![ActionView::SetMintBurnRoles { address: sc_address, token: m.lp_token }]))
    }
}

pub open spec fn add_initial_liquidity_spec(
    m: PairModel,
    first_token: Seq<u8>,
    first_amount: nat,
    second_token: Seq<u8>,
    second_amount: nat,
    caller: Seq<u8>,
) -> Result<(PairModel, Seq<ActionView>), PairError> {
    if m.lp_token.len() == 0 {
        Err(PairError::LpTokenNotIssued)
    } else if !(first_token == m.first_token && first_amount > 0) {
        Err(PairError::InvalidPaymentFirstToken)
    } else if !(second_token == m.second_token && second_amount > 0) {
        Err(PairError::InvalidPaymentSecondToken)
    } else {
        match lp_add_initial_liquidity_spec(m, first_amount, second_amount) {
            Err(e) => Err(e),
            Ok((m2, acts, lp)) => Ok((m2, acts.push(send_esdt(caller, m.lp_token, 0, lp)))),
        }
    }
}

pub open spec fn add_liquidity_spec(
    m: PairModel,
    first_token: Seq<u8>,
    first_amount: nat,
    second_token: Seq<u8>,
    second_nonce: u64,
    second_amount: nat,
    min_second_token_amount: nat,
    caller: Seq<u8>,
) -> Result<(PairModel, Seq<ActionView>), PairError> {
    if !(first_token == m.first_token && first_amount > 0) {
        Err(PairError::InvalidPaymentFirstToken)
    } else if !(second_token == m.second_token && second_amount > 0) {
        Err(PairError::InvalidPaymentSecondToken)
    } else {
        match lp_add_liquidity_spec(m, first_amount, min_second_token_amount, second_amount) {
            Err(e) => Err(e),
            Ok((m2, acts, (lp, overpaid))) => {
                let acts2 = acts.push(send_esdt(caller, m.lp_token, 0, lp));
                Ok(
                    (
                        m2,
                        if overpaid > 0 {
                            acts2.push(send_esdt(caller, second_token, second_nonce, overpaid))
                        } else {
                            acts2
                        },
                    ),
                )
            },
        }
    }
}

pub open spec fn add_liquidity_single_spec(
    m: PairModel,
    token: Seq<u8>,
    amount: nat,
    min_first_token_amount: nat,
    min_second_token_amount: nat,
    caller: Seq<u8>,
) -> Result<(PairModel, Seq<ActionView>), PairError> {
    if m.paused {
        Err(PairError::Paused)
    } else if !(token == m.first_token || token == m.second_token) {
        Err(PairError::InvalidPaymentToken)
    } else {
        let is_first_token_in = token == m.first_token;
        let min_other = if is_first_token_in {
            min_second_token_amount
        } else {
            min_first_token_amount
        };
        match lp_add_liquidity_single_side_spec(m, amount, min_other, is_first_token_in) {
            Err(e) => Err(e),
            Ok((m2, acts, lp)) => Ok((m2, acts.push(send_esdt(caller, m.lp_token, 0, lp)))),
        }
    }
}

pub open spec fn remove_liquidity_spec(
    m: PairModel,
    lp_token: Seq<u8>,
    lp_amount: nat,
    min_first_token_amount: nat,
    min_second_token_amount: nat,
    caller: Seq<u8>,
) -> Result<(PairModel, Seq<ActionView>), PairError> {
    match lp_remove_liquidity_spec(m, lp_token, lp_amount) {
        Err(e) => Err(e),
        Ok((m2, acts, (first_out, second_out))) => {
            if first_out < min_first_token_amount {
                Err(PairError::MaxSlippageExceededFirstToken)
            } else if second_out < min_second_token_amount {
                Err(PairError::MaxSlippageExceededSecondToken)
            } else {
                Ok(
                    (
                        m2,
                        acts.push(send_esdt(caller, m.first_token, 0, first_out)).push(
                            send_esdt(caller, m.second_token, 0, second_out),
                        ),
                    ),
                )
            }
        },
    }
}

pub open spec fn remove_liquidity_single_spec(
    m: PairModel,
    token_out: Seq<u8>,
    lp_token: Seq<u8>,
    lp_amount: nat,
    min_first_token_amount: nat,
    min_second_token_amount: nat,
    caller: Seq<u8>,
) -> Result<(PairModel, Seq<ActionView>), PairError> {
    if m.paused {
        Err(PairError::Paused)
    } else {
        match lp_remove_liquidity_spec(m, lp_token, lp_amount) {
            Err(e) => Err(e),
            Ok((m1, acts1, (first_removed, second_removed))) => if !(token_out == m.first_token
                || token_out == m.second_token) {
                Err(PairError::InvalidOutToken)
            } else {
                let is_first_token_out = token_out == m.first_token;
                let is_first_token_in = !is_first_token_out;
                let swap_amount_in = if is_first_token_in {
                    first_removed
                } else {
                    second_removed
                };
                match swap_fixed_input_spec(m1, swap_amount_in, token_out, is_first_token_in) {
                    Err(e) => Err(e),
                    Ok((m2, acts2, net)) => {
                        if is_first_token_out {
                            let amount_out = first_removed + net;
                            if amount_out > u128::MAX {
                                Err(PairError::AmountOverflow)
                            } else if amount_out < min_first_token_amount {
                                Err(PairError::MaxSlippageExceededFirstToken)
                            } else {
                                Ok(
                                    (
                                        m2,
                                        (acts1 + acts2).push(
                                            send_esdt(caller, m.first_token, 0, amount_out),
                                        ),
                                    ),
                                )
                            }
                        } else {
                            let amount_out = second_removed + net;
                            if amount_out > u128::MAX {
                                Err(PairError::AmountOverflow)
                            } else if amount_out < min_second_token_amount {
                                Err(PairError::MaxSlippageExceededSecondToken)
                            } else {
                                Ok(
                                    (
                                        m2,
                                        (acts1 + acts2).push(
                                            send_esdt(caller, m.second_token, 0, amount_out),
                                        ),
                                    ),
                                )
                            }
                        }
                    },
                }
            },
        }
    }
}

pub open spec fn swap_tokens_fixed_input_spec(
    m: PairModel,
    token_in: Seq<u8>,
    amount_in: nat,
    min_amount_out: nat,
    caller: Seq<u8>,
) -> Result<(PairModel, Seq<ActionView>), PairError> {
    if m.paused {
        Err(PairError::Paused)
    } else if !(token_in == m.first_token || token_in == m.second_token) {
        Err(PairError::InvalidPaymentToken)
    } else {
        let is_first_token_in = token_in == m.first_token;
        let token_out = if is_first_token_in {
            m.second_token
        } else {
            m.first_token
        };
        match swap_fixed_input_spec(m, amount_in, token_out, is_first_token_in) {
            Err(e) => Err(e),
            Ok((m2, acts, net)) => {
                if net < min_amount_out {
                    Err(PairError::MaxSlippageExceeded)
                } else {
                    Ok((m2, acts.push(send_esdt(caller, token_out, 0, net))))
                }
            },
        }
    }
}

pub open spec fn estimate_amount_out_view_spec(m: PairModel, token_in: Seq<u8>, amount_in: nat) -> Result<
    EstimeAmountOut,
    PairError,
> {
    if m.paused {
        Err(PairError::Paused)
    } else if !(token_in == m.first_token || token_in == m.second_token) {
        Err(PairError::InvalidPaymentToken)
    } else {
        estimate_amount_out_spec(m, amount_in, token_in == m.first_token)
    }
}

pub open spec fn estimate_add_liquidity_single_view_spec(
    m: PairModel,
    token_in: Seq<u8>,
    amount_in: nat,
) -> Result<EstimateAddLiquidityOut, PairError> {
    if !(token_in == m.first_token || token_in == m.second_token) {
        Err(PairError::InvalidPaymentToken)
    } else {
        lp_estimate_add_liquidity_single_spec(m, amount_in, token_in == m.first_token)
    }
}

/// Removal of `lp_amount` (at most half the supply) as if all of it were
/// taken in `token_out`: the pro-rata shares are taken out of the reserves,
/// and the share of the other token is priced as a swap against what remains.
/// Nothing is stored: the estimate leaves the pool as it was.
pub open spec fn estimate_remove_liquidity_single_spec(
    m: PairModel,
    lp_amount: nat,
    token_out: Seq<u8>,
) -> Result<EstimateRemoveLiquidityOut, PairError> {
    if lp_amount * 2 > m.lp_supply {
        Err(PairError::CannotRemoveThatMuchLiquidity)
    } else {
        match lp_estimate_remove_liquidity_spec(m, lp_amount) {
            Err(e) => Err(e),
            Ok(est) => {
                let is_first_token_out = token_out == m.first_token;
                let is_second_token_out = token_out == m.second_token;
                if !(is_first_token_out || is_second_token_out) {
                    Err(PairError::InvalidOutToken)
                } else {
                    let first_left = (m.first_reserve - est.eq_first_tokens) as nat;
                    let second_left = (m.second_reserve - est.eq_second_tokens) as nat;
                    let half = if is_first_token_out {
                        estimate_amount_out_at(
                            second_left,
                            first_left,
                            m.lp_fees_bps,
                            m.platform_fees_bps,
                            est.eq_second_tokens as nat,
                        )
                    } else {
                        estimate_amount_out_at(
                            first_left,
                            second_left,
                            m.lp_fees_bps,
                            m.platform_fees_bps,
                            est.eq_first_tokens as nat,
                        )
                    };
                    match half {
                        Err(e) => Err(e),
                        Ok(h) => {
                            let first = if is_first_token_out {
                                est.eq_first_tokens + h.net_amount_out
                            } else {
                                0
                            };
                            let second = if is_second_token_out {
                                est.eq_second_tokens + h.net_amount_out
                            } else {
                                0
                            };
                            if first > u128::MAX || second > u128::MAX {
                                Err(PairError::AmountOverflow)
                            } else {
                                Ok(
                                    EstimateRemoveLiquidityOut {
                                        eq_first_tokens: first as u128,
                                        eq_second_tokens: second as u128,
                                    },
                                )
                            }
                        },
                    }
                }
            },
        }
    }
}

/// The answer of the system contract to the LP token issue: on success the
/// issued token becomes the LP token and the issued supply goes to the
/// caller; on failure EGLD that came back goes back to the caller.
pub open spec fn lp_token_issue_callback_spec(
    m: PairModel,
    caller: Seq<u8>,
    issue_succeeded: bool,
    returned_token: Option<Seq<u8>>,
    returned_tokens: nat,
) -> Result<(PairModel, Seq<ActionView>), PairError> {
    if issue_succeeded {
        match returned_token {
            None => Err(PairError::EsdtExpected),
            Some(t) => Ok((PairModel { lp_token: t, ..m }, seq![send_esdt(caller, t, 0, returned_tokens)])),
        }
    } else if returned_token is None && returned_tokens > 0 {
        Ok((m, seq![ActionView::SendEgld { to: caller, amount: returned_tokens }]))
    } else {
        Ok((m, Seq::empty()))
    }
}

/// Liquidity providers' fees of `token` over the `n` epochs ending at `last_epoch`.
pub open spec fn fees_over_epochs(m: PairModel, token: Seq<u8>, last_epoch: u64, n: nat) -> nat
    decreases n,
{
    if n == 0 {
        0
    } else {
        amount_at(m.lp_fees, (last_epoch - (n - 1)) as u64, token) + fees_over_epochs(
            m,
            token,
            last_epoch,
            (n - 1) as nat,
        )
    }
}

pub open spec fn egld_or_esdt_view(t: EgldOrEsdt) -> Option<Seq<u8>> {
    match t {
        EgldOrEsdt::Egld => None,
        EgldOrEsdt::Esdt(id) => Some(id@),
    }
}

} // verus!

verus! {

/// The pool's endpoints.
///
/// Two endpoints of the pool's interface are not here: `swapTokensFixedOutput`
/// and `estimateAmountIn`. Their pricing (what input a fixed output costs, and
/// how the reserves and fees move for it) is defined nowhere, so there is no
/// behaviour to carry out or to verify.
pub trait JexScPairContract {
    fn init(&mut self, first_token: TokenId, second_token: TokenId);

    fn issue_lp_token(
        &self,
        lp_token_display_name: Vec<u8>,
        lp_token_ticker: Vec<u8>,
        egld_value: u128,
        caller: &Address,
    ) -> Result<Vec<Action>, PairError>;

    fn enable_mint_burn(&self, lp_token_is_valid: bool, sc_address: &Address) -> Result<
        Vec<Action>,
        PairError,
    >;

    fn add_initial_liquidity(
        &mut self,
        first_payment: &EsdtTokenPayment,
        second_payment: &EsdtTokenPayment,
        caller: &Address,
    ) -> Result<Vec<Action>, PairError>;

    fn configure_liq_providers_fees(&mut self, fees: u32);

    fn configure_platform_fees(&mut self, fees: u32, receiver: Address);

    fn pause(&mut self);

    fn unpause(&mut self);

    fn add_liquidity(
        &mut self,
        first_payment: &EsdtTokenPayment,
        second_payment: &EsdtTokenPayment,
        min_second_token_amount: u128,
        caller: &Address,
    ) -> Result<Vec<Action>, PairError>;

    fn add_liquidity_single(
        &mut self,
        token_identifier: &TokenId,
        payment_amount: u128,
        min_first_token_amount: u128,
        min_second_token_amount: u128,
        caller: &Address,
    ) -> Result<Vec<Action>, PairError>;

    fn remove_liquidity(
        &mut self,
        lp_token: &TokenId,
        lp_amount: u128,
        min_first_token_amount: u128,
        min_second_token_amount: u128,
        caller: &Address,
    ) -> Result<Vec<Action>, PairError>;

    fn remove_liquidity_single(
        &mut self,
        token_out: &TokenId,
        lp_token: &TokenId,
        lp_amount: u128,
        min_first_token_amount: u128,
        min_second_token_amount: u128,
        caller: &Address,
    ) -> Result<Vec<Action>, PairError>;

    fn swap_tokens_fixed_input(
        &mut self,
        token_in: &TokenId,
        amount_in: u128,
        min_amount_out: u128,
        caller: &Address,
    ) -> Result<Vec<Action>, PairError>;

    fn estimate_amount_out(&self, token_in: &TokenId, amount_in: u128) -> Result<
        EstimeAmountOut,
        PairError,
    >;

    fn estimate_add_liquidity_single(&self, token_in: &TokenId, amount_in: u128) -> Result<
        EstimateAddLiquidityOut,
        PairError,
    >;

    fn estimate_remove_liquidity(&self, lp_amount: u128) -> Result<
        EstimateRemoveLiquidityOut,
        PairError,
    >;

    fn estimate_remove_liquidity_single(&self, lp_amount: u128, token_out: &TokenId) -> Result<
        EstimateRemoveLiquidityOut,
        PairError,
    >;

    fn first_token(&self) -> TokenId;

    fn second_token(&self) -> TokenId;

    fn get_status(&self, owner: &Address, current_epoch: u64) -> Result<PairStatus, PairError>
        requires
            current_epoch >= 7,
    ;

    fn get_analytics_for_last_epochs(&self, countback: u64, current_epoch: u64) -> Vec<
        AnalyticsForEpoch,
    >
        requires
            countback <= current_epoch,
    ;

    fn lp_token_issue_callback(
        &mut self,
        caller: &Address,
        issue_succeeded: bool,
        returned_token: &EgldOrEsdt,
        returned_tokens: u128,
    ) -> Result<Vec<Action>, PairError>;
}

impl JexScPairContract for Pair {
    fn init(&mut self, first_token: TokenId, second_token: TokenId)
        ensures
            final(self)@ == init_spec(old(self)@, first_token@, second_token@),
    {
        if self.first_token.is_empty() {
            self.first_token = first_token;
        }
        if self.second_token.is_empty() {
            self.second_token = second_token;
        }
        self.do_pause();
    }

    fn issue_lp_token(
        &self,
        lp_token_display_name: Vec<u8>,
        lp_token_ticker: Vec<u8>,
        egld_value: u128,
        caller: &Address,
    ) -> (res: Result<Vec<Action>, PairError>)
        ensures
            step_matches(
                res,
                self@,
                self@,
                issue_lp_token_spec(
                    self@,
                    lp_token_display_name@,
                    lp_token_ticker@,
                    egld_value as nat,
                    caller@,
                ),
            ),
    {
        if !self.lp_token.is_empty() {
            return Err(PairError::LpTokenAlreadyIssued);
        }
        let mut actions: Vec<Action> = Vec::new();
        actions.push(
            Action::IssueLpToken {
                egld_value,
                display_name: lp_token_display_name,
                ticker: lp_token_ticker,
                initial_supply: LP_TOKEN_INITIAL_SUPPLY,
                num_decimals: LP_TOKEN_DECIMALS,
                properties: lp_token_properties(),
                caller: caller.copy(),
            },
        );
        assert(actions_view(actions@) =~= issue_lp_token_spec(
            self@,
            lp_token_display_name@,
            lp_token_ticker@,
            egld_value as nat,
            caller@,
        ).unwrap().1);
        Ok(actions)
    }

    fn enable_mint_burn(&self, lp_token_is_valid: bool, sc_address: &Address) -> (res: Result<
        Vec<Action>,
        PairError,
    >)
        ensures
            step_matches(res, self@, self@, enable_mint_burn_spec(self@, lp_token_is_valid, sc_address@)),
    {
        if !lp_token_is_valid {
            return Err(PairError::LpTokenNotIssued);
        }
        let mut actions: Vec<Action> = Vec::new();
        actions.push(Action::SetMintBurnRoles { address: sc_address.copy(), token: self.lp_token.copy() });
        assert(actions_view(actions@) =~= enable_mint_burn_spec(self@, lp_token_is_valid, sc_address@).unwrap().1);
        Ok(actions)
    }

    fn add_initial_liquidity(
        &mut self,
        first_payment: &EsdtTokenPayment,
        second_payment: &EsdtTokenPayment,
        caller: &Address,
    ) -> (res: Result<Vec<Action>, PairError>)
        ensures
            step_matches(
                res,
                old(self)@,
                final(self)@,
                add_initial_liquidity_spec(
                    old(self)@,
                    first_payment.token_identifier@,
                    first_payment.amount as nat,
                    second_payment.token_identifier@,
                    second_payment.amount as nat,
                    caller@,
                ),
            ),
    {
        if self.lp_token.is_empty() {
            return Err(PairError::LpTokenNotIssued);
        }
        if !(first_payment.token_identifier.same_as(&self.first_token) && first_payment.amount > 0) {
            return Err(PairError::InvalidPaymentFirstToken);
        }
        if !(second_payment.token_identifier.same_as(&self.second_token) && second_payment.amount > 0) {
            return Err(PairError::InvalidPaymentSecondToken);
        }
        let mut actions: Vec<Action> = Vec::new();
        let (lp_amount, lp_token) = match self.lp_add_initial_liquidity(
            first_payment.amount,
            second_payment.amount,
            &mut actions,
        ) {
            Ok(x) => x,
            Err(e) => return Err(e),
        };
        let ghost before = actions@;
        actions.push(Action::SendEsdt { to: caller.copy(), token: lp_token, nonce: 0, amount: lp_amount });
        assert(actions_view(actions@) =~= actions_view(before).push(
            send_esdt(caller@, old(self)@.lp_token, 0, lp_amount as nat),
        ));
        Ok(actions)
    }

    fn configure_liq_providers_fees(&mut self, fees: u32)
        ensures
            final(self)@ == (PairModel { lp_fees_bps: fees as nat, ..old(self)@ }),
    {
        self.liq_providers_fees = fees;
    }

    fn configure_platform_fees(&mut self, fees: u32, receiver: Address)
        ensures
            final(self)@ == (PairModel {
                platform_fees_bps: fees as nat,
                platform_fees_receiver: Some(receiver@),
                ..old(self)@
            }),
    {
        self.platform_fees = fees;
        self.platform_fees_receiver = Some(receiver);
    }

    fn pause(&mut self)
        ensures
            final(self)@ == (PairModel { paused: true, ..old(self)@ }),
    {
        self.do_pause();
    }

    fn unpause(&mut self)
        ensures
            final(self)@ == (PairModel { paused: false, ..old(self)@ }),
    {
        self.do_unpause();
    }

    fn add_liquidity(
        &mut self,
        first_payment: &EsdtTokenPayment,
        second_payment: &EsdtTokenPayment,
        min_second_token_amount: u128,
        caller: &Address,
    ) -> (res: Result<Vec<Action>, PairError>)
        ensures
            step_matches(
                res,
                old(self)@,
                final(self)@,
                add_liquidity_spec(
                    old(self)@,
                    first_payment.token_identifier@,
                    first_payment.amount as nat,
                    second_payment.token_identifier@,
                    second_payment.token_nonce,
                    second_payment.amount as nat,
                    min_second_token_amount as nat,
                    caller@,
                ),
            ),
    {
        if !(first_payment.token_identifier.same_as(&self.first_token) && first_payment.amount > 0) {
            return Err(PairError::InvalidPaymentFirstToken);
        }
        if !(second_payment.token_identifier.same_as(&self.second_token) && second_payment.amount > 0) {
            return Err(PairError::InvalidPaymentSecondToken);
        }
        let mut actions: Vec<Action> = Vec::new();
        let (lp_amount, lp_token, overpaid_second_token_amount) = match self.lp_add_liquidity(
            first_payment.amount,
            min_second_token_amount,
            second_payment.amount,
            &mut actions,
        ) {
            Ok(x) => x,
            Err(e) => return Err(e),
        };
        let ghost before = actions@;
        actions.push(Action::SendEsdt { to: caller.copy(), token: lp_token, nonce: 0, amount: lp_amount });
        let ghost middle = actions@;
        assert(actions_view(middle) =~= actions_view(before).push(
            send_esdt(caller@, old(self)@.lp_token, 0, lp_amount as nat),
        ));
        if overpaid_second_token_amount > 0 {
            actions.push(
                Action::SendEsdt {
                    to: caller.copy(),
                    token: second_payment.token_identifier.copy(),
                    nonce: second_payment.token_nonce,
                    amount: overpaid_second_token_amount,
                },
            );
            assert(actions_view(actions@) =~= actions_view(middle).push(
                send_esdt(
                    caller@,
                    second_payment.token_identifier@,
                    second_payment.token_nonce,
                    overpaid_second_token_amount as nat,
                ),
            ));
        }
        Ok(actions)
    }

    fn add_liquidity_single(
        &mut self,
        token_identifier: &TokenId,
        payment_amount: u128,
        min_first_token_amount: u128,
        min_second_token_amount: u128,
        caller: &Address,
    ) -> (res: Result<Vec<Action>, PairError>)
        ensures
            step_matches(
                res,
                old(self)@,
                final(self)@,
                add_liquidity_single_spec(
                    old(self)@,
                    token_identifier@,
                    payment_amount as nat,
                    min_first_token_amount as nat,
                    min_second_token_amount as nat,
                    caller@,
                ),
            ),
    {
        match self.require_not_paused() {
            Ok(()) => {},
            Err(e) => return Err(e),
        }
        let is_first_token_in = token_identifier.same_as(&self.first_token);
        let is_second_token_in = token_identifier.same_as(&self.second_token);
        if !(is_first_token_in || is_second_token_in) {
            return Err(PairError::InvalidPaymentToken);
        }
        let min_other = if is_first_token_in {
            min_second_token_amount
        } else {
            min_first_token_amount
        };
        let mut actions: Vec<Action> = Vec::new();
        let (lp_amount, lp_token) = match self.lp_add_liquidity_single_side(
            payment_amount,
            min_other,
            is_first_token_in,
            &mut actions,
        ) {
            Ok(x) => x,
            Err(e) => return Err(e),
        };
        let ghost before = actions@;
        actions.push(Action::SendEsdt { to: caller.copy(), token: lp_token, nonce: 0, amount: lp_amount });
        assert(actions_view(actions@) =~= actions_view(before).push(
            send_esdt(caller@, old(self)@.lp_token, 0, lp_amount as nat),
        ));
        Ok(actions)
    }

    fn remove_liquidity(
        &mut self,
        lp_token: &TokenId,
        lp_amount: u128,
        min_first_token_amount: u128,
        min_second_token_amount: u128,
        caller: &Address,
    ) -> (res: Result<Vec<Action>, PairError>)
        ensures
            step_matches(
                res,
                old(self)@,
                final(self)@,
                remove_liquidity_spec(
                    old(self)@,
                    lp_token@,
                    lp_amount as nat,
                    min_first_token_amount as nat,
                    min_second_token_amount as nat,
                    caller@,
                ),
            ),
    {
        let saved = self.saved_amounts();
        let mut actions: Vec<Action> = Vec::new();
        let (first_out, second_out) = match self.lp_remove_liquidity(lp_token, lp_amount, &mut actions) {
            Ok(x) => x,
            Err(e) => return Err(e),
        };
        if first_out < min_first_token_amount {
            self.restore_amounts(saved);
            return Err(PairError::MaxSlippageExceededFirstToken);
        }
        if second_out < min_second_token_amount {
            self.restore_amounts(saved);
            return Err(PairError::MaxSlippageExceededSecondToken);
        }
        let ghost before = actions@;
        actions.push(
            Action::SendEsdt { to: caller.copy(), token: self.first_token.copy(), nonce: 0, amount: first_out },
        );
        actions.push(
            Action::SendEsdt { to: caller.copy(), token: self.second_token.copy(), nonce: 0, amount: second_out },
        );
        assert(actions_view(actions@) =~= actions_view(before).push(
            send_esdt(caller@, old(self)@.first_token, 0, first_out as nat),
        ).push(send_esdt(caller@, old(self)@.second_token, 0, second_out as nat)));
        Ok(actions)
    }

    fn remove_liquidity_single(
        &mut self,
        token_out: &TokenId,
        lp_token: &TokenId,
        lp_amount: u128,
        min_first_token_amount: u128,
        min_second_token_amount: u128,
        caller: &Address,
    ) -> (res: Result<Vec<Action>, PairError>)
        ensures
            step_matches(
                res,
                old(self)@,
                final(self)@,
                remove_liquidity_single_spec(
                    old(self)@,
                    token_out@,
                    lp_token@,
                    lp_amount as nat,
                    min_first_token_amount as nat,
                    min_second_token_amount as nat,
                    caller@,
                ),
            ),
    {
        match self.require_not_paused() {
            Ok(()) => {},
            Err(e) => return Err(e),
        }
        let saved = self.saved_amounts();
        let mut actions: Vec<Action> = Vec::new();
        let (first_removed, second_removed) = match self.lp_remove_liquidity(
            lp_token,
            lp_amount,
            &mut actions,
        ) {
            Ok(x) => x,
            Err(e) => return Err(e),
        };
        let ghost acts1 = actions_view(actions@);
        let is_first_token_out = token_out.same_as(&self.first_token);
        if !(is_first_token_out || token_out.same_as(&self.second_token)) {
            self.restore_amounts(saved);
            return Err(PairError::InvalidOutToken);
        }
        let is_first_token_in = !is_first_token_out;
        let swap_amount_in = if is_first_token_in {
            first_removed
        } else {
            second_removed
        };
        let ghost acts_before_swap = actions@;
        let swap_payment = match self.swap_tokens_fixed_input_inner(
            swap_amount_in,
            token_out,
            is_first_token_in,
            &mut actions,
        ) {
            Ok(p) => p,
            Err(e) => {
                self.restore_amounts(saved);
                return Err(e);
            },
        };
        let ghost acts12 = actions@;
        if is_first_token_out {
            if first_removed > u128::MAX - swap_payment.amount {
                self.restore_amounts(saved);
                return Err(PairError::AmountOverflow);
            }
            let amount_out = first_removed + swap_payment.amount;
            if amount_out < min_first_token_amount {
                self.restore_amounts(saved);
                return Err(PairError::MaxSlippageExceededFirstToken);
            }
            actions.push(
                Action::SendEsdt { to: caller.copy(), token: self.first_token.copy(), nonce: 0, amount: amount_out },
            );
            assert(actions_view(actions@) =~= actions_view(acts12).push(
                send_esdt(caller@, old(self)@.first_token, 0, amount_out as nat),
            ));
        } else {
            if second_removed > u128::MAX - swap_payment.amount {
                self.restore_amounts(saved);
                return Err(PairError::AmountOverflow);
            }
            let amount_out = second_removed + swap_payment.amount;
            if amount_out < min_second_token_amount {
                self.restore_amounts(saved);
                return Err(PairError::MaxSlippageExceededSecondToken);
            }
            actions.push(
                Action::SendEsdt { to: caller.copy(), token: self.second_token.copy(), nonce: 0, amount: amount_out },
            );
            assert(actions_view(actions@) =~= actions_view(acts12).push(
                send_esdt(caller@, old(self)@.second_token, 0, amount_out as nat),
            ));
        }
        Ok(actions)
    }

    fn swap_tokens_fixed_input(
        &mut self,
        token_in: &TokenId,
        amount_in: u128,
        min_amount_out: u128,
        caller: &Address,
    ) -> (res: Result<Vec<Action>, PairError>)
        ensures
            step_matches(
                res,
                old(self)@,
                final(self)@,
                swap_tokens_fixed_input_spec(
                    old(self)@,
                    token_in@,
                    amount_in as nat,
                    min_amount_out as nat,
                    caller@,
                ),
            ),
    {
        match self.require_not_paused() {
            Ok(()) => {},
            Err(e) => return Err(e),
        }
        let is_first_token_in = token_in.same_as(&self.first_token);
        let is_second_token_in = token_in.same_as(&self.second_token);
        if !(is_first_token_in || is_second_token_in) {
            return Err(PairError::InvalidPaymentToken);
        }
        let token_out = if is_first_token_in {
            self.second_token.copy()
        } else {
            self.first_token.copy()
        };
        let saved = self.saved_amounts();
        let mut actions: Vec<Action> = Vec::new();
        let payment_out = match self.swap_tokens_fixed_input_inner(
            amount_in,
            &token_out,
            is_first_token_in,
            &mut actions,
        ) {
            Ok(p) => p,
            Err(e) => return Err(e),
        };
        if payment_out.amount < min_amount_out {
            self.restore_amounts(saved);
            return Err(PairError::MaxSlippageExceeded);
        }
        let ghost before = actions@;
        actions.push(
            Action::SendEsdt {
                to: caller.copy(),
                token: payment_out.token_identifier,
                nonce: payment_out.token_nonce,
                amount: payment_out.amount,
            },
        );
        assert(actions_view(actions@) =~= actions_view(before).push(
            send_esdt(caller@, token_out@, 0, payment_out.amount as nat),
        ));
        Ok(actions)
    }

    fn estimate_amount_out(&self, token_in: &TokenId, amount_in: u128) -> (res: Result<
        EstimeAmountOut,
        PairError,
    >)
        ensures
            res == estimate_amount_out_view_spec(self@, token_in@, amount_in as nat),
    {
        match self.require_not_paused() {
            Ok(()) => {},
            Err(e) => return Err(e),
        }
        let is_first_token_in = token_in.same_as(&self.first_token);
        let is_second_token_in = token_in.same_as(&self.second_token);
        if !(is_first_token_in || is_second_token_in) {
            return Err(PairError::InvalidPaymentToken);
        }
        self.estimate_amount_out_inner(amount_in, is_first_token_in)
    }

    fn estimate_add_liquidity_single(&self, token_in: &TokenId, amount_in: u128) -> (res: Result<
        EstimateAddLiquidityOut,
        PairError,
    >)
        ensures
            res == estimate_add_liquidity_single_view_spec(self@, token_in@, amount_in as nat),
    {
        let is_first_token_in = token_in.same_as(&self.first_token);
        let is_second_token_in = token_in.same_as(&self.second_token);
        if !(is_first_token_in || is_second_token_in) {
            return Err(PairError::InvalidPaymentToken);
        }
        self.lp_estimate_add_liquidity_single(amount_in, is_first_token_in)
    }

    fn estimate_remove_liquidity(&self, lp_amount: u128) -> (res: Result<
        EstimateRemoveLiquidityOut,
        PairError,
    >)
        ensures
            res == lp_estimate_remove_liquidity_spec(self@, lp_amount as nat),
    {
        self.lp_estimate_remove_liquidity(lp_amount)
    }

    fn estimate_remove_liquidity_single(&self, lp_amount: u128, token_out: &TokenId) -> (res: Result<
        EstimateRemoveLiquidityOut,
        PairError,
    >)
        ensures
            res == estimate_remove_liquidity_single_spec(self@, lp_amount as nat, token_out@),
    {
        if lp_amount > self.lp_token_supply / 2 {
            return Err(PairError::CannotRemoveThatMuchLiquidity);
        }
        let est_remove_lp = match self.lp_estimate_remove_liquidity(lp_amount) {
            Ok(est) => est,
            Err(e) => return Err(e),
        };
        let is_first_token_out = token_out.same_as(&self.first_token);
        let is_second_token_out = token_out.same_as(&self.second_token);
        if !(is_first_token_out || is_second_token_out) {
            return Err(PairError::InvalidOutToken);
        }
        proof {
            lemma_share_at_most_whole(
                lp_amount as nat,
                self.first_token_reserve as nat,
                self.lp_token_supply as nat,
            );
            lemma_share_at_most_whole(
                lp_amount as nat,
                self.second_token_reserve as nat,
                self.lp_token_supply as nat,
            );
        }
        // the reserves as they would be after the pro-rata withdrawal
        let first_left = self.first_token_reserve - est_remove_lp.eq_first_tokens;
        let second_left = self.second_token_reserve - est_remove_lp.eq_second_tokens;
        let half = if is_first_token_out {
            estimate_out_at(
                second_left,
                first_left,
                self.liq_providers_fees,
                self.platform_fees,
                est_remove_lp.eq_second_tokens,
            )
        } else {
            estimate_out_at(
                first_left,
                second_left,
                self.liq_providers_fees,
                self.platform_fees,
                est_remove_lp.eq_first_tokens,
            )
        };
        let half_swap_estimate = match half {
            Ok(h) => h,
            Err(e) => return Err(e),
        };
        let first = if is_first_token_out {
            if est_remove_lp.eq_first_tokens > u128::MAX - half_swap_estimate.net_amount_out {
                return Err(PairError::AmountOverflow);
            }
            est_remove_lp.eq_first_tokens + half_swap_estimate.net_amount_out
        } else {
            0
        };
        let second = if is_second_token_out {
            if est_remove_lp.eq_second_tokens > u128::MAX - half_swap_estimate.net_amount_out {
                return Err(PairError::AmountOverflow);
            }
            est_remove_lp.eq_second_tokens + half_swap_estimate.net_amount_out
        } else {
            0
        };
        Ok(EstimateRemoveLiquidityOut { eq_first_tokens: first, eq_second_tokens: second })
    }

    fn first_token(&self) -> (res: TokenId)
        ensures
            res@ == self@.first_token,
    {
        self.first_token.copy()
    }

    fn second_token(&self) -> (res: TokenId)
        ensures
            res@ == self@.second_token,
    {
        self.second_token.copy()
    }

    fn get_status(&self, owner: &Address, current_epoch: u64) -> (res: Result<PairStatus, PairError>)
        ensures
            ({
                let m = self@;
                let prev = (current_epoch - 1) as u64;
                let sum_first = fees_over_epochs(m, m.first_token, prev, 7);
                let sum_second = fees_over_epochs(m, m.second_token, prev, 7);
                if sum_first > u128::MAX || sum_second > u128::MAX {
                    res == Err::<PairStatus, PairError>(PairError::AmountOverflow)
                } else {
                    res is Ok && {
                        let s = res->Ok_0;
                        &&& s.paused == m.paused
                        &&& s.first_token_identifier@ == m.first_token
                        &&& s.first_token_reserve == m.first_reserve
                        &&& s.second_token_identifier@ == m.second_token
                        &&& s.second_token_reserve == m.second_reserve
                        &&& s.lp_token_identifier@ == m.lp_token
                        &&& s.lp_token_supply == m.lp_supply
                        &&& s.owner@ == owner@
                        &&& s.lp_fees == m.lp_fees_bps
                        &&& s.platform_fees == m.platform_fees_bps
                        &&& crate::state::address_option_view(s.platform_fees_receiver)
                            == m.platform_fees_receiver
                        &&& s.volume_prev_epoch@ == seq![
                            amount_at(m.trading_volume, prev, m.first_token) as u128,
                            amount_at(m.trading_volume, prev, m.second_token) as u128,
                        ]
                        &&& s.fees_prev_epoch@ == seq![
                            amount_at(m.lp_fees, prev, m.first_token) as u128,
                            amount_at(m.lp_fees, prev, m.second_token) as u128,
                        ]
                        &&& s.fees_last_7_epochs@ == seq![sum_first as u128, sum_second as u128]
                    }
                }
            }),
    {
        let prev_epoch = current_epoch - 1;
        let first_token = self.first_token.copy();
        let second_token = self.second_token.copy();
        let opt_platform_fees_receiver = match &self.platform_fees_receiver {
            None => None,
            Some(a) => Some(a.copy()),
        };
        let mut sum_lp_fees_first: u128 = 0;
        let mut sum_lp_fees_second: u128 = 0;
        let mut i: u64 = 0;
        let mut overflow = false;
        while i <= 6
            invariant
                current_epoch >= 7,
                prev_epoch == current_epoch - 1,
                i <= 7,
                first_token@ == self@.first_token,
                second_token@ == self@.second_token,
                overflow ==> fees_over_epochs(self@, self@.first_token, prev_epoch, i as nat)
                    > u128::MAX || fees_over_epochs(self@, self@.second_token, prev_epoch, i as nat)
                    > u128::MAX,
                !overflow ==> sum_lp_fees_first == fees_over_epochs(
                    self@,
                    self@.first_token,
                    prev_epoch,
                    i as nat,
                ) && sum_lp_fees_second == fees_over_epochs(
                    self@,
                    self@.second_token,
                    prev_epoch,
                    i as nat,
                ),
            decreases 7 - i,
        {
            let f = self.lp_fees(prev_epoch - i, &first_token);
            let s = self.lp_fees(prev_epoch - i, &second_token);
            if !overflow {
                if sum_lp_fees_first > u128::MAX - f || sum_lp_fees_second > u128::MAX - s {
                    overflow = true;
                } else {
                    sum_lp_fees_first = sum_lp_fees_first + f;
                    sum_lp_fees_second = sum_lp_fees_second + s;
                }
            }
            proof {
                let n = (i + 1) as nat;
                assert(((prev_epoch - (n - 1)) as u64) == prev_epoch - i);
                reveal_with_fuel(fees_over_epochs, 2);
            }
            i = i + 1;
        }
        if overflow {
            return Err(PairError::AmountOverflow);
        }
        let status = PairStatus {
            paused: self.paused,
            first_token_identifier: first_token.copy(),
            first_token_reserve: self.first_token_reserve,
            second_token_identifier: second_token.copy(),
            second_token_reserve: self.second_token_reserve,
            lp_token_identifier: self.lp_token.copy(),
            lp_token_supply: self.lp_token_supply,
            owner: owner.copy(),
            lp_fees: self.liq_providers_fees,
            platform_fees: self.platform_fees,
            platform_fees_receiver: opt_platform_fees_receiver,
            volume_prev_epoch: [
                self.trading_volume(prev_epoch, &first_token),
                self.trading_volume(prev_epoch, &second_token),
            ],
            fees_prev_epoch: [
                self.lp_fees(prev_epoch, &first_token),
                self.lp_fees(prev_epoch, &second_token),
            ],
            fees_last_7_epochs: [sum_lp_fees_first, sum_lp_fees_second],
        };
        assert(status.volume_prev_epoch@ =~= seq![
            amount_at(self@.trading_volume, prev_epoch, self@.first_token) as u128,
            amount_at(self@.trading_volume, prev_epoch, self@.second_token) as u128,
        ]);
        assert(status.fees_prev_epoch@ =~= seq![
            amount_at(self@.lp_fees, prev_epoch, self@.first_token) as u128,
            amount_at(self@.lp_fees, prev_epoch, self@.second_token) as u128,
        ]);
        assert(status.fees_last_7_epochs@ =~= seq![
            sum_lp_fees_first,
            sum_lp_fees_second,
        ]);
        Ok(status)
    }

    fn get_analytics_for_last_epochs(&self, countback: u64, current_epoch: u64) -> (res: Vec<
        AnalyticsForEpoch,
    >)
        ensures
            res@.len() == countback,
            forall|i: int|
                0 <= i < countback ==> #[trigger] res@[i] == analytics_for_epoch_spec(
                    self@,
                    (current_epoch - countback + i) as u64,
                    self@.first_token,
                    self@.second_token,
                ),
    {
        let first_token = self.first_token.copy();
        let second_token = self.second_token.copy();
        self.get_analytics_for_last_epochs_inner(countback, &first_token, &second_token, current_epoch)
    }

    fn lp_token_issue_callback(
        &mut self,
        caller: &Address,
        issue_succeeded: bool,
        returned_token: &EgldOrEsdt,
        returned_tokens: u128,
    ) -> (res: Result<Vec<Action>, PairError>)
        ensures
            step_matches(
                res,
                old(self)@,
                final(self)@,
                lp_token_issue_callback_spec(
                    old(self)@,
                    caller@,
                    issue_succeeded,
                    egld_or_esdt_view(*returned_token),
                    returned_tokens as nat,
                ),
            ),
    {
        let mut actions: Vec<Action> = Vec::new();
        if issue_succeeded {
            match returned_token {
                EgldOrEsdt::Egld => {
                    return Err(PairError::EsdtExpected);
                },
                EgldOrEsdt::Esdt(t) => {
                    self.lp_token = t.copy();
                    actions.push(
                        Action::SendEsdt { to: caller.copy(), token: t.copy(), nonce: 0, amount: returned_tokens },
                    );
                    assert(actions_view(actions@) =~= seq![send_esdt(caller@, t@, 0, returned_tokens as nat)]);
                },
            }
        } else {
            match returned_token {
                EgldOrEsdt::Egld => {
                    if returned_tokens > 0 {
                        actions.push(Action::SendEgld { to: caller.copy(), amount: returned_tokens });
                        assert(actions_view(actions@) =~= seq![
                            ActionView::SendEgld { to: caller@, amount: returned_tokens as nat },
                        ]);
                    } else {
                        assert(actions_view(actions@) =~= Seq::<ActionView>::empty());
                    }
                },
                EgldOrEsdt::Esdt(_) => {
                    assert(actions_view(actions@) =~= Seq::<ActionView>::empty());
                },
            }
        }
        Ok(actions)
    }
}

} // verus!
