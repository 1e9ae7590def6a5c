//! Liquidity: the reserves of both tokens, and the LP token that stands for
//! a share of them.
use crate::math::{lemma_share_at_most_whole, mul_div, mul_div_by_double, mul_div_spec};
use crate::state::{reserves_in_out, with_reserves_in_out, Pair, PairModel, MIN_LIQUIDITY};
use crate::types::{actions_view, Action, ActionView, PairError, TokenId};
use vstd::prelude::*;

verus! {

/// What adding liquidity in one token gives: the LP amount minted, the LP
/// supply after, and the amounts of each token that the new LP amount stands for.
#[derive(PartialEq, Eq, Structural, Clone, Copy, Debug)]
pub struct EstimateAddLiquidityOut {
    pub lp_amount: u128,
    pub lp_supply: u128,
    pub eq_first_tokens: u128,
    pub eq_second_tokens: u128,
}

/// The amounts of each token that an LP amount stands for.
#[derive(PartialEq, Eq, Structural, Clone, Copy, Debug)]
pub struct EstimateRemoveLiquidityOut {
    pub eq_first_tokens: u128,
    pub eq_second_tokens: u128,
}

pub open spec fn min_nat(a: nat, b: nat) -> nat {
    if a <= b {
        a
    } else {
        b
    }
}

/// Both reserves must keep at least `MIN_LIQUIDITY`.
pub open spec fn require_enough_liquidity_spec(m: PairModel) -> Result<(), PairError> {
    if m.first_reserve < MIN_LIQUIDITY {
        Err(PairError::NotEnoughLiquidityFirstToken)
    } else if m.second_reserve < MIN_LIQUIDITY {
        Err(PairError::NotEnoughLiquiditySecondToken)
    } else {
        Ok(())
    }
}

/// Minting grows the LP supply and asks the chain to mint as much.
pub open spec fn lp_mint_spec(m: PairModel, amount: nat) -> Result<
    (PairModel, Seq<ActionView>),
    PairError,
> {
    if m.lp_supply + amount > u128::MAX {
        Err(PairError::AmountOverflow)
    } else {
        Ok(
            (
                PairModel { lp_supply: m.lp_supply + amount, ..m },
                seq![ActionView::MintLp { token: m.lp_token, amount }],
            ),
        )
    }
}

/// Burning shrinks the LP supply and asks the chain to burn as much.
pub open spec fn lp_burn_spec(m: PairModel, amount: nat) -> Result<
    (PairModel, Seq<ActionView>),
    PairError,
> {
    if amount > m.lp_supply {
        Err(PairError::NegativeSubtraction)
    } else {
        Ok(
            (
                PairModel { lp_supply: (m.lp_supply - amount) as nat, ..m },
                seq![ActionView::BurnLp { token: m.lp_token, amount }],
            ),
        )
    }
}

/// The first deposit sets both reserves; it is worth the smaller of the two
/// amounts in LP tokens.
pub open spec fn lp_add_initial_liquidity_spec(m: PairModel, first: nat, second: nat) -> Result<
    (PairModel, Seq<ActionView>, nat),
    PairError,
> {
    if m.lp_supply != 0 {
        Err(PairError::LiquidityAlreadyAdded)
    } else {
        let m1 = PairModel { first_reserve: first, second_reserve: second, ..m };
        match require_enough_liquidity_spec(m1) {
            Err(e) => Err(e),
            Ok(_) => {
                let lp = min_nat(first, second);
                match lp_mint_spec(m1, lp) {
                    Err(e) => Err(e),
                    Ok((m2, acts)) => Ok((m2, acts, lp)),
                }
            },
        }
    }
}

/// A deposit of both tokens at the reserves' ratio: the second amount owed is
/// `first * second_reserve / first_reserve`, the LP minted is
/// `first * lp_supply / first_reserve`, and what was sent of the second token
/// beyond what is owed is returned as the overpaid amount.
pub open spec fn lp_add_liquidity_spec(
    m: PairModel,
    exact_first: nat,
    min_second: nat,
    max_second: nat,
) -> Result<(PairModel, Seq<ActionView>, (nat, nat)), PairError> {
    let r1 = m.first_reserve;
    if r1 == 0 {
        Err(PairError::DivisionByZero)
    } else {
        let exact_second = mul_div_spec(exact_first, m.second_reserve, r1);
        if exact_second > max_second {
            Err(PairError::NotEnoughSecondTokens)
        } else if exact_second < min_second {
            Err(PairError::MaxSlippageExceeded)
        } else if r1 + exact_first > u128::MAX || m.second_reserve + exact_second > u128::MAX {
            Err(PairError::AmountOverflow)
        } else {
            let m1 = PairModel {
                first_reserve: r1 + exact_first,
                second_reserve: m.second_reserve + exact_second,
                ..m
            };
            let lp = mul_div_spec(exact_first, m.lp_supply, r1);
            match lp_mint_spec(m1, lp) {
                Err(e) => Err(e),
                Ok((m2, acts)) => Ok((m2, acts, (lp, (max_second - exact_second) as nat))),
            }
        }
    }
}

/// The estimate of a deposit of one token: half of it is counted as the
/// in-token's share, `amount_in * lp_supply / (2 * in_reserve)` LP tokens.
pub open spec fn lp_estimate_add_liquidity_single_spec(
    m: PairModel,
    amount_in: nat,
    is_first_token_in: bool,
) -> Result<EstimateAddLiquidityOut, PairError> {
    let (in_reserve, other_reserve) = reserves_in_out(m, is_first_token_in);
    let in_reserve_after = in_reserve + amount_in;
    if in_reserve_after > u128::MAX {
        Err(PairError::AmountOverflow)
    } else if in_reserve == 0 {
        Err(PairError::DivisionByZero)
    } else {
        let lp_amount = mul_div_spec(amount_in, m.lp_supply, 2 * in_reserve);
        let lp_supply_after = m.lp_supply + lp_amount;
        if lp_supply_after > u128::MAX {
            Err(PairError::AmountOverflow)
        } else if lp_supply_after == 0 {
            Err(PairError::DivisionByZero)
        } else {
            let eq_in = mul_div_spec(lp_amount, in_reserve_after, lp_supply_after);
            let eq_other = mul_div_spec(lp_amount, other_reserve, lp_supply_after);
            Ok(
                EstimateAddLiquidityOut {
                    lp_amount: lp_amount as u128,
                    lp_supply: lp_supply_after as u128,
                    eq_first_tokens: (if is_first_token_in {
                        eq_in
                    } else {
                        eq_other
                    }) as u128,
                    eq_second_tokens: (if is_first_token_in {
                        eq_other
                    } else {
                        eq_in
                    }) as u128,
                },
            )
        }
    }
}

/// A deposit of one token: the estimate's LP amount is minted, and the whole
/// deposit joins the in-token's reserve.
pub open spec fn lp_add_liquidity_single_side_spec(
    m: PairModel,
    amount_in: nat,
    min_other_token_amount: nat,
    is_first_token_in: bool,
) -> Result<(PairModel, Seq<ActionView>, nat), PairError> {
    match lp_estimate_add_liquidity_single_spec(m, amount_in, is_first_token_in) {
        Err(e) => Err(e),
        Ok(est) => {
            let other = if is_first_token_in {
                est.eq_second_tokens
            } else {
                est.eq_first_tokens
            };
            if other < min_other_token_amount {
                Err(PairError::MaxSlippageExceeded)
            } else {
                let (in_reserve, out_reserve) = reserves_in_out(m, is_first_token_in);
                let m1 = with_reserves_in_out(m, is_first_token_in, in_reserve + amount_in, out_reserve);
                match lp_mint_spec(m1, est.lp_amount as nat) {
                    Err(e) => Err(e),
                    Ok((m2, acts)) => Ok((m2, acts, est.lp_amount as nat)),
                }
            }
        },
    }
}

/// The amounts of each token that `lp_amount` stands for: its pro-rata share
/// of each reserve, rounded down.
pub open spec fn lp_estimate_remove_liquidity_spec(m: PairModel, lp_amount: nat) -> Result<
    EstimateRemoveLiquidityOut,
    PairError,
> {
    if m.lp_supply == 0 {
        Err(PairError::DivisionByZero)
    } else {
        let e1 = mul_div_spec(lp_amount, m.first_reserve, m.lp_supply);
        let e2 = mul_div_spec(lp_amount, m.second_reserve, m.lp_supply);
        if e1 > u128::MAX || e2 > u128::MAX {
            Err(PairError::AmountOverflow)
        } else {
            Ok(EstimateRemoveLiquidityOut { eq_first_tokens: e1 as u128, eq_second_tokens: e2 as u128 })
        }
    }
}

/// A withdrawal: the LP amount is burnt and its pro-rata share of each
/// reserve is paid out; both reserves must keep `MIN_LIQUIDITY`.
pub open spec fn lp_remove_liquidity_spec(m: PairModel, lp_token: Seq<u8>, lp_amount: nat) -> Result<
    (PairModel, Seq<ActionView>, (nat, nat)),
    PairError,
> {
    if m.lp_token != lp_token {
        Err(PairError::InvalidLpToken)
    } else if m.lp_supply == 0 {
        Err(PairError::DivisionByZero)
    } else {
        let e1 = mul_div_spec(lp_amount, m.first_reserve, m.lp_supply);
        let e2 = mul_div_spec(lp_amount, m.second_reserve, m.lp_supply);
        if e1 > m.first_reserve || e2 > m.second_reserve {
            Err(PairError::NegativeSubtraction)
        } else {
            let m1 = PairModel {
                first_reserve: (m.first_reserve - e1) as nat,
                second_reserve: (m.second_reserve - e2) as nat,
                ..m
            };
            match require_enough_liquidity_spec(m1) {
                Err(e) => Err(e),
                Ok(_) => match lp_burn_spec(m1, lp_amount) {
                    Err(e) => Err(e),
                    Ok((m2, acts)) => Ok((m2, acts, (e1, e2))),
                },
            }
        }
    }
}

/// A trade's effect on the reserves, which must then keep `MIN_LIQUIDITY`.
pub open spec fn lp_update_reserves_spec(
    m: PairModel,
    amount_in: nat,
    amount_out: nat,
    is_first_token_in: bool,
) -> Result<PairModel, PairError> {
    let (in_reserve, out_reserve) = reserves_in_out(m, is_first_token_in);
    if in_reserve + amount_in > u128::MAX {
        Err(PairError::AmountOverflow)
    } else if amount_out > out_reserve {
        Err(PairError::NegativeSubtraction)
    } else {
        let m1 = with_reserves_in_out(
            m,
            is_first_token_in,
            in_reserve + amount_in,
            (out_reserve - amount_out) as nat,
        );
        match require_enough_liquidity_spec(m1) {
            Err(e) => Err(e),
            Ok(_) => Ok(m1),
        }
    }
}

/// The liquidity check on given reserves.
pub fn enough_liquidity(first_reserve: u128, second_reserve: u128) -> (res: Result<(), PairError>)
    ensures
        res == (if first_reserve < MIN_LIQUIDITY {
            Err(PairError::NotEnoughLiquidityFirstToken)
        } else if second_reserve < MIN_LIQUIDITY {
            Err(PairError::NotEnoughLiquiditySecondToken)
        } else {
            Ok(())
        }),
{
    if first_reserve < MIN_LIQUIDITY {
        Err(PairError::NotEnoughLiquidityFirstToken)
    } else if second_reserve < MIN_LIQUIDITY {
        Err(PairError::NotEnoughLiquiditySecondToken)
    } else {
        Ok(())
    }
}

pub trait LiquidityModule {
    fn lp_add_initial_liquidity(
        &mut self,
        first_token_amount: u128,
        second_token_amount: u128,
        actions: &mut Vec<Action>,
    ) -> Result<(u128, TokenId), PairError>;

    fn lp_add_liquidity(
        &mut self,
        exact_first_token_amount: u128,
        min_second_token_amount: u128,
        max_second_token_amount: u128,
        actions: &mut Vec<Action>,
    ) -> Result<(u128, TokenId, u128), PairError>;

    fn lp_add_liquidity_single_side(
        &mut self,
        amount_in: u128,
        min_other_token_amount: u128,
        is_first_token_in: bool,
        actions: &mut Vec<Action>,
    ) -> Result<(u128, TokenId), PairError>;

    fn lp_burn(&mut self, amount: u128, actions: &mut Vec<Action>) -> Result<(), PairError>;

    fn lp_estimate_add_liquidity_single(&self, amount_in: u128, is_first_token_in: bool) -> Result<
        EstimateAddLiquidityOut,
        PairError,
    >;

    fn lp_estimate_remove_liquidity(&self, lp_amount: u128) -> Result<
        EstimateRemoveLiquidityOut,
        PairError,
    >;

    fn lp_mint(&mut self, amount: u128, actions: &mut Vec<Action>) -> Result<TokenId, PairError>;

    fn lp_remove_liquidity(
        &mut self,
        lp_token_identifier: &TokenId,
        lp_amount: u128,
        actions: &mut Vec<Action>,
    ) -> Result<(u128, u128), PairError>;

    fn lp_update_reserves(&mut self, amount_in: u128, amount_out: u128, is_first_token_in: bool) -> Result<
        (),
        PairError,
    >;

    fn require_enough_liquidity(&self) -> Result<(), PairError>;

    fn first_token_reserve(&self) -> u128;

    fn second_token_reserve(&self) -> u128;

    fn lp_token(&self) -> TokenId;

    fn lp_token_supply(&self) -> u128;
}

impl LiquidityModule for Pair {
    fn lp_add_initial_liquidity(
        &mut self,
        first_token_amount: u128,
        second_token_amount: u128,
        actions: &mut Vec<Action>,
    ) -> (res: Result<(u128, TokenId), PairError>)
        ensures
            match lp_add_initial_liquidity_spec(
                old(self)@,
                first_token_amount as nat,
                second_token_amount as nat,
            ) {
                Ok((m2, acts, lp)) => res is Ok && final(self)@ == m2 && actions_view(
                    final(actions)@,
                ) == actions_view(old(actions)@) + acts && res->Ok_0.0 == lp && res->Ok_0.1@
                    == old(self)@.lp_token,
                Err(e) => res is Err && res->Err_0 == e && final(self)@ == old(self)@
                    && final(actions)@ == old(actions)@,
            },
    {
        if self.lp_token_supply != 0 {
            return Err(PairError::LiquidityAlreadyAdded);
        }
        match enough_liquidity(first_token_amount, second_token_amount) {
            Ok(()) => {},
            Err(e) => return Err(e),
        }
        let lp_amount = if first_token_amount <= second_token_amount {
            first_token_amount
        } else {
            second_token_amount
        };
        self.first_token_reserve = first_token_amount;
        self.second_token_reserve = second_token_amount;
        // the supply is 0, so minting cannot overflow
        let lp_token = match self.lp_mint(lp_amount, actions) {
            Ok(t) => t,
            Err(e) => return Err(e),
        };
        Ok((lp_amount, lp_token))
    }

    fn lp_add_liquidity(
        &mut self,
        exact_first_token_amount: u128,
        min_second_token_amount: u128,
        max_second_token_amount: u128,
        actions: &mut Vec<Action>,
    ) -> (res: Result<(u128, TokenId, u128), PairError>)
        ensures
            match lp_add_liquidity_spec(
                old(self)@,
                exact_first_token_amount as nat,
                min_second_token_amount as nat,
                max_second_token_amount as nat,
            ) {
                Ok((m2, acts, (lp, overpaid))) => res is Ok && final(self)@ == m2 && actions_view(
                    final(actions)@,
                ) == actions_view(old(actions)@) + acts && res->Ok_0.0 == lp && res->Ok_0.1@
                    == old(self)@.lp_token && res->Ok_0.2 == overpaid,
                Err(e) => res is Err && res->Err_0 == e && final(self)@ == old(self)@
                    && final(actions)@ == old(actions)@,
            },
    {
        let first_token_reserve = self.first_token_reserve;
        let second_token_reserve = self.second_token_reserve;
        if first_token_reserve == 0 {
            return Err(PairError::DivisionByZero);
        }
        let exact_second_token_amount = match mul_div(
            exact_first_token_amount,
            second_token_reserve,
            first_token_reserve,
        ) {
            Some(x) => x,
            None => return Err(PairError::NotEnoughSecondTokens),
        };
        if exact_second_token_amount > max_second_token_amount {
            return Err(PairError::NotEnoughSecondTokens);
        }
        if exact_second_token_amount < min_second_token_amount {
            return Err(PairError::MaxSlippageExceeded);
        }
        if first_token_reserve > u128::MAX - exact_first_token_amount || second_token_reserve
            > u128::MAX - exact_second_token_amount {
            return Err(PairError::AmountOverflow);
        }
        let lp_amount = match mul_div(
            exact_first_token_amount,
            self.lp_token_supply,
            first_token_reserve,
        ) {
            Some(x) => x,
            None => return Err(PairError::AmountOverflow),
        };
        if self.lp_token_supply > u128::MAX - lp_amount {
            return Err(PairError::AmountOverflow);
        }
        self.first_token_reserve = first_token_reserve + exact_first_token_amount;
        self.second_token_reserve = second_token_reserve + exact_second_token_amount;
        let lp_token = match self.lp_mint(lp_amount, actions) {
            Ok(t) => t,
            Err(e) => return Err(e),
        };
        let overpaid_second_token_amount = max_second_token_amount - exact_second_token_amount;
        Ok((lp_amount, lp_token, overpaid_second_token_amount))
    }

    fn lp_add_liquidity_single_side(
        &mut self,
        amount_in: u128,
        min_other_token_amount: u128,
        is_first_token_in: bool,
        actions: &mut Vec<Action>,
    ) -> (res: Result<(u128, TokenId), PairError>)
        ensures
            match lp_add_liquidity_single_side_spec(
                old(self)@,
                amount_in as nat,
                min_other_token_amount as nat,
                is_first_token_in,
            ) {
                Ok((m2, acts, lp)) => res is Ok && final(self)@ == m2 && actions_view(
                    final(actions)@,
                ) == actions_view(old(actions)@) + acts && res->Ok_0.0 == lp && res->Ok_0.1@
                    == old(self)@.lp_token,
                Err(e) => res is Err && res->Err_0 == e && final(self)@ == old(self)@
                    && final(actions)@ == old(actions)@,
            },
    {
        let estimation = match self.lp_estimate_add_liquidity_single(amount_in, is_first_token_in) {
            Ok(est) => est,
            Err(e) => return Err(e),
        };
        let other_token_amount = if is_first_token_in {
            estimation.eq_second_tokens
        } else {
            estimation.eq_first_tokens
        };
        if other_token_amount < min_other_token_amount {
            return Err(PairError::MaxSlippageExceeded);
        }
        let (in_reserve, out_reserve) = self.reserves_in_out(is_first_token_in);
        self.set_reserves_in_out(is_first_token_in, in_reserve + amount_in, out_reserve);
        let lp_token = match self.lp_mint(estimation.lp_amount, actions) {
            Ok(t) => t,
            Err(e) => return Err(e),
        };
        Ok((estimation.lp_amount, lp_token))
    }

    fn lp_burn(&mut self, amount: u128, actions: &mut Vec<Action>) -> (res: Result<(), PairError>)
        ensures
            match lp_burn_spec(old(self)@, amount as nat) {
                Ok((m2, acts)) => res is Ok && final(self)@ == m2 && actions_view(final(actions)@)
                    == actions_view(old(actions)@) + acts,
                Err(e) => res is Err && res->Err_0 == e && final(self)@ == old(self)@
                    && final(actions)@ == old(actions)@,
            },
    {
        if amount > self.lp_token_supply {
            return Err(PairError::NegativeSubtraction);
        }
        self.lp_token_supply = self.lp_token_supply - amount;
        let ghost before = actions@;
        actions.push(Action::BurnLp { token: self.lp_token.copy(), amount });
        assert(actions_view(actions@) =~= actions_view(before) + seq![
            ActionView::BurnLp { token: self@.lp_token, amount: amount as nat },
        ]);
        Ok(())
    }

    fn lp_estimate_add_liquidity_single(&self, amount_in: u128, is_first_token_in: bool) -> (res:
        Result<EstimateAddLiquidityOut, PairError>)
        ensures
            res == lp_estimate_add_liquidity_single_spec(
                self@,
                amount_in as nat,
                is_first_token_in,
            ),
    {
        let (in_reserve, other_reserve) = self.reserves_in_out(is_first_token_in);
        if in_reserve > u128::MAX - amount_in {
            return Err(PairError::AmountOverflow);
        }
        let in_reserve_after = in_reserve + amount_in;
        if in_reserve == 0 {
            return Err(PairError::DivisionByZero);
        }
        let lp_supply_before = self.lp_token_supply;
        let lp_amount = match mul_div_by_double(amount_in, lp_supply_before, in_reserve) {
            Some(x) => x,
            None => return Err(PairError::AmountOverflow),
        };
        if lp_supply_before > u128::MAX - lp_amount {
            return Err(PairError::AmountOverflow);
        }
        let lp_supply_after = lp_supply_before + lp_amount;
        if lp_supply_after == 0 {
            return Err(PairError::DivisionByZero);
        }
        proof {
            lemma_share_at_most_whole(
                lp_amount as nat,
                in_reserve_after as nat,
                lp_supply_after as nat,
            );
            lemma_share_at_most_whole(lp_amount as nat, other_reserve as nat, lp_supply_after as nat);
        }
        let eq_amount_in = match mul_div(lp_amount, in_reserve_after, lp_supply_after) {
            Some(x) => x,
            None => return Err(PairError::AmountOverflow),
        };
        let eq_amount_other = match mul_div(lp_amount, other_reserve, lp_supply_after) {
            Some(x) => x,
            None => return Err(PairError::AmountOverflow),
        };
        Ok(
            EstimateAddLiquidityOut {
                lp_amount,
                lp_supply: lp_supply_after,
                eq_first_tokens: if is_first_token_in {
                    eq_amount_in
                } else {
                    eq_amount_other
                },
                eq_second_tokens: if is_first_token_in {
                    eq_amount_other
                } else {
                    eq_amount_in
                },
            },
        )
    }

    fn lp_estimate_remove_liquidity(&self, lp_amount: u128) -> (res: Result<
        EstimateRemoveLiquidityOut,
        PairError,
    >)
        ensures
            res == lp_estimate_remove_liquidity_spec(self@, lp_amount as nat),
    {
        if self.lp_token_supply == 0 {
            return Err(PairError::DivisionByZero);
        }
        let e1 = mul_div(lp_amount, self.first_token_reserve, self.lp_token_supply);
        let e2 = mul_div(lp_amount, self.second_token_reserve, self.lp_token_supply);
        match (e1, e2) {
            (Some(a), Some(b)) => Ok(EstimateRemoveLiquidityOut { eq_first_tokens: a, eq_second_tokens: b }),
            _ => Err(PairError::AmountOverflow),
        }
    }

    fn lp_mint(&mut self, amount: u128, actions: &mut Vec<Action>) -> (res: Result<TokenId, PairError>)
        ensures
            match lp_mint_spec(old(self)@, amount as nat) {
                Ok((m2, acts)) => res is Ok && final(self)@ == m2 && actions_view(final(actions)@)
                    == actions_view(old(actions)@) + acts && res->Ok_0@ == old(self)@.lp_token,
                Err(e) => res is Err && res->Err_0 == e && final(self)@ == old(self)@
                    && final(actions)@ == old(actions)@,
            },
    {
        if self.lp_token_supply > u128::MAX - amount {
            return Err(PairError::AmountOverflow);
        }
        self.lp_token_supply = self.lp_token_supply + amount;
        let ghost before = actions@;
        actions.push(Action::MintLp { token: self.lp_token.copy(), amount });
        assert(actions_view(actions@) =~= actions_view(before) + seq![
            ActionView::MintLp { token: self@.lp_token, amount: amount as nat },
        ]);
        Ok(self.lp_token.copy())
    }

    fn lp_remove_liquidity(
        &mut self,
        lp_token_identifier: &TokenId,
        lp_amount: u128,
        actions: &mut Vec<Action>,
    ) -> (res: Result<(u128, u128), PairError>)
        ensures
            match lp_remove_liquidity_spec(old(self)@, lp_token_identifier@, lp_amount as nat) {
                Ok((m2, acts, (e1, e2))) => res is Ok && final(self)@ == m2 && actions_view(
                    final(actions)@,
                ) == actions_view(old(actions)@) + acts && res->Ok_0.0 == e1 && res->Ok_0.1 == e2,
                Err(e) => res is Err && res->Err_0 == e && final(self)@ == old(self)@
                    && final(actions)@ == old(actions)@,
            },
    {
        if !self.lp_token.same_as(lp_token_identifier) {
            return Err(PairError::InvalidLpToken);
        }
        let first_token_reserve = self.first_token_reserve;
        let second_token_reserve = self.second_token_reserve;
        let lp_token_supply = self.lp_token_supply;
        if lp_token_supply == 0 {
            return Err(PairError::DivisionByZero);
        }
        let exact_first_token_amount = match mul_div(lp_amount, first_token_reserve, lp_token_supply) {
            Some(x) => x,
            None => return Err(PairError::NegativeSubtraction),
        };
        let exact_second_token_amount = match mul_div(
            lp_amount,
            second_token_reserve,
            lp_token_supply,
        ) {
            Some(x) => x,
            None => return Err(PairError::NegativeSubtraction),
        };
        if exact_first_token_amount > first_token_reserve || exact_second_token_amount
            > second_token_reserve {
            return Err(PairError::NegativeSubtraction);
        }
        let new_first = first_token_reserve - exact_first_token_amount;
        let new_second = second_token_reserve - exact_second_token_amount;
        // prevent removing all liquidity
        match enough_liquidity(new_first, new_second) {
            Ok(()) => {},
            Err(e) => return Err(e),
        }
        if lp_amount > lp_token_supply {
            return Err(PairError::NegativeSubtraction);
        }
        self.first_token_reserve = new_first;
        self.second_token_reserve = new_second;
        match self.lp_burn(lp_amount, actions) {
            Ok(()) => {},
            Err(e) => return Err(e),
        }
        Ok((exact_first_token_amount, exact_second_token_amount))
    }

    fn lp_update_reserves(&mut self, amount_in: u128, amount_out: u128, is_first_token_in: bool) -> (res:
        Result<(), PairError>)
        ensures
            match lp_update_reserves_spec(
                old(self)@,
                amount_in as nat,
                amount_out as nat,
                is_first_token_in,
            ) {
                Ok(m2) => res is Ok && final(self)@ == m2,
                Err(e) => res is Err && res->Err_0 == e && final(self)@ == old(self)@,
            },
    {
        let (in_reserve, out_reserve) = self.reserves_in_out(is_first_token_in);
        if in_reserve > u128::MAX - amount_in {
            return Err(PairError::AmountOverflow);
        }
        if amount_out > out_reserve {
            return Err(PairError::NegativeSubtraction);
        }
        let new_in = in_reserve + amount_in;
        let new_out = out_reserve - amount_out;
        // prevent draining all of one reserve
        let check = if is_first_token_in {
            enough_liquidity(new_in, new_out)
        } else {
            enough_liquidity(new_out, new_in)
        };
        match check {
            Ok(()) => {},
            Err(e) => return Err(e),
        }
        self.set_reserves_in_out(is_first_token_in, new_in, new_out);
        Ok(())
    }

    fn require_enough_liquidity(&self) -> (res: Result<(), PairError>)
        ensures
            res == require_enough_liquidity_spec(self@),
    {
        enough_liquidity(self.first_token_reserve, self.second_token_reserve)
    }

    fn first_token_reserve(&self) -> (res: u128)
        ensures
            res as nat == self@.first_reserve,
    {
        self.first_token_reserve
    }

    fn second_token_reserve(&self) -> (res: u128)
        ensures
            res as nat == self@.second_reserve,
    {
        self.second_token_reserve
    }

    fn lp_token(&self) -> (res: TokenId)
        ensures
            res@ == self@.lp_token,
    {
        self.lp_token.copy()
    }

    fn lp_token_supply(&self) -> (res: u128)
        ensures
            res as nat == self@.lp_supply,
    {
        self.lp_token_supply
    }
}

} // verus!
