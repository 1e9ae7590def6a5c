//! Properties of the pool that span its operations, proved over the models
//! that the operations' contracts are stated in.
use crate::analytics::add_amount_spec;
use crate::contract::{
    add_initial_liquidity_spec, add_liquidity_single_spec, add_liquidity_spec,
    estimate_remove_liquidity_single_spec,
    estimate_add_liquidity_single_view_spec, estimate_amount_out_view_spec, init_spec,
    issue_lp_token_spec, lp_token_issue_callback_spec, remove_liquidity_single_spec,
    remove_liquidity_spec, send_esdt, swap_tokens_fixed_input_spec,
};
use crate::ledger::amount_at;
use crate::liquidity::lp_estimate_remove_liquidity_spec;
use crate::math::mul_div_spec;
use crate::state::{model_in_range, reserves_in_out, with_reserves_in_out, PairModel, MIN_LIQUIDITY};
use crate::swap::{estimate_amount_out_spec, swap_fixed_input_spec};
use crate::types::{ActionView, PairError};
use vstd::arithmetic::div_mod::lemma_fundamental_div_mod;
use vstd::prelude::*;

verus! {

/// The LP amount that a list of actions mints.
pub open spec fn lp_minted(acts: Seq<ActionView>) -> nat
    decreases acts.len(),
{
    if acts.len() == 0 {
        0
    } else {
        lp_minted(acts.drop_last()) + match acts.last() {
            ActionView::MintLp { amount, .. } => amount,
            _ => 0,
        }
    }
}

/// The LP amount that a list of actions burns.
pub open spec fn lp_burned(acts: Seq<ActionView>) -> nat
    decreases acts.len(),
{
    if acts.len() == 0 {
        0
    } else {
        lp_burned(acts.drop_last()) + match acts.last() {
            ActionView::BurnLp { amount, .. } => amount,
            _ => 0,
        }
    }
}

/// The LP supply moves by exactly what the actions mint and burn.
pub open spec fn supply_tracks_actions(
    before: PairModel,
    outcome: Result<(PairModel, Seq<ActionView>), PairError>,
) -> bool {
    outcome matches Ok((after, acts)) ==> after.lp_supply + lp_burned(acts) == before.lp_supply
        + lp_minted(acts)
}

proof fn lemma_counts_concat(a: Seq<ActionView>, b: Seq<ActionView>)
    ensures
        lp_minted(a + b) == lp_minted(a) + lp_minted(b),
        lp_burned(a + b) == lp_burned(a) + lp_burned(b),
    decreases b.len(),
{
    if b.len() == 0 {
        assert(a + b =~= a);
    } else {
        lemma_counts_concat(a, b.drop_last());
        assert((a + b).drop_last() =~= a + b.drop_last());
        assert((a + b).last() == b.last());
    }
}

proof fn lemma_counts_one(x: ActionView)
    ensures
        lp_minted(seq![x]) == (match x {
            ActionView::MintLp { amount, .. } => amount,
            _ => 0,
        }),
        lp_burned(seq![x]) == (match x {
            ActionView::BurnLp { amount, .. } => amount,
            _ => 0,
        }),
{
    assert(seq![x].drop_last() =~= Seq::<ActionView>::empty());
    assert(seq![x].last() == x);
    assert(lp_minted(Seq::<ActionView>::empty()) == 0);
    assert(lp_burned(Seq::<ActionView>::empty()) == 0);
}

proof fn lemma_counts_push_transfer(a: Seq<ActionView>, to: Seq<u8>, token: Seq<u8>, nonce: u64, amount: nat)
    ensures
        lp_minted(a.push(send_esdt(to, token, nonce, amount))) == lp_minted(a),
        lp_burned(a.push(send_esdt(to, token, nonce, amount))) == lp_burned(a),
{
    assert(a.push(send_esdt(to, token, nonce, amount)).drop_last() =~= a);
}

/// Every accepted deposit or withdrawal changes the LP supply by exactly the
/// LP amount it asks the chain to mint, less the LP amount it asks it to burn.
pub proof fn law_lp_supply_follows_mint_and_burn(
    m: PairModel,
    caller: Seq<u8>,
    first_token: Seq<u8>,
    first_amount: nat,
    second_token: Seq<u8>,
    second_nonce: u64,
    second_amount: nat,
    min_first: nat,
    min_second: nat,
    lp_token: Seq<u8>,
    lp_amount: nat,
    token_out: Seq<u8>,
)
    ensures
        supply_tracks_actions(
            m,
            add_initial_liquidity_spec(m, first_token, first_amount, second_token, second_amount, caller),
        ),
        supply_tracks_actions(
            m,
            add_liquidity_spec(
                m,
                first_token,
                first_amount,
                second_token,
                second_nonce,
                second_amount,
                min_second,
                caller,
            ),
        ),
        supply_tracks_actions(
            m,
            add_liquidity_single_spec(m, first_token, first_amount, min_first, min_second, caller),
        ),
        supply_tracks_actions(
            m,
            remove_liquidity_spec(m, lp_token, lp_amount, min_first, min_second, caller),
        ),
        supply_tracks_actions(
            m,
            remove_liquidity_single_spec(m, token_out, lp_token, lp_amount, min_first, min_second, caller),
        ),
{
    if let Ok((after, acts)) = add_initial_liquidity_spec(
        m,
        first_token,
        first_amount,
        second_token,
        second_amount,
        caller,
    ) {
        let (m2, acts1, lp) = crate::liquidity::lp_add_initial_liquidity_spec(
            m,
            first_amount,
            second_amount,
        ).unwrap();
        lemma_counts_one(acts1[0]);
        assert(acts1 =~= seq![acts1[0]]);
        lemma_counts_push_transfer(acts1, caller, m.lp_token, 0, lp);
    }
    if let Ok((after, acts)) = add_liquidity_spec(
        m,
        first_token,
        first_amount,
        second_token,
        second_nonce,
        second_amount,
        min_second,
        caller,
    ) {
        let (m2, acts1, (lp, overpaid)) = crate::liquidity::lp_add_liquidity_spec(
            m,
            first_amount,
            min_second,
            second_amount,
        ).unwrap();
        lemma_counts_one(acts1[0]);
        assert(acts1 =~= seq![acts1[0]]);
        lemma_counts_push_transfer(acts1, caller, m.lp_token, 0, lp);
        lemma_counts_push_transfer(
            acts1.push(send_esdt(caller, m.lp_token, 0, lp)),
            caller,
            second_token,
            second_nonce,
            overpaid,
        );
    }
    if let Ok((after, acts)) = add_liquidity_single_spec(
        m,
        first_token,
        first_amount,
        min_first,
        min_second,
        caller,
    ) {
        let is_first_in = first_token == m.first_token;
        let min_other = if is_first_in {
            min_second
        } else {
            min_first
        };
        let (m2, acts1, lp) = crate::liquidity::lp_add_liquidity_single_side_spec(
            m,
            first_amount,
            min_other,
            is_first_in,
        ).unwrap();
        lemma_counts_one(acts1[0]);
        assert(acts1 =~= seq![acts1[0]]);
        lemma_counts_push_transfer(acts1, caller, m.lp_token, 0, lp);
    }
    // the single-sided withdrawal: the burn, then the swap's platform fee
    if let Ok((after, acts)) = remove_liquidity_single_spec(
        m,
        token_out,
        lp_token,
        lp_amount,
        min_first,
        min_second,
        caller,
    ) {
        let (m1, acts1, (f, s)) = crate::liquidity::lp_remove_liquidity_spec(m, lp_token, lp_amount).unwrap();
        lemma_counts_one(acts1[0]);
        assert(acts1 =~= seq![acts1[0]]);
        let is_first_out = token_out == m.first_token;
        let swap_in = if !is_first_out { f } else { s };
        let (m2, acts2, net) = crate::swap::swap_fixed_input_spec(m1, swap_in, token_out, !is_first_out).unwrap();
        lemma_counts_concat(acts1, acts2);
        if acts2.len() > 0 {
            assert(acts2.len() == 1);
            lemma_counts_one(acts2[0]);
            assert(acts2 =~= seq![acts2[0]]);
        } else {
            assert(acts2 =~= Seq::<ActionView>::empty());
        }
        let out = if is_first_out { f + net } else { s + net };
        let tok = if is_first_out { m.first_token } else { m.second_token };
        lemma_counts_push_transfer(acts1 + acts2, caller, tok, 0, out);
    }
    if let Ok((after, acts)) = remove_liquidity_spec(m, lp_token, lp_amount, min_first, min_second, caller) {
        let (m1, acts1, (f, s)) = crate::liquidity::lp_remove_liquidity_spec(m, lp_token, lp_amount).unwrap();
        lemma_counts_one(acts1[0]);
        assert(acts1 =~= seq![acts1[0]]);
        lemma_counts_push_transfer(acts1, caller, m.first_token, 0, f);
        lemma_counts_push_transfer(acts1.push(send_esdt(caller, m.first_token, 0, f)), caller, m.second_token, 0, s);
    }
}

/// A model with the pause flag set to `paused`.
pub open spec fn with_paused(m: PairModel, paused: bool) -> PairModel {
    PairModel { paused, ..m }
}

/// An outcome with the pause flag of its state set to `paused`.
pub open spec fn outcome_with_paused(
    r: Result<(PairModel, Seq<ActionView>), PairError>,
    paused: bool,
) -> Result<(PairModel, Seq<ActionView>), PairError> {
    match r {
        Ok((m, acts)) => Ok((with_paused(m, paused), acts)),
        Err(e) => Err(e),
    }
}

/// Adding liquidity in both tokens and removing it in both tokens work the
/// same whether or not the pool is paused.
pub proof fn law_two_sided_liquidity_ignores_pause(
    m: PairModel,
    paused: bool,
    caller: Seq<u8>,
    first_token: Seq<u8>,
    first_amount: nat,
    second_token: Seq<u8>,
    second_nonce: u64,
    second_amount: nat,
    min_first: nat,
    min_second: nat,
    lp_token: Seq<u8>,
    lp_amount: nat,
)
    ensures
        add_liquidity_spec(
            with_paused(m, paused),
            first_token,
            first_amount,
            second_token,
            second_nonce,
            second_amount,
            min_second,
            caller,
        ) == outcome_with_paused(
            add_liquidity_spec(
                m,
                first_token,
                first_amount,
                second_token,
                second_nonce,
                second_amount,
                min_second,
                caller,
            ),
            paused,
        ),
        remove_liquidity_spec(with_paused(m, paused), lp_token, lp_amount, min_first, min_second, caller)
            == outcome_with_paused(
            remove_liquidity_spec(m, lp_token, lp_amount, min_first, min_second, caller),
            paused,
        ),
{
    let mp = with_paused(m, paused);
    if let Ok((m2, acts)) = add_liquidity_spec(
        m,
        first_token,
        first_amount,
        second_token,
        second_nonce,
        second_amount,
        min_second,
        caller,
    ) {
        assert(with_paused(m2, paused) =~= add_liquidity_spec(
            mp,
            first_token,
            first_amount,
            second_token,
            second_nonce,
            second_amount,
            min_second,
            caller,
        ).unwrap().0);
    }
    if let Ok((m2, acts)) = remove_liquidity_spec(m, lp_token, lp_amount, min_first, min_second, caller) {
        assert(with_paused(m2, paused) =~= remove_liquidity_spec(
            mp,
            lp_token,
            lp_amount,
            min_first,
            min_second,
            caller,
        ).unwrap().0);
    }
}

/// While the pool is paused, swaps, their estimate, and single-sided deposits
/// and withdrawals are refused with `Paused`.
pub proof fn law_pause_refuses_trading(
    m: PairModel,
    caller: Seq<u8>,
    token: Seq<u8>,
    amount: nat,
    min_first: nat,
    min_second: nat,
    lp_token: Seq<u8>,
)
    requires
        m.paused,
    ensures
        swap_tokens_fixed_input_spec(m, token, amount, min_first, caller) == Err::<
            (PairModel, Seq<ActionView>),
            PairError,
        >(PairError::Paused),
        estimate_amount_out_view_spec(m, token, amount) == Err::<
            crate::swap::EstimeAmountOut,
            PairError,
        >(PairError::Paused),
        add_liquidity_single_spec(m, token, amount, min_first, min_second, caller) == Err::<
            (PairModel, Seq<ActionView>),
            PairError,
        >(PairError::Paused),
        remove_liquidity_single_spec(m, token, lp_token, amount, min_first, min_second, caller)
            == Err::<(PairModel, Seq<ActionView>), PairError>(PairError::Paused),
{
}

/// The amount of `token` that a list of actions transfers out.
pub open spec fn esdt_sent(acts: Seq<ActionView>, token: Seq<u8>) -> nat
    decreases acts.len(),
{
    if acts.len() == 0 {
        0
    } else {
        esdt_sent(acts.drop_last(), token) + match acts.last() {
            ActionView::SendEsdt { token: t, amount, .. } => if t == token {
                amount
            } else {
                0
            },
            _ => 0,
        }
    }
}

/// A swap keeps the pool balanced against what moves: the in reserve grows by
/// exactly the amount paid in, the out reserve shrinks by exactly the amount
/// of the out token transferred away (to the trader and the platform), so the
/// liquidity providers' fee stays in the pool; the out reserve is never
/// emptied, and the LP supply does not move.
pub proof fn law_swap_balances_reserves(
    m: PairModel,
    token_in: Seq<u8>,
    amount_in: nat,
    min_amount_out: nat,
    caller: Seq<u8>,
)
    requires
        model_in_range(m),
    ensures
        swap_tokens_fixed_input_spec(m, token_in, amount_in, min_amount_out, caller) matches Ok(
            (after, acts),
        ) ==> {
            let is_first_token_in = token_in == m.first_token;
            let token_out = if is_first_token_in {
                m.second_token
            } else {
                m.first_token
            };
            let (in_before, out_before) = reserves_in_out(m, is_first_token_in);
            let (in_after, out_after) = reserves_in_out(after, is_first_token_in);
            &&& in_after == in_before + amount_in
            &&& out_after + esdt_sent(acts, token_out) == out_before
            &&& out_after > 0
            &&& after.lp_supply == m.lp_supply
        },
{
    if let Ok((after, acts)) = swap_tokens_fixed_input_spec(m, token_in, amount_in, min_amount_out, caller) {
        let is_first_token_in = token_in == m.first_token;
        let token_out = if is_first_token_in {
            m.second_token
        } else {
            m.first_token
        };
        let (m2, acts1, net) = crate::swap::swap_fixed_input_spec(
            m,
            amount_in,
            token_out,
            is_first_token_in,
        ).unwrap();
        let est = crate::swap::estimate_amount_out_spec(m, amount_in, is_first_token_in).unwrap();
        let last = send_esdt(caller, token_out, 0, net);
        assert(acts == acts1.push(last));
        assert(acts.drop_last() =~= acts1);
        assert(acts.last() == last);
        assert(esdt_sent(acts, token_out) == esdt_sent(acts1, token_out) + net);
        if acts1.len() == 0 {
            assert(esdt_sent(acts1, token_out) == 0);
            assert(est.platform_fee == 0);
        } else {
            assert(acts1.drop_last() =~= Seq::<ActionView>::empty());
            assert(esdt_sent(acts1.drop_last(), token_out) == 0);
            assert(esdt_sent(acts1, token_out) == est.platform_fee);
        }
        assert(net == est.net_amount_out);
        assert(est.amount_out == est.net_amount_out + est.liq_providers_fee + est.platform_fee);
        let (i, o) = reserves_in_out(m, is_first_token_in);
        assert(reserves_in_out(after, is_first_token_in) == reserves_in_out(m2, is_first_token_in));
        assert(reserves_in_out(m2, is_first_token_in).1 == o - (est.amount_out - est.liq_providers_fee));
    }
}

/// A swap pays the trader exactly the net amount that the estimate gives for
/// the same state and input; a refused estimate means a refused swap, with the
/// same error.
pub proof fn law_swap_pays_its_estimate(
    m: PairModel,
    token_in: Seq<u8>,
    amount_in: nat,
    min_amount_out: nat,
    caller: Seq<u8>,
)
    ensures
        estimate_amount_out_view_spec(m, token_in, amount_in) matches Err(e) ==> swap_tokens_fixed_input_spec(
            m,
            token_in,
            amount_in,
            min_amount_out,
            caller,
        ) == Err::<(PairModel, Seq<ActionView>), PairError>(e),
        swap_tokens_fixed_input_spec(m, token_in, amount_in, min_amount_out, caller) matches Ok(
            (after, acts),
        ) ==> estimate_amount_out_view_spec(m, token_in, amount_in) matches Ok(est) && acts.last()
            == send_esdt(
            caller,
            if token_in == m.first_token {
                m.second_token
            } else {
                m.first_token
            },
            0,
            est.net_amount_out as nat,
        ) && est.net_amount_out >= min_amount_out,
{
}

/// A single-sided deposit mints, and sends the depositor, exactly the LP
/// amount that its estimate gives for the same state and input.
pub proof fn law_single_deposit_mints_its_estimate(
    m: PairModel,
    token: Seq<u8>,
    amount: nat,
    min_first: nat,
    min_second: nat,
    caller: Seq<u8>,
)
    ensures
        add_liquidity_single_spec(m, token, amount, min_first, min_second, caller) matches Ok(
            (after, acts),
        ) ==> estimate_add_liquidity_single_view_spec(m, token, amount) matches Ok(est)
            && after.lp_supply == m.lp_supply + est.lp_amount && acts.last() == send_esdt(
            caller,
            m.lp_token,
            0,
            est.lp_amount as nat,
        ),
{
}

/// A withdrawal pays exactly the amounts that its estimate gives for the same
/// state and LP amount.
pub proof fn law_withdrawal_pays_its_estimate(
    m: PairModel,
    lp_token: Seq<u8>,
    lp_amount: nat,
    min_first: nat,
    min_second: nat,
    caller: Seq<u8>,
)
    requires
        model_in_range(m),
    ensures
        remove_liquidity_spec(m, lp_token, lp_amount, min_first, min_second, caller) matches Ok(
            (after, acts),
        ) ==> lp_estimate_remove_liquidity_spec(m, lp_amount) matches Ok(est) && acts.len() >= 2
            && acts[acts.len() - 2] == send_esdt(caller, m.first_token, 0, est.eq_first_tokens as nat)
            && acts[acts.len() - 1] == send_esdt(
            caller,
            m.second_token,
            0,
            est.eq_second_tokens as nat,
        ),
{
    if let Ok((after, acts)) = remove_liquidity_spec(m, lp_token, lp_amount, min_first, min_second, caller) {
        let (m1, acts1, (f, s)) = crate::liquidity::lp_remove_liquidity_spec(m, lp_token, lp_amount).unwrap();
        let a = send_esdt(caller, m.first_token, 0, f);
        let b = send_esdt(caller, m.second_token, 0, s);
        assert(acts == acts1.push(a).push(b));
        assert(acts[acts.len() - 2] == a);
        assert(acts[acts.len() - 1] == b);
        let est = lp_estimate_remove_liquidity_spec(m, lp_amount).unwrap();
        assert(est.eq_first_tokens as nat == f);
        assert(est.eq_second_tokens as nat == s);
    }
}

/// A withdrawal never leaves less than `MIN_LIQUIDITY` of either token in the
/// reserves.
pub proof fn law_withdrawal_keeps_min_liquidity(
    m: PairModel,
    lp_token: Seq<u8>,
    lp_amount: nat,
    min_first: nat,
    min_second: nat,
    caller: Seq<u8>,
)
    ensures
        remove_liquidity_spec(m, lp_token, lp_amount, min_first, min_second, caller) matches Ok(
            (after, acts),
        ) ==> after.first_reserve >= MIN_LIQUIDITY && after.second_reserve >= MIN_LIQUIDITY,
{
}

/// `floor(a * b / c) * c <= a * b`.
proof fn lemma_quotient_times_divisor(a: nat, b: nat, c: nat)
    requires
        c > 0,
    ensures
        mul_div_spec(a, b, c) * c <= a * b,
{
    lemma_fundamental_div_mod((a * b) as int, c as int);
    assert(mul_div_spec(a, b, c) * c <= a * b) by (nonlinear_arith)
        requires
            (a * b) as int == c as int * ((a * b) as int / c as int) + (a * b) as int % c as int,
            (a * b) as int % c as int >= 0,
            mul_div_spec(a, b, c) == (a * b) as int / c as int,
    ;
}

/// Withdrawing never lowers what each remaining LP token stands for: for both
/// tokens, reserve per LP token after is at least reserve per LP token before.
pub proof fn law_withdrawal_does_not_dilute(
    m: PairModel,
    lp_token: Seq<u8>,
    lp_amount: nat,
    min_first: nat,
    min_second: nat,
    caller: Seq<u8>,
)
    ensures
        remove_liquidity_spec(m, lp_token, lp_amount, min_first, min_second, caller) matches Ok(
            (after, acts),
        ) ==> after.first_reserve * m.lp_supply >= m.first_reserve * after.lp_supply
            && after.second_reserve * m.lp_supply >= m.second_reserve * after.lp_supply,
{
    if let Ok((after, acts)) = remove_liquidity_spec(m, lp_token, lp_amount, min_first, min_second, caller) {
        let s = m.lp_supply;
        let e1 = mul_div_spec(lp_amount, m.first_reserve, s);
        let e2 = mul_div_spec(lp_amount, m.second_reserve, s);
        lemma_quotient_times_divisor(lp_amount, m.first_reserve, s);
        lemma_quotient_times_divisor(lp_amount, m.second_reserve, s);
        assert(after.first_reserve == m.first_reserve - e1);
        assert(after.lp_supply == s - lp_amount);
        assert((m.first_reserve - e1) * s >= m.first_reserve * (s - lp_amount)) by (nonlinear_arith)
            requires
                e1 * s <= lp_amount * m.first_reserve,
                e1 <= m.first_reserve,
                lp_amount <= s,
        ;
        assert((m.second_reserve - e2) * s >= m.second_reserve * (s - lp_amount)) by (nonlinear_arith)
            requires
                e2 * s <= lp_amount * m.second_reserve,
                e2 <= m.second_reserve,
                lp_amount <= s,
        ;
    }
}

/// Depositing both tokens never lowers the first token's reserve per LP token.
pub proof fn law_deposit_does_not_dilute_first_token(
    m: PairModel,
    first_token: Seq<u8>,
    first_amount: nat,
    second_token: Seq<u8>,
    second_nonce: u64,
    second_amount: nat,
    min_second: nat,
    caller: Seq<u8>,
)
    ensures
        add_liquidity_spec(
            m,
            first_token,
            first_amount,
            second_token,
            second_nonce,
            second_amount,
            min_second,
            caller,
        ) matches Ok((after, acts)) ==> after.first_reserve * m.lp_supply >= m.first_reserve
            * after.lp_supply,
{
    if let Ok((after, acts)) = add_liquidity_spec(
        m,
        first_token,
        first_amount,
        second_token,
        second_nonce,
        second_amount,
        min_second,
        caller,
    ) {
        let r = m.first_reserve;
        let s = m.lp_supply;
        let lp = mul_div_spec(first_amount, s, r);
        lemma_quotient_times_divisor(first_amount, s, r);
        assert((r + first_amount) * s >= r * (s + lp)) by (nonlinear_arith)
            requires
                lp * r <= first_amount * s,
        ;
    }
}

/// A single-sided deposit never lowers the deposited token's reserve per LP token.
pub proof fn law_single_deposit_does_not_dilute_its_token(
    m: PairModel,
    token: Seq<u8>,
    amount: nat,
    min_first: nat,
    min_second: nat,
    caller: Seq<u8>,
)
    ensures
        add_liquidity_single_spec(m, token, amount, min_first, min_second, caller) matches Ok(
            (after, acts),
        ) ==> {
            let is_first = token == m.first_token;
            reserves_in_out(after, is_first).0 * m.lp_supply >= reserves_in_out(m, is_first).0
                * after.lp_supply
        },
{
    if let Ok((after, acts)) = add_liquidity_single_spec(m, token, amount, min_first, min_second, caller) {
        let is_first = token == m.first_token;
        let i = reserves_in_out(m, is_first).0;
        let s = m.lp_supply;
        let lp = mul_div_spec(amount, s, 2 * i);
        lemma_quotient_times_divisor(amount, s, 2 * i);
        assert((i + amount) * s >= i * (s + lp)) by (nonlinear_arith)
            requires
                lp * (2 * i) <= amount * s,
        ;
    }
}

/// `init` sets each token only while it is unset: a second `init` keeps the
/// tokens of the first.
pub proof fn law_init_sets_tokens_once(
    m: PairModel,
    first: Seq<u8>,
    second: Seq<u8>,
    other_first: Seq<u8>,
    other_second: Seq<u8>,
)
    requires
        first.len() > 0,
        second.len() > 0,
    ensures
        init_spec(init_spec(m, first, second), other_first, other_second).first_token == init_spec(
            m,
            first,
            second,
        ).first_token,
        init_spec(init_spec(m, first, second), other_first, other_second).second_token
            == init_spec(m, first, second).second_token,
        init_spec(m, first, second).paused,
{
}

/// Once the issue callback has stored a (non-empty) LP token, the LP token
/// cannot be issued again.
pub proof fn law_lp_token_issued_once(
    m: PairModel,
    caller: Seq<u8>,
    token: Seq<u8>,
    returned: nat,
    display_name: Seq<u8>,
    ticker: Seq<u8>,
    egld_value: nat,
    other_caller: Seq<u8>,
)
    requires
        token.len() > 0,
    ensures
        lp_token_issue_callback_spec(m, caller, true, Some(token), returned) matches Ok((after, acts))
            && issue_lp_token_spec(after, display_name, ticker, egld_value, other_caller) == Err::<
            (PairModel, Seq<ActionView>),
            PairError,
        >(PairError::LpTokenAlreadyIssued),
{
}

/// Analytics read back what was added: the key written grows by the amount
/// added, and every other key is unchanged.
pub proof fn law_analytics_read_after_add(
    amounts: Map<(u64, Seq<u8>), nat>,
    epoch: u64,
    token: Seq<u8>,
    vol: nat,
    other_epoch: u64,
    other_token: Seq<u8>,
)
    requires
        (other_epoch, other_token) != (epoch, token),
    ensures
        add_amount_spec(amounts, epoch, token, vol) matches Ok(after) ==> amount_at(
            after,
            epoch,
            token,
        ) == amount_at(amounts, epoch, token) + vol && amount_at(after, other_epoch, other_token)
            == amount_at(amounts, other_epoch, other_token),
{
}

/// The pool is a constant-product pool: a swap never lowers the product of
/// the two reserves.
pub proof fn law_swap_never_lowers_reserve_product(
    m: PairModel,
    token_in: Seq<u8>,
    amount_in: nat,
    min_amount_out: nat,
    caller: Seq<u8>,
)
    requires
        model_in_range(m),
    ensures
        swap_tokens_fixed_input_spec(m, token_in, amount_in, min_amount_out, caller) matches Ok(
            (after, acts),
        ) ==> after.first_reserve * after.second_reserve >= m.first_reserve * m.second_reserve,
{
    if let Ok((after, acts)) = swap_tokens_fixed_input_spec(m, token_in, amount_in, min_amount_out, caller) {
        let is_first_token_in = token_in == m.first_token;
        let (i, o) = reserves_in_out(m, is_first_token_in);
        let est = crate::swap::estimate_amount_out_spec(m, amount_in, is_first_token_in).unwrap();
        let d = i + amount_in;
        let out = mul_div_spec(amount_in, o, d);
        lemma_quotient_times_divisor(amount_in, o, d);
        assert(est.amount_out == out);
        let leaving = est.amount_out - est.liq_providers_fee;
        let (i2, o2) = reserves_in_out(after, is_first_token_in);
        assert(i2 == d);
        assert(o2 == o - leaving);
        assert(i2 * o2 >= i * o) by (nonlinear_arith)
            requires
                i2 == i + amount_in,
                o2 == o - leaving,
                0 <= leaving <= out,
                out * (i + amount_in) <= amount_in * o,
        ;
        assert(after.first_reserve * after.second_reserve == i2 * o2) by (nonlinear_arith)
            requires
                (is_first_token_in ==> after.first_reserve == i2 && after.second_reserve == o2),
                (!is_first_token_in ==> after.first_reserve == o2 && after.second_reserve == i2),
        ;
        assert(m.first_reserve * m.second_reserve == i * o) by (nonlinear_arith)
            requires
                (is_first_token_in ==> m.first_reserve == i && m.second_reserve == o),
                (!is_first_token_in ==> m.first_reserve == o && m.second_reserve == i),
        ;
    }
}

/// The platform fee transfer of an estimate: one transfer to the receiver
/// when the fee is not zero, none otherwise.
pub open spec fn platform_fee_transfer(m: PairModel, token_out: Seq<u8>, fee: nat) -> Seq<ActionView> {
    if fee > 0 {
        seq![send_esdt(m.platform_fees_receiver.unwrap(), token_out, 0, fee)]
    } else {
        Seq::empty()
    }
}

/// A swap whose estimate succeeds is carried out as estimated, once a
/// receiver is configured for a non-zero platform fee: the in reserve grows by
/// the amount in, the out reserve gives up the amount out less the liquidity
/// providers' fee, the platform fee goes to its receiver, the trader is owed
/// the net amount out, and nothing else changes.
pub proof fn law_inner_swap_follows_estimate(
    m: PairModel,
    amount_in: nat,
    token_out: Seq<u8>,
    is_first_token_in: bool,
)
    requires
        estimate_amount_out_spec(m, amount_in, is_first_token_in) is Ok,
        estimate_amount_out_spec(m, amount_in, is_first_token_in)->Ok_0.platform_fee > 0
            ==> m.platform_fees_receiver is Some,
    ensures
        ({
            let e = estimate_amount_out_spec(m, amount_in, is_first_token_in)->Ok_0;
            let (i, o) = reserves_in_out(m, is_first_token_in);
            swap_fixed_input_spec(m, amount_in, token_out, is_first_token_in) == Ok::<
                (PairModel, Seq<ActionView>, nat),
                PairError,
            >(
                (
                    with_reserves_in_out(
                        m,
                        is_first_token_in,
                        i + amount_in,
                        (o - (e.amount_out - e.liq_providers_fee)) as nat,
                    ),
                    platform_fee_transfer(m, token_out, e.platform_fee as nat),
                    e.net_amount_out as nat,
                ),
            )
        }),
{
}

/// A swap request whose estimate succeeds and meets the trader's minimum is
/// carried out as estimated, once a receiver is configured for a non-zero
/// platform fee: the trader gets exactly the net amount out, after the
/// platform fee transfer if any.
pub proof fn law_swap_follows_estimate(
    m: PairModel,
    token_in: Seq<u8>,
    amount_in: nat,
    min_amount_out: nat,
    caller: Seq<u8>,
)
    requires
        estimate_amount_out_view_spec(m, token_in, amount_in) is Ok,
        estimate_amount_out_view_spec(m, token_in, amount_in)->Ok_0.net_amount_out >= min_amount_out,
        estimate_amount_out_view_spec(m, token_in, amount_in)->Ok_0.platform_fee > 0
            ==> m.platform_fees_receiver is Some,
    ensures
        ({
            let e = estimate_amount_out_view_spec(m, token_in, amount_in)->Ok_0;
            let is_first_token_in = token_in == m.first_token;
            let token_out = if is_first_token_in {
                m.second_token
            } else {
                m.first_token
            };
            let (i, o) = reserves_in_out(m, is_first_token_in);
            swap_tokens_fixed_input_spec(m, token_in, amount_in, min_amount_out, caller) == Ok::<
                (PairModel, Seq<ActionView>),
                PairError,
            >(
                (
                    with_reserves_in_out(
                        m,
                        is_first_token_in,
                        i + amount_in,
                        (o - (e.amount_out - e.liq_providers_fee)) as nat,
                    ),
                    platform_fee_transfer(m, token_out, e.platform_fee as nat).push(
                        send_esdt(caller, token_out, 0, e.net_amount_out as nat),
                    ),
                ),
            )
        }),
{
    let is_first_token_in = token_in == m.first_token;
    let token_out = if is_first_token_in {
        m.second_token
    } else {
        m.first_token
    };
    law_inner_swap_follows_estimate(m, amount_in, token_out, is_first_token_in);
}

/// Minting then burning the same LP amount gives back the state before, and
/// the two calls mint and burn the same amount.
pub proof fn law_mint_then_burn_restores_supply(m: PairModel, amount: nat)
    requires
        m.lp_supply + amount <= u128::MAX,
    ensures
        crate::liquidity::lp_mint_spec(m, amount) matches Ok((m1, acts1))
            && crate::liquidity::lp_burn_spec(m1, amount) matches Ok((m2, acts2)) && m2 == m
            && lp_minted(acts1 + acts2) == amount && lp_burned(acts1 + acts2) == amount,
{
    let (m1, acts1) = crate::liquidity::lp_mint_spec(m, amount).unwrap();
    let (m2, acts2) = crate::liquidity::lp_burn_spec(m1, amount).unwrap();
    assert(m2 =~= m);
    lemma_counts_concat(acts1, acts2);
    lemma_counts_one(acts1[0]);
    lemma_counts_one(acts2[0]);
    assert(acts1 =~= seq![acts1[0]]);
    assert(acts2 =~= seq![acts2[0]]);
}

/// `n / c` is the largest `k` with `k * c <= n`.
proof fn lemma_quotient_bounds(n: nat, c: nat)
    requires
        c > 0,
    ensures
        (n / c) * c <= n < (n / c + 1) * c,
{
    lemma_fundamental_div_mod(n as int, c as int);
    let k = n as int / c as int;
    let r = n as int % c as int;
    assert((n / c) * c <= n < (n / c + 1) * c) by (nonlinear_arith)
        requires
            n as int == c as int * k + r,
            0 <= r < c,
            k == n / c,
    ;
}

/// The first deposit mints the smaller of the two deposited amounts: the LP
/// supply it creates is at most each amount and equal to one of them, and it
/// is what the depositor receives.
pub proof fn law_initial_deposit_mints_the_smaller_amount(
    m: PairModel,
    first_token: Seq<u8>,
    first_amount: nat,
    second_token: Seq<u8>,
    second_amount: nat,
    caller: Seq<u8>,
)
    ensures
        add_initial_liquidity_spec(m, first_token, first_amount, second_token, second_amount, caller)
            matches Ok((after, acts)) ==> {
            &&& after.lp_supply <= first_amount
            &&& after.lp_supply <= second_amount
            &&& (after.lp_supply == first_amount || after.lp_supply == second_amount)
            &&& after.first_reserve == first_amount
            &&& after.second_reserve == second_amount
            &&& acts.last() == send_esdt(caller, m.lp_token, 0, after.lp_supply)
        },
{
}

/// A two-sided deposit keeps, of the second token, exactly the largest amount
/// `k` with `k * first_reserve <= first_amount * second_reserve`, whatever the
/// LP supply, refunds the rest of what was paid, and never lowers the first
/// token's price in second tokens.
pub proof fn law_deposit_keeps_the_reserve_ratio(
    m: PairModel,
    first_token: Seq<u8>,
    first_amount: nat,
    second_token: Seq<u8>,
    second_nonce: u64,
    second_amount: nat,
    min_second: nat,
    caller: Seq<u8>,
)
    ensures
        add_liquidity_spec(
            m,
            first_token,
            first_amount,
            second_token,
            second_nonce,
            second_amount,
            min_second,
            caller,
        ) matches Ok((after, acts)) ==> {
            let kept = after.second_reserve - m.second_reserve;
            &&& after.first_reserve == m.first_reserve + first_amount
            &&& 0 <= kept <= second_amount
            &&& kept * m.first_reserve <= first_amount * m.second_reserve
            &&& first_amount * m.second_reserve < (kept + 1) * m.first_reserve
            &&& (kept < second_amount ==> acts.last() == send_esdt(
                caller,
                second_token,
                second_nonce,
                (second_amount - kept) as nat,
            ))
            &&& after.second_reserve * m.first_reserve <= m.second_reserve * after.first_reserve
        },
{
    if let Ok((after, acts)) = add_liquidity_spec(
        m,
        first_token,
        first_amount,
        second_token,
        second_nonce,
        second_amount,
        min_second,
        caller,
    ) {
        let r1 = m.first_reserve;
        let r2 = m.second_reserve;
        let k = mul_div_spec(first_amount, r2, r1);
        lemma_quotient_bounds(first_amount * r2, r1);
        assert(after.second_reserve == r2 + k);
        assert(after.first_reserve == r1 + first_amount);
        assert((r2 + k) * r1 <= r2 * (r1 + first_amount)) by (nonlinear_arith)
            requires
                k * r1 <= first_amount * r2,
        ;
    }
}

/// A model with the two tokens, and their reserves, exchanged.
pub open spec fn mirrored(m: PairModel) -> PairModel {
    PairModel {
        first_token: m.second_token,
        second_token: m.first_token,
        first_reserve: m.second_reserve,
        second_reserve: m.first_reserve,
        ..m
    }
}

/// An estimate with the two tokens' shares exchanged.
pub open spec fn shares_exchanged(
    r: Result<crate::liquidity::EstimateAddLiquidityOut, PairError>,
) -> Result<crate::liquidity::EstimateAddLiquidityOut, PairError> {
    match r {
        Ok(e) => Ok(
            crate::liquidity::EstimateAddLiquidityOut {
                eq_first_tokens: e.eq_second_tokens,
                eq_second_tokens: e.eq_first_tokens,
                ..e
            },
        ),
        Err(err) => Err(err),
    }
}

/// The single-sided estimate treats the two tokens alike: depositing the
/// second token gives the estimate of depositing the first token into the
/// mirrored pool, with the two shares exchanged. Each share is what the new
/// LP amount stands for of that token's reserve after the deposit (only the
/// deposited token's reserve grows).
pub proof fn law_single_deposit_estimate_is_symmetric(
    m: PairModel,
    amount_in: nat,
    is_first_token_in: bool,
)
    requires
        model_in_range(m),
    ensures
        crate::liquidity::lp_estimate_add_liquidity_single_spec(m, amount_in, false) == shares_exchanged(
            crate::liquidity::lp_estimate_add_liquidity_single_spec(mirrored(m), amount_in, true),
        ),
        crate::liquidity::lp_estimate_add_liquidity_single_spec(m, amount_in, is_first_token_in)
            matches Ok(e) ==> {
            let first_after = m.first_reserve + if is_first_token_in {
                amount_in
            } else {
                0
            };
            let second_after = m.second_reserve + if is_first_token_in {
                0
            } else {
                amount_in
            };
            &&& e.lp_supply == m.lp_supply + e.lp_amount
            &&& e.eq_first_tokens == mul_div_spec(e.lp_amount as nat, first_after, e.lp_supply as nat)
            &&& e.eq_second_tokens == mul_div_spec(e.lp_amount as nat, second_after, e.lp_supply as nat)
        },
{
    let r = crate::liquidity::lp_estimate_add_liquidity_single_spec(m, amount_in, is_first_token_in);
    if let Ok(e) = r {
        let (in_r, other_r) = reserves_in_out(m, is_first_token_in);
        let in_after = in_r + amount_in;
        let lp = mul_div_spec(amount_in, m.lp_supply, 2 * in_r);
        let s_after = m.lp_supply + lp;
        crate::math::lemma_share_at_most_whole(lp, in_after, s_after);
        crate::math::lemma_share_at_most_whole(lp, other_r, s_after);
        assert(e.lp_amount as nat == lp);
        assert(e.lp_supply as nat == s_after);
    }
    let l = crate::liquidity::lp_estimate_add_liquidity_single_spec(m, amount_in, false);
    let rr = crate::liquidity::lp_estimate_add_liquidity_single_spec(mirrored(m), amount_in, true);
    if let Ok(e) = l {
        assert(shares_exchanged(rr) == l);
    }
}

/// A single-token withdrawal refuses for slippage exactly when what it pays
/// in the out token falls below the caller's minimum for that token: with
/// `paid` what it pays under no minimum, any minimum up to `paid` gives the
/// same outcome, any higher one is refused, and the minimum for the other
/// token does not matter.
pub proof fn law_single_withdrawal_checks_the_whole_amount(
    m: PairModel,
    token_out: Seq<u8>,
    lp_token: Seq<u8>,
    lp_amount: nat,
    caller: Seq<u8>,
    paid: nat,
    min_first: nat,
    min_second: nat,
)
    requires
        token_out == m.first_token || token_out == m.second_token,
        m.first_token != m.second_token,
        remove_liquidity_single_spec(m, token_out, lp_token, lp_amount, 0, 0, caller) is Ok,
        remove_liquidity_single_spec(m, token_out, lp_token, lp_amount, 0, 0, caller)->Ok_0.1.last()
            == send_esdt(caller, token_out, 0, paid),
    ensures
        ({
            let base = remove_liquidity_single_spec(m, token_out, lp_token, lp_amount, 0, 0, caller);
            let is_first_out = token_out == m.first_token;
            let min_out = if is_first_out {
                min_first
            } else {
                min_second
            };
            remove_liquidity_single_spec(m, token_out, lp_token, lp_amount, min_first, min_second, caller)
                == if min_out <= paid {
                base
            } else if is_first_out {
                Err::<(PairModel, Seq<ActionView>), PairError>(
                    PairError::MaxSlippageExceededFirstToken,
                )
            } else {
                Err::<(PairModel, Seq<ActionView>), PairError>(
                    PairError::MaxSlippageExceededSecondToken,
                )
            }
        }),
{
    let base = remove_liquidity_single_spec(m, token_out, lp_token, lp_amount, 0, 0, caller);
    let (after, acts) = base.unwrap();
    assert(acts.last() == send_esdt(caller, token_out, 0, paid));
}

/// The single-token withdrawal estimate is what the withdrawal pays: when
/// both succeed for the same state, LP amount and out token, the estimate's
/// share of the out token is the amount paid and its other share is 0. A
/// withdrawal of at most half the supply that succeeds has an estimate that
/// succeeds.
pub proof fn law_single_withdrawal_pays_its_estimate(
    m: PairModel,
    token_out: Seq<u8>,
    lp_token: Seq<u8>,
    lp_amount: nat,
    caller: Seq<u8>,
    paid: nat,
)
    requires
        model_in_range(m),
        m.first_token != m.second_token,
        remove_liquidity_single_spec(m, token_out, lp_token, lp_amount, 0, 0, caller) is Ok,
        remove_liquidity_single_spec(m, token_out, lp_token, lp_amount, 0, 0, caller)->Ok_0.1.last()
            == send_esdt(caller, token_out, 0, paid),
    ensures
        lp_amount * 2 <= m.lp_supply ==> estimate_remove_liquidity_single_spec(m, lp_amount, token_out)
            is Ok,
        estimate_remove_liquidity_single_spec(m, lp_amount, token_out) matches Ok(e) ==> if token_out
            == m.first_token {
            e.eq_first_tokens == paid && e.eq_second_tokens == 0
        } else {
            e.eq_second_tokens == paid && e.eq_first_tokens == 0
        },
{
    let base = remove_liquidity_single_spec(m, token_out, lp_token, lp_amount, 0, 0, caller);
    let (after, acts) = base.unwrap();
    let (m1, acts1, (f, s)) = crate::liquidity::lp_remove_liquidity_spec(m, lp_token, lp_amount).unwrap();
    let is_first_out = token_out == m.first_token;
    let swap_in = if !is_first_out { f } else { s };
    let (m2, acts2, net) = swap_fixed_input_spec(m1, swap_in, token_out, !is_first_out).unwrap();
    assert(acts.last() == send_esdt(caller, token_out, 0, paid));
    assert(f <= m.first_reserve && s <= m.second_reserve);
    let est = lp_estimate_remove_liquidity_spec(m, lp_amount);
    assert(est == Ok::<crate::liquidity::EstimateRemoveLiquidityOut, PairError>(
        crate::liquidity::EstimateRemoveLiquidityOut { eq_first_tokens: f as u128, eq_second_tokens: s as u128 },
    ));
    if is_first_out {
        assert(paid == f + net);
    } else {
        assert(paid == s + net);
    }
}

} // verus!
