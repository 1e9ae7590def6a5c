use jex_sc_pair::analytics::{AnalyticsForEpoch, AnalyticsModule};
use jex_sc_pair::contract::JexScPairContract;
use jex_sc_pair::fees::FeesModule;
use jex_sc_pair::liquidity::{EstimateAddLiquidityOut, EstimateRemoveLiquidityOut, LiquidityModule};
use jex_sc_pair::math::{mul_div, mul_div_by_double, mul_div_rem};
use jex_sc_pair::types::{bytes_copy, bytes_equal};
use jex_sc_pair::pausable::PausableModule;
use jex_sc_pair::state::Pair;
use jex_sc_pair::swap::{EstimeAmountOut, SwapModule};
use jex_sc_pair::types::{Action, Address, EgldOrEsdt, EsdtTokenPayment, PairError, TokenId, TokenProperties};

fn tok(s: &str) -> TokenId {
    TokenId::new(s.as_bytes().to_vec())
}

fn addr(b: u8) -> Address {
    Address::new(vec![b; 32])
}

fn pay(t: &str, amount: u128) -> EsdtTokenPayment {
    EsdtTokenPayment { token_identifier: tok(t), token_nonce: 0, amount }
}

fn send(to: u8, t: &str, amount: u128) -> Action {
    Action::SendEsdt { to: addr(to), token: tok(t), nonce: 0, amount }
}

const FIRST: &str = "WEGLD-abcdef";
const SECOND: &str = "JEX-123456";
const LP: &str = "JEXWEGLD-a1b2c3";
const OWNER: u8 = 1;
const USER: u8 = 2;
const RECEIVER: u8 = 9;

/// A pool with its LP token issued and initial liquidity of 100_000 / 1_000_000, unpaused.
fn ready_pair() -> Pair {
    let mut p = Pair::new();
    p.init(tok(FIRST), tok(SECOND));
    let issue = p.issue_lp_token(b"JexWegld".to_vec(), b"JEXWEGLD".to_vec(), 50, &addr(OWNER));
    assert!(issue.is_ok());
    p.lp_token_issue_callback(&addr(OWNER), true, &EgldOrEsdt::Esdt(tok(LP)), 1000).unwrap();
    p.add_initial_liquidity(&pay(FIRST, 100_000), &pay(SECOND, 1_000_000), &addr(OWNER)).unwrap();
    p.unpause();
    p
}

#[test]
fn init_sets_tokens_and_pauses() {
    let mut p = Pair::new();
    p.init(tok(FIRST), tok(SECOND));
    assert_eq!(p.first_token(), tok(FIRST));
    assert_eq!(p.second_token(), tok(SECOND));
    assert!(p.is_paused());
    p.unpause();
    p.init(tok("OTHER-000000"), tok("OTHER-111111"));
    assert_eq!(p.first_token(), tok(FIRST));
    assert_eq!(p.second_token(), tok(SECOND));
    assert!(p.is_paused());
}

#[test]
fn issue_lp_token_asks_the_system_contract_once() {
    let mut p = Pair::new();
    p.init(tok(FIRST), tok(SECOND));
    let acts = p.issue_lp_token(b"JexWegld".to_vec(), b"JEXWEGLD".to_vec(), 50, &addr(OWNER)).unwrap();
    assert_eq!(
        acts,
        vec![Action::IssueLpToken {
            egld_value: 50,
            display_name: b"JexWegld".to_vec(),
            ticker: b"JEXWEGLD".to_vec(),
            initial_supply: 1000,
            num_decimals: 18,
            properties: TokenProperties {
                can_freeze: true,
                can_wipe: true,
                can_pause: true,
                can_mint: true,
                can_burn: true,
                can_change_owner: true,
                can_upgrade: true,
                can_add_special_roles: true,
            },
            caller: addr(OWNER),
        }]
    );
    let acts = p.lp_token_issue_callback(&addr(OWNER), true, &EgldOrEsdt::Esdt(tok(LP)), 1000).unwrap();
    assert_eq!(acts, vec![send(OWNER, LP, 1000)]);
    assert_eq!(p.lp_token(), tok(LP));
    assert_eq!(
        p.issue_lp_token(b"X".to_vec(), b"X".to_vec(), 50, &addr(OWNER)),
        Err(PairError::LpTokenAlreadyIssued)
    );
}

#[test]
fn failed_issue_returns_egld() {
    let mut p = Pair::new();
    p.init(tok(FIRST), tok(SECOND));
    let acts = p.lp_token_issue_callback(&addr(OWNER), false, &EgldOrEsdt::Egld, 50).unwrap();
    assert_eq!(acts, vec![Action::SendEgld { to: addr(OWNER), amount: 50 }]);
    let acts = p.lp_token_issue_callback(&addr(OWNER), false, &EgldOrEsdt::Egld, 0).unwrap();
    assert!(acts.is_empty());
    assert_eq!(
        p.lp_token_issue_callback(&addr(OWNER), true, &EgldOrEsdt::Egld, 50),
        Err(PairError::EsdtExpected)
    );
    assert!(p.lp_token().is_empty());
}

#[test]
fn enable_mint_burn_needs_a_valid_lp_token() {
    let p = ready_pair();
    assert_eq!(p.enable_mint_burn(false, &addr(7)), Err(PairError::LpTokenNotIssued));
    assert_eq!(
        p.enable_mint_burn(true, &addr(7)).unwrap(),
        vec![Action::SetMintBurnRoles { address: addr(7), token: tok(LP) }]
    );
}

#[test]
fn initial_liquidity_sets_the_rate_and_mints_the_smaller_amount() {
    let mut p = Pair::new();
    p.init(tok(FIRST), tok(SECOND));
    assert_eq!(
        p.add_initial_liquidity(&pay(FIRST, 100_000), &pay(SECOND, 1_000_000), &addr(OWNER)),
        Err(PairError::LpTokenNotIssued)
    );
    p.lp_token_issue_callback(&addr(OWNER), true, &EgldOrEsdt::Esdt(tok(LP)), 1000).unwrap();
    assert_eq!(
        p.add_initial_liquidity(&pay(SECOND, 100_000), &pay(SECOND, 1_000_000), &addr(OWNER)),
        Err(PairError::InvalidPaymentFirstToken)
    );
    assert_eq!(
        p.add_initial_liquidity(&pay(FIRST, 100_000), &pay(SECOND, 0), &addr(OWNER)),
        Err(PairError::InvalidPaymentSecondToken)
    );
    assert_eq!(
        p.add_initial_liquidity(&pay(FIRST, 9_999), &pay(SECOND, 1_000_000), &addr(OWNER)),
        Err(PairError::NotEnoughLiquidityFirstToken)
    );
    assert_eq!(
        p.add_initial_liquidity(&pay(FIRST, 100_000), &pay(SECOND, 9_999), &addr(OWNER)),
        Err(PairError::NotEnoughLiquiditySecondToken)
    );
    assert_eq!(p.first_token_reserve(), 0);
    let acts = p.add_initial_liquidity(&pay(FIRST, 100_000), &pay(SECOND, 1_000_000), &addr(OWNER)).unwrap();
    assert_eq!(
        acts,
        vec![Action::MintLp { token: tok(LP), amount: 100_000 }, send(OWNER, LP, 100_000)]
    );
    assert_eq!(p.first_token_reserve(), 100_000);
    assert_eq!(p.second_token_reserve(), 1_000_000);
    assert_eq!(p.lp_token_supply(), 100_000);
    assert_eq!(
        p.add_initial_liquidity(&pay(FIRST, 100_000), &pay(SECOND, 1_000_000), &addr(OWNER)),
        Err(PairError::LiquidityAlreadyAdded)
    );
}

#[test]
fn add_liquidity_takes_the_ratio_and_refunds_the_rest() {
    let mut p = ready_pair();
    let acts = p.add_liquidity(&pay(FIRST, 1_000), &pay(SECOND, 10_050), 9_000, &addr(USER)).unwrap();
    assert_eq!(
        acts,
        vec![
            Action::MintLp { token: tok(LP), amount: 1_000 },
            send(USER, LP, 1_000),
            send(USER, SECOND, 50),
        ]
    );
    assert_eq!(p.first_token_reserve(), 101_000);
    assert_eq!(p.second_token_reserve(), 1_010_000);
    assert_eq!(p.lp_token_supply(), 101_000);
}

#[test]
fn add_liquidity_exact_ratio_sends_no_refund() {
    let mut p = ready_pair();
    let acts = p.add_liquidity(&pay(FIRST, 1_000), &pay(SECOND, 10_000), 0, &addr(USER)).unwrap();
    assert_eq!(acts, vec![Action::MintLp { token: tok(LP), amount: 1_000 }, send(USER, LP, 1_000)]);
}

#[test]
fn add_liquidity_refusals_change_nothing() {
    let mut p = ready_pair();
    assert_eq!(
        p.add_liquidity(&pay(FIRST, 1_000), &pay(SECOND, 9_999), 0, &addr(USER)),
        Err(PairError::NotEnoughSecondTokens)
    );
    assert_eq!(
        p.add_liquidity(&pay(FIRST, 1_000), &pay(SECOND, 20_000), 10_001, &addr(USER)),
        Err(PairError::MaxSlippageExceeded)
    );
    assert_eq!(
        p.add_liquidity(&pay(SECOND, 1_000), &pay(SECOND, 20_000), 0, &addr(USER)),
        Err(PairError::InvalidPaymentFirstToken)
    );
    assert_eq!(p.first_token_reserve(), 100_000);
    assert_eq!(p.second_token_reserve(), 1_000_000);
    assert_eq!(p.lp_token_supply(), 100_000);
}

#[test]
fn add_liquidity_works_while_paused() {
    let mut p = ready_pair();
    p.pause();
    assert!(p.add_liquidity(&pay(FIRST, 1_000), &pay(SECOND, 10_000), 0, &addr(USER)).is_ok());
    assert!(p.remove_liquidity(&tok(LP), 1_000, 0, 0, &addr(USER)).is_ok());
}

#[test]
fn fees_are_in_hundredths_of_a_percent() {
    let mut p = ready_pair();
    p.configure_liq_providers_fees(100);
    p.configure_platform_fees(20, addr(RECEIVER));
    assert_eq!(p.calculate_liq_providers_fee(10_000), Ok(100));
    assert_eq!(p.calculate_platform_fee(10_000), Ok(20));
    assert_eq!(p.calculate_platform_fee(49), Ok(0));
    assert_eq!(p.liq_providers_fees(), 100);
    assert_eq!(p.platform_fees(), 20);
    assert_eq!(p.platform_fees_receiver(), Ok(addr(RECEIVER)));
    p.configure_liq_providers_fees(u32::MAX);
    assert_eq!(p.calculate_liq_providers_fee(u128::MAX), Err(PairError::AmountOverflow));
}

#[test]
fn platform_fees_receiver_unset_is_a_decode_error() {
    let p = ready_pair();
    assert_eq!(p.platform_fees_receiver(), Err(PairError::StorageDecodeError));
    let mut acts = Vec::new();
    assert_eq!(p.send_platform_fee(&tok(SECOND), 5, &mut acts), Err(PairError::StorageDecodeError));
    assert_eq!(p.send_platform_fee(&tok(SECOND), 0, &mut acts), Ok(()));
    assert!(acts.is_empty());
}

#[test]
fn swap_fixed_input_pays_net_and_platform_fee() {
    let mut p = ready_pair();
    p.configure_liq_providers_fees(100);
    p.configure_platform_fees(20, addr(RECEIVER));
    let est = p.estimate_amount_out(&tok(FIRST), 1_000).unwrap();
    assert_eq!(
        est,
        EstimeAmountOut { net_amount_out: 9_782, amount_out: 9_900, liq_providers_fee: 99, platform_fee: 19 }
    );
    let acts = p.swap_tokens_fixed_input(&tok(FIRST), 1_000, 9_782, &addr(USER)).unwrap();
    assert_eq!(acts, vec![send(RECEIVER, SECOND, 19), send(USER, SECOND, 9_782)]);
    assert_eq!(p.first_token_reserve(), 101_000);
    assert_eq!(p.second_token_reserve(), 990_199);
    assert_eq!(p.lp_token_supply(), 100_000);
}

#[test]
fn swap_second_for_first() {
    let mut p = ready_pair();
    let acts = p.swap_tokens_fixed_input(&tok(SECOND), 10_000, 0, &addr(USER)).unwrap();
    assert_eq!(acts, vec![send(USER, FIRST, 990)]);
    assert_eq!(p.first_token_reserve(), 99_010);
    assert_eq!(p.second_token_reserve(), 1_010_000);
}

#[test]
fn swap_refusals() {
    let mut p = ready_pair();
    p.configure_liq_providers_fees(100);
    assert_eq!(
        p.swap_tokens_fixed_input(&tok(FIRST), 1_000, 9_802, &addr(USER)),
        Err(PairError::MaxSlippageExceeded)
    );
    assert_eq!(
        p.swap_tokens_fixed_input(&tok("OTHER-000000"), 1_000, 0, &addr(USER)),
        Err(PairError::InvalidPaymentToken)
    );
    assert_eq!(
        p.swap_tokens_fixed_input(&tok(FIRST), u128::MAX, 0, &addr(USER)),
        Err(PairError::AmountOverflow)
    );
    p.configure_platform_fees(20, addr(RECEIVER));
    p.platform_fees_receiver = None;
    assert_eq!(
        p.swap_tokens_fixed_input(&tok(FIRST), 1_000, 0, &addr(USER)),
        Err(PairError::StorageDecodeError)
    );
    p.configure_liq_providers_fees(9_000);
    p.configure_platform_fees(2_000, addr(RECEIVER));
    assert_eq!(
        p.swap_tokens_fixed_input(&tok(FIRST), 1_000, 0, &addr(USER)),
        Err(PairError::NegativeSubtraction)
    );
    assert_eq!(p.first_token_reserve(), 100_000);
    assert_eq!(p.second_token_reserve(), 1_000_000);
    p.pause();
    assert_eq!(p.swap_tokens_fixed_input(&tok(FIRST), 1_000, 0, &addr(USER)), Err(PairError::Paused));
    assert_eq!(p.estimate_amount_out(&tok(FIRST), 1_000), Err(PairError::Paused));
    assert_eq!(p.require_not_paused(), Err(PairError::Paused));
}

#[test]
fn swap_on_empty_pool_is_refused() {
    let mut p = Pair::new();
    p.init(tok(FIRST), tok(SECOND));
    p.unpause();
    assert_eq!(p.estimate_amount_out_inner(0, true), Err(PairError::DivisionByZero));
    assert_eq!(p.estimate_amount_out_inner(1, true), Err(PairError::NotEnoughLiquidity));
}

#[test]
fn swap_prices_at_constant_product() {
    let mut p = ready_pair();
    p.first_token_reserve = 100_000;
    p.second_token_reserve = 100_000;
    assert_eq!(p.estimate_amount_out(&tok(FIRST), 50_000).unwrap().amount_out, 33_333);
    p.swap_tokens_fixed_input(&tok(FIRST), 10_000, 0, &addr(USER)).unwrap();
    assert_eq!(p.first_token_reserve(), 110_000);
    assert_eq!(p.second_token_reserve(), 90_910);
    assert!(p.first_token_reserve() * p.second_token_reserve() >= 100_000 * 100_000);
}

#[test]
fn swap_against_an_empty_reserve_is_refused() {
    let mut p = ready_pair();
    p.first_token_reserve = 0;
    assert_eq!(
        p.swap_tokens_fixed_input(&tok(FIRST), 1_000, 0, &addr(USER)),
        Err(PairError::NotEnoughLiquidity)
    );
    assert_eq!(p.second_token_reserve(), 1_000_000);
}

#[test]
fn swap_inner_and_update_reserves() {
    let mut p = ready_pair();
    let mut acts = Vec::new();
    let payment = p.swap_tokens_fixed_input_inner(1_000, &tok(SECOND), true, &mut acts).unwrap();
    assert_eq!(payment, pay(SECOND, 9_900));
    assert!(acts.is_empty());
    assert_eq!(p.lp_update_reserves(10, 20, true), Ok(()));
    assert_eq!(p.first_token_reserve(), 101_010);
    assert_eq!(p.second_token_reserve(), 990_080);
    assert_eq!(p.lp_update_reserves(0, 990_080, true), Err(PairError::NotEnoughLiquiditySecondToken));
    assert_eq!(p.lp_update_reserves(0, 990_081, true), Err(PairError::NegativeSubtraction));
    assert_eq!(p.second_token_reserve(), 990_080);
}

#[test]
fn remove_liquidity_pays_the_pro_rata_share() {
    let mut p = ready_pair();
    p.first_token_reserve = 101_000;
    p.second_token_reserve = 990_100;
    assert_eq!(
        p.estimate_remove_liquidity(10_000),
        Ok(EstimateRemoveLiquidityOut { eq_first_tokens: 10_100, eq_second_tokens: 99_010 })
    );
    let acts = p.remove_liquidity(&tok(LP), 10_000, 10_100, 99_010, &addr(USER)).unwrap();
    assert_eq!(
        acts,
        vec![
            Action::BurnLp { token: tok(LP), amount: 10_000 },
            send(USER, FIRST, 10_100),
            send(USER, SECOND, 99_010),
        ]
    );
    assert_eq!(p.first_token_reserve(), 90_900);
    assert_eq!(p.second_token_reserve(), 891_090);
    assert_eq!(p.lp_token_supply(), 90_000);
}

#[test]
fn remove_liquidity_refusals_change_nothing() {
    let mut p = ready_pair();
    assert_eq!(p.remove_liquidity(&tok(FIRST), 1_000, 0, 0, &addr(USER)), Err(PairError::InvalidLpToken));
    assert_eq!(
        p.remove_liquidity(&tok(LP), 1_000, 1_001, 0, &addr(USER)),
        Err(PairError::MaxSlippageExceededFirstToken)
    );
    assert_eq!(
        p.remove_liquidity(&tok(LP), 1_000, 0, 10_001, &addr(USER)),
        Err(PairError::MaxSlippageExceededSecondToken)
    );
    assert_eq!(
        p.remove_liquidity(&tok(LP), 95_000, 0, 0, &addr(USER)),
        Err(PairError::NotEnoughLiquidityFirstToken)
    );
    assert_eq!(p.remove_liquidity(&tok(LP), 200_000, 0, 0, &addr(USER)), Err(PairError::NegativeSubtraction));
    assert_eq!(p.first_token_reserve(), 100_000);
    assert_eq!(p.second_token_reserve(), 1_000_000);
    assert_eq!(p.lp_token_supply(), 100_000);
}

#[test]
fn remove_liquidity_single_swaps_the_other_half() {
    let mut p = ready_pair();
    let acts = p.remove_liquidity_single(&tok(FIRST), &tok(LP), 10_000, 19_000, 0, &addr(USER)).unwrap();
    assert_eq!(acts, vec![Action::BurnLp { token: tok(LP), amount: 10_000 }, send(USER, FIRST, 19_000)]);
    assert_eq!(p.first_token_reserve(), 81_000);
    assert_eq!(p.second_token_reserve(), 1_000_000);
    assert_eq!(p.lp_token_supply(), 90_000);
}

#[test]
fn remove_liquidity_single_refusals() {
    let mut p = ready_pair();
    assert_eq!(
        p.remove_liquidity_single(&tok(FIRST), &tok(LP), 10_000, 19_001, 0, &addr(USER)),
        Err(PairError::MaxSlippageExceededFirstToken)
    );
    assert_eq!(
        p.remove_liquidity_single(&tok(SECOND), &tok(LP), 10_000, 0, 190_001, &addr(USER)),
        Err(PairError::MaxSlippageExceededSecondToken)
    );
    assert_eq!(
        p.remove_liquidity_single(&tok("OTHER-000000"), &tok(LP), 10_000, 0, 0, &addr(USER)),
        Err(PairError::InvalidOutToken)
    );
    assert_eq!(p.first_token_reserve(), 100_000);
    assert_eq!(p.lp_token_supply(), 100_000);
    p.pause();
    assert_eq!(
        p.remove_liquidity_single(&tok(FIRST), &tok(LP), 10_000, 0, 0, &addr(USER)),
        Err(PairError::Paused)
    );
}

#[test]
fn add_liquidity_single_mints_its_estimate() {
    let mut p = ready_pair();
    let est = p.estimate_add_liquidity_single(&tok(FIRST), 10_000).unwrap();
    assert_eq!(
        est,
        EstimateAddLiquidityOut { lp_amount: 5_000, lp_supply: 105_000, eq_first_tokens: 5_238, eq_second_tokens: 47_619 }
    );
    assert_eq!(p.lp_estimate_add_liquidity_single(10_000, true), Ok(est));
    assert_eq!(
        p.add_liquidity_single(&tok(FIRST), 10_000, 0, 50_000, &addr(USER)),
        Err(PairError::MaxSlippageExceeded)
    );
    assert_eq!(p.lp_token_supply(), 100_000);
    let acts = p.add_liquidity_single(&tok(FIRST), 10_000, 0, 47_619, &addr(USER)).unwrap();
    assert_eq!(acts, vec![Action::MintLp { token: tok(LP), amount: 5_000 }, send(USER, LP, 5_000)]);
    assert_eq!(p.first_token_reserve(), 110_000);
    assert_eq!(p.second_token_reserve(), 1_000_000);
    assert_eq!(p.lp_token_supply(), 105_000);
    assert_eq!(
        p.add_liquidity_single(&tok("OTHER-000000"), 10_000, 0, 0, &addr(USER)),
        Err(PairError::InvalidPaymentToken)
    );
    p.pause();
    assert_eq!(p.add_liquidity_single(&tok(FIRST), 10_000, 0, 0, &addr(USER)), Err(PairError::Paused));
}

#[test]
fn single_side_module_function_checks_other_token() {
    let mut p = ready_pair();
    let mut acts = Vec::new();
    assert_eq!(p.lp_add_liquidity_single_side(10_000, 47_620, true, &mut acts), Err(PairError::MaxSlippageExceeded));
    assert_eq!(p.lp_add_liquidity_single_side(10_000, 47_619, true, &mut acts), Ok((5_000, tok(LP))));
    assert_eq!(acts, vec![Action::MintLp { token: tok(LP), amount: 5_000 }]);
}

#[test]
fn estimate_remove_liquidity_single_leaves_the_pool_unchanged() {
    let mut p = ready_pair();
    assert_eq!(
        p.estimate_remove_liquidity_single(50_001, &tok(FIRST)),
        Err(PairError::CannotRemoveThatMuchLiquidity)
    );
    assert_eq!(
        p.estimate_remove_liquidity_single(10_000, &tok("OTHER-000000")),
        Err(PairError::InvalidOutToken)
    );
    assert_eq!(
        p.estimate_remove_liquidity_single(10_000, &tok(FIRST)),
        Ok(EstimateRemoveLiquidityOut { eq_first_tokens: 19_000, eq_second_tokens: 0 })
    );
    assert_eq!(
        p.estimate_remove_liquidity_single(10_000, &tok(SECOND)),
        Ok(EstimateRemoveLiquidityOut { eq_first_tokens: 0, eq_second_tokens: 190_000 })
    );
    assert_eq!(p.first_token_reserve(), 100_000);
    assert_eq!(p.second_token_reserve(), 1_000_000);
    assert_eq!(p.lp_token_supply(), 100_000);
}

#[test]
fn lp_mint_and_burn_move_the_supply() {
    let mut p = ready_pair();
    let mut acts = Vec::new();
    assert_eq!(p.lp_mint(5, &mut acts), Ok(tok(LP)));
    assert_eq!(p.lp_token_supply(), 100_005);
    assert_eq!(p.lp_burn(7, &mut acts), Ok(()));
    assert_eq!(p.lp_token_supply(), 99_998);
    assert_eq!(p.lp_burn(100_000, &mut acts), Err(PairError::NegativeSubtraction));
    assert_eq!(p.lp_mint(u128::MAX, &mut acts), Err(PairError::AmountOverflow));
    assert_eq!(
        acts,
        vec![Action::MintLp { token: tok(LP), amount: 5 }, Action::BurnLp { token: tok(LP), amount: 7 }]
    );
    assert_eq!(p.require_enough_liquidity(), Ok(()));
}

#[test]
fn analytics_read_back_what_was_added() {
    let mut p = ready_pair();
    assert_eq!(p.lp_fees(9, &tok(FIRST)), 0);
    p.analytics_add_lp_fees(&tok(FIRST), 5, 9).unwrap();
    p.analytics_add_lp_fees(&tok(FIRST), 2, 9).unwrap();
    p.analytics_add_volume(&tok(SECOND), 40, 8).unwrap();
    assert_eq!(p.lp_fees(9, &tok(FIRST)), 7);
    assert_eq!(p.lp_fees(9, &tok(SECOND)), 0);
    assert_eq!(p.lp_fees(8, &tok(FIRST)), 0);
    assert_eq!(p.trading_volume(8, &tok(SECOND)), 40);
    assert_eq!(p.analytics_add_volume(&tok(SECOND), u128::MAX, 8), Err(PairError::AmountOverflow));
    assert_eq!(p.trading_volume(8, &tok(SECOND)), 40);
    let res = p.get_analytics_for_last_epochs(3, 10);
    assert_eq!(
        res,
        vec![
            AnalyticsForEpoch { epoch: 7, volume_first_token: 0, volume_second_token: 0, lp_fees_first_token: 0, lp_fees_second_token: 0 },
            AnalyticsForEpoch { epoch: 8, volume_first_token: 0, volume_second_token: 40, lp_fees_first_token: 0, lp_fees_second_token: 0 },
            AnalyticsForEpoch { epoch: 9, volume_first_token: 0, volume_second_token: 0, lp_fees_first_token: 7, lp_fees_second_token: 0 },
        ]
    );
    assert!(p.get_analytics_for_last_epochs(0, 10).is_empty());
    assert_eq!(p.get_analytics_for_last_epochs_inner(1, &tok(SECOND), &tok(FIRST), 9)[0].volume_first_token, 40);
}

#[test]
fn status_sums_the_last_seven_epochs() {
    let mut p = ready_pair();
    p.configure_liq_providers_fees(100);
    p.configure_platform_fees(20, addr(RECEIVER));
    p.analytics_add_lp_fees(&tok(FIRST), 5, 9).unwrap();
    p.analytics_add_lp_fees(&tok(FIRST), 7, 3).unwrap();
    p.analytics_add_lp_fees(&tok(FIRST), 100, 2).unwrap();
    p.analytics_add_lp_fees(&tok(SECOND), 11, 4).unwrap();
    p.analytics_add_volume(&tok(FIRST), 300, 9).unwrap();
    let s = p.get_status(&addr(OWNER), 10).unwrap();
    assert!(!s.paused);
    assert_eq!(s.first_token_identifier, tok(FIRST));
    assert_eq!(s.first_token_reserve, 100_000);
    assert_eq!(s.second_token_identifier, tok(SECOND));
    assert_eq!(s.second_token_reserve, 1_000_000);
    assert_eq!(s.lp_token_identifier, tok(LP));
    assert_eq!(s.lp_token_supply, 100_000);
    assert_eq!(s.owner, addr(OWNER));
    assert_eq!(s.lp_fees, 100);
    assert_eq!(s.platform_fees, 20);
    assert_eq!(s.platform_fees_receiver, Some(addr(RECEIVER)));
    assert_eq!(s.volume_prev_epoch, [300, 0]);
    assert_eq!(s.fees_prev_epoch, [5, 0]);
    assert_eq!(s.fees_last_7_epochs, [12, 11]);
}

#[test]
fn status_overflow_is_refused() {
    let mut p = ready_pair();
    p.analytics_add_lp_fees(&tok(FIRST), u128::MAX, 9).unwrap();
    p.analytics_add_lp_fees(&tok(FIRST), 1, 8).unwrap();
    assert!(matches!(p.get_status(&addr(OWNER), 10), Err(PairError::AmountOverflow)));
}

#[test]
fn pausing_round_trip() {
    let mut p = ready_pair();
    p.do_pause();
    assert!(p.is_paused());
    p.do_unpause();
    assert!(!p.is_paused());
    assert_eq!(p.require_not_paused(), Ok(()));
}

#[test]
fn withdrawal_does_not_dilute_remaining_shares() {
    let mut p = ready_pair();
    p.first_token_reserve = 100_003;
    p.second_token_reserve = 1_000_007;
    let (r1, r2, s) = (p.first_token_reserve(), p.second_token_reserve(), p.lp_token_supply());
    p.remove_liquidity(&tok(LP), 33_333, 0, 0, &addr(USER)).unwrap();
    assert!(p.first_token_reserve() * s >= r1 * p.lp_token_supply());
    assert!(p.second_token_reserve() * s >= r2 * p.lp_token_supply());
}

#[test]
fn deposit_can_dilute_the_second_token_by_rounding() {
    let mut p = ready_pair();
    p.first_token_reserve = 30_000;
    p.second_token_reserve = 10_000;
    p.lp_token_supply = 30_000;
    let (r1, r2, s) = (p.first_token_reserve(), p.second_token_reserve(), p.lp_token_supply());
    p.add_liquidity(&pay(FIRST, 1), &pay(SECOND, 1), 0, &addr(USER)).unwrap();
    // 1 LP was minted for no second token
    assert_eq!(p.second_token_reserve(), 10_000);
    assert_eq!(p.lp_token_supply(), 30_001);
    assert!(p.first_token_reserve() * s >= r1 * p.lp_token_supply());
    assert!(p.second_token_reserve() * s < r2 * p.lp_token_supply());
}

#[test]
fn mul_div_is_exact_at_the_limits() {
    assert_eq!(mul_div(10, 3, 4), Some(7));
    assert_eq!(mul_div(u128::MAX, u128::MAX, u128::MAX), Some(u128::MAX));
    assert_eq!(mul_div(u128::MAX, u128::MAX - 1, u128::MAX), Some(u128::MAX - 1));
    assert_eq!(mul_div(u128::MAX, 2, 1), None);
    assert_eq!(mul_div(u128::MAX, 2, 3), Some((u128::MAX / 3) * 2));
    assert_eq!(mul_div(1 << 100, 1 << 100, 1 << 90), Some(1 << 110));
    assert_eq!(mul_div(0, u128::MAX, 7), Some(0));
    assert_eq!(mul_div_by_double(7, 3, 2), Some(5));
    assert_eq!(mul_div_by_double(u128::MAX, 2, 1), Some(u128::MAX));
    assert_eq!(mul_div_by_double(u128::MAX, 3, 1), None);
    assert_eq!(mul_div_by_double(u128::MAX, u128::MAX, u128::MAX), Some(u128::MAX / 2));
}

#[test]
fn swap_never_lowers_reserve_product() {
    let mut p = ready_pair();
    p.configure_liq_providers_fees(100);
    p.configure_platform_fees(20, addr(RECEIVER));
    let (i, o) = (p.first_token_reserve(), p.second_token_reserve());
    p.swap_tokens_fixed_input(&tok(FIRST), 1_000, 0, &addr(USER)).unwrap();
    let (i2, o2) = (p.first_token_reserve(), p.second_token_reserve());
    assert_eq!((i2, o2), (101_000, 990_199));
    assert!(i2 * o2 >= i * o);
    // the out reserve fell by exactly what was sent out: 19 to the platform and 9_782 to the trader
    assert_eq!(o - o2, 19 + 9_782);
}

#[test]
fn mul_div_rem_gives_quotient_and_remainder() {
    assert_eq!(mul_div_rem(10, 3, 4), Some((7, 2)));
    assert_eq!(mul_div_rem(u128::MAX, u128::MAX, u128::MAX - 1), None);
    assert_eq!(mul_div_rem(u128::MAX, 3, 4), Some(((u128::MAX / 4) * 3 + 2, 1)));
}

#[test]
fn byte_strings_compare_and_copy() {
    assert!(bytes_equal(&b"JEX-123456".to_vec(), &b"JEX-123456".to_vec()));
    assert!(!bytes_equal(&b"JEX-123456".to_vec(), &b"JEX-123457".to_vec()));
    assert!(!bytes_equal(&b"JEX".to_vec(), &b"JEX-".to_vec()));
    assert_eq!(bytes_copy(&b"abc".to_vec()), b"abc".to_vec());
    assert!(tok("A").same_as(&tok("A")));
    assert!(!tok("A").same_as(&tok("B")));
    assert_eq!(tok("A").copy(), tok("A"));
    assert!(TokenId::empty().is_empty());
}
