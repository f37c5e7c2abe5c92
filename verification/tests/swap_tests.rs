use brc20_swap::address::{InscriptionId, UtxoAddress};
use brc20_swap::chain::Chain;
use brc20_swap::decimal::Brc20Decimal;
use brc20_swap::entry::{
    BRC20ModuleAddressLPTokenBalanceKey, BRC20ModuleInfo, BRC20ModulePoolPair, BRC20ModuleTokenBalance,
    BRC20TickerInfo,
};
use brc20_swap::error::{BRC20Error, ExecutionError};
use brc20_swap::operation::SwapFunctionData;
use brc20_swap::state::SwapState;
use brc20_swap::ticker::BRC20Ticker;

const ALICE: &str = "bc1qam880mjcygnkjny5km39vut89vsnq7yun4nr73";
const BOB: &str = "bc1qhvd6suvqzjcu9pxjhrwhtrlj85ny3n2mqql5w4";
const E18: u128 = 1_000_000_000_000_000_000;

fn owner(a: &str) -> UtxoAddress {
    UtxoAddress::from_str(a, &Chain::Mainnet).unwrap()
}

fn dec(v: u128, scale: u8) -> Brc20Decimal {
    Brc20Decimal::from_u128(v, scale).unwrap()
}

fn ticker(name: &str) -> BRC20Ticker {
    BRC20Ticker::from_str(name).unwrap()
}

fn call(address: &str, function: &str, params: &[&str]) -> SwapFunctionData {
    SwapFunctionData {
        address: Some(address.to_string()),
        function: Some(function.to_string()),
        params: Some(params.iter().map(|p| p.to_string()).collect()),
        timestamp: Some(0),
        signature: None,
    }
}

fn ticker_info(name: &str) -> BRC20TickerInfo {
    BRC20TickerInfo {
        ticker: ticker(name),
        sequence_number: 0,
        inscription_number: 0,
        inscription_id: InscriptionId { txid: [0; 32], index: 0 },
        total_supply: 21_000_000 * E18,
        burned: 0,
        minted: 0,
        max_mint_limit: 21_000_000 * E18,
        decimals: 18,
        deployer: owner(ALICE),
        self_minted: false,
        deployed_block_height: 1,
        deployed_timestamp: 0,
        latest_minted_block_height: 1,
    }
}

fn module_balance(swap: u128) -> BRC20ModuleTokenBalance {
    BRC20ModuleTokenBalance {
        swap_account_balance: dec(swap, 18),
        available_balance: dec(0, 18),
        pending_withdrawal_amount: dec(0, 18),
    }
}

fn setup() -> (SwapState, String) {
    let m = "module1".to_string();
    let mut ctx = SwapState::new();
    for t in ["ORDI", "SATS"] {
        ctx.update_brc20_ticker_info(&ticker(t), ticker_info(t));
        ctx.update_brc20_module_address_token_balance(&owner(ALICE), &m, &ticker(t), module_balance(1000 * E18));
        ctx.update_brc20_module_address_token_balance(&owner(BOB), &m, &ticker(t), module_balance(0));
    }
    ctx.insert_brc20_module_info(
        &m,
        BRC20ModuleInfo {
            id: m.clone(),
            name: "swap".to_string(),
            deployer_pk_script: "0014eece77ee582227694c94b6e25671672b2130789c".to_string(),
            sequencer_pk_script: "0014eece77ee582227694c94b6e25671672b2130789c".to_string(),
            gas_to_pk_script: "0014eece77ee582227694c94b6e25671672b2130789c".to_string(),
            lp_fee_pk_script: "0014eece77ee582227694c94b6e25671672b2130789c".to_string(),
            fee_rate_swap: dec(0, 3),
            gas_tick: "sats".to_string(),
            chain_commit_id: None,
            commit_id: None,
        },
    );
    (ctx, m)
}

fn swap_balance(ctx: &SwapState, who: &str, m: &String, t: &str) -> (u128, u8) {
    ctx.load_brc20_module_address_token_balance(&owner(who), m, &ticker(t))
        .unwrap()
        .swap_account_balance
        .to_u128()
}

fn with_pool(ctx: &mut SwapState, m: &String) {
    let chain = Chain::Mainnet;
    call(ALICE, "deployPool", &["ORDI", "SATS"]).handle_deploy_pool(m, ctx).unwrap();
    call(
        ALICE,
        "addLiq",
        &["ORDI", "SATS", "100.000000000000000000", "100.000000000000000000", "99", "0.005"],
    )
    .handle_add_liq(&chain, m, ctx)
    .unwrap();
}

#[test]
fn send_moves_the_amount_between_accounts() {
    let (mut ctx, m) = setup();
    let r = call(ALICE, "send", &[BOB, "ORDI", "10.000000000000000000"]).handle_send(&Chain::Mainnet, &m, &mut ctx);
    assert!(r.is_ok());
    assert_eq!(swap_balance(&ctx, ALICE, &m, "ORDI"), (990 * E18, 18));
    assert_eq!(swap_balance(&ctx, BOB, &m, "ORDI"), (10 * E18, 18));
    assert_eq!(swap_balance(&ctx, ALICE, &m, "SATS"), (1000 * E18, 18));
}

#[test]
fn send_refuses_more_than_the_balance() {
    let (mut ctx, m) = setup();
    let r = call(BOB, "send", &[ALICE, "ORDI", "1.000000000000000000"]).handle_send(&Chain::Mainnet, &m, &mut ctx);
    assert!(matches!(
        r,
        Err(ExecutionError::ExecutionFailed(BRC20Error::InsufficientModuleBalance(_, _)))
    ));
    assert_eq!(swap_balance(&ctx, BOB, &m, "ORDI"), (0, 18));
}

#[test]
fn send_of_an_unknown_ticker_fails() {
    let (mut ctx, m) = setup();
    let r = call(ALICE, "send", &[BOB, "PEPE", "1"]).handle_send(&Chain::Mainnet, &m, &mut ctx);
    assert!(matches!(r, Err(ExecutionError::ExecutionFailed(BRC20Error::TickerNotFound(_)))));
}

#[test]
fn send_with_a_bad_address_fails() {
    let (mut ctx, m) = setup();
    let r = call(ALICE, "send", &["nowhere", "ORDI", "1"]).handle_send(&Chain::Mainnet, &m, &mut ctx);
    assert!(matches!(r, Err(ExecutionError::ExecutionFailed(BRC20Error::AddressParseError(_)))));
}

#[test]
fn send_at_another_scale_stops_the_rules() {
    let (mut ctx, m) = setup();
    let r = call(ALICE, "send", &[BOB, "ORDI", "10"]).handle_send(&Chain::Mainnet, &m, &mut ctx);
    assert!(matches!(r, Err(ExecutionError::Unexpected(_))));
}

#[test]
fn deploy_pool_creates_an_empty_pool_once() {
    let (mut ctx, m) = setup();
    call(ALICE, "deployPool", &["ORDI", "SATS"]).handle_deploy_pool(&m, &mut ctx).unwrap();
    let pair = BRC20ModulePoolPair::new(&ticker("ORDI"), &ticker("SATS"));
    let pool = ctx.load_brc20_module_swap_poolpair_balance(&m, &pair).unwrap();
    assert_eq!(pool.tick_balance[0].to_u128(), (0, 18));
    assert_eq!(pool.lp_balance.to_u128(), (0, 18));
    let again = call(ALICE, "deployPool", &["SATS", "ORDI"]).handle_deploy_pool(&m, &mut ctx);
    assert!(matches!(again, Err(ExecutionError::ExecutionFailed(BRC20Error::DuplicateDeployPool(_)))));
}

#[test]
fn pool_pair_ignores_the_order_of_its_tickers() {
    let a = BRC20ModulePoolPair::new(&ticker("ORDI"), &ticker("SATS"));
    let b = BRC20ModulePoolPair::new(&ticker("SATS"), &ticker("ordi"));
    assert!(a.same(&b));
    assert_eq!(a.to_string(), "ordisats");
    assert!(a.starts_with(&ticker("ORDI")));
    assert!(!a.starts_with(&ticker("SATS")));
}

#[test]
fn first_liquidity_issues_the_root_of_the_product() {
    let (mut ctx, m) = setup();
    with_pool(&mut ctx, &m);
    let pair = BRC20ModulePoolPair::new(&ticker("ORDI"), &ticker("SATS"));
    let pool = ctx.load_brc20_module_swap_poolpair_balance(&m, &pair).unwrap();
    assert_eq!(pool.tick_balance[0].to_u128(), (100 * E18, 18));
    assert_eq!(pool.tick_balance[1].to_u128(), (100 * E18, 18));
    assert_eq!(pool.lp_balance.to_u128(), (100 * E18, 18));
    assert_eq!(swap_balance(&ctx, ALICE, &m, "ORDI"), (900 * E18, 18));
    assert_eq!(swap_balance(&ctx, ALICE, &m, "SATS"), (900 * E18, 18));
    let key = BRC20ModuleAddressLPTokenBalanceKey {
        module_id: m.clone(),
        address: owner(ALICE),
        pool_pair: pair.copy(),
    };
    let shares = ctx.load_brc20_module_address_lp_token_balance(&key).unwrap();
    assert_eq!(shares.balance.to_u128(), (100 * E18 - 1000, 18));
}

#[test]
fn swap_exact_in_follows_the_constant_product() {
    let (mut ctx, m) = setup();
    with_pool(&mut ctx, &m);
    let r = call(
        ALICE,
        "swap",
        &["ORDI", "SATS", "ORDI", "10", "exactIn", "1", "0.005"],
    )
    .handle_swap(&Chain::Mainnet, &m, &mut ctx, &dec(0, 3));
    assert!(r.is_ok());
    let out = 9090909090909090909u128;
    assert_eq!(swap_balance(&ctx, ALICE, &m, "ORDI"), (890 * E18, 18));
    assert_eq!(swap_balance(&ctx, ALICE, &m, "SATS"), (900 * E18 + out, 18));
    let pair = BRC20ModulePoolPair::new(&ticker("ORDI"), &ticker("SATS"));
    let pool = ctx.load_brc20_module_swap_poolpair_balance(&m, &pair).unwrap();
    assert_eq!(pool.tick_balance[0].to_u128(), (110 * E18, 18));
    assert_eq!(pool.tick_balance[1].to_u128(), (100 * E18 - out, 18));
}

#[test]
fn swap_below_the_slippage_bound_fails() {
    let (mut ctx, m) = setup();
    with_pool(&mut ctx, &m);
    let r = call(
        ALICE,
        "swap",
        &["ORDI", "SATS", "ORDI", "10", "exactIn", "20", "0.005"],
    )
    .handle_swap(&Chain::Mainnet, &m, &mut ctx, &dec(0, 3));
    assert!(matches!(r, Err(ExecutionError::ExecutionFailed(BRC20Error::SlippageError))));
    assert_eq!(swap_balance(&ctx, ALICE, &m, "ORDI"), (900 * E18, 18));
}

#[test]
fn swap_with_a_bad_direction_fails() {
    let (mut ctx, m) = setup();
    with_pool(&mut ctx, &m);
    let r = call(
        ALICE,
        "swap",
        &["ORDI", "SATS", "ORDI", "10", "sideways", "1", "0.005"],
    )
    .handle_swap(&Chain::Mainnet, &m, &mut ctx, &dec(0, 3));
    assert!(matches!(r, Err(ExecutionError::ExecutionFailed(BRC20Error::InvalidSwapDirection(_)))));
}

#[test]
fn lock_then_unlock_restores_the_shares() {
    let (mut ctx, m) = setup();
    with_pool(&mut ctx, &m);
    let chain = Chain::Mainnet;
    let pair = BRC20ModulePoolPair::new(&ticker("ORDI"), &ticker("SATS"));
    let key = BRC20ModuleAddressLPTokenBalanceKey { module_id: m.clone(), address: owner(ALICE), pool_pair: pair.copy() };
    call(ALICE, "lock", &["ORDI", "SATS", "10"]).handle_lock(&chain, &m, &mut ctx).unwrap();
    let locked = ctx.load_brc20_module_address_lp_token_balance(&key).unwrap();
    assert_eq!(locked.balance.to_u128(), (90 * E18 - 1000, 18));
    assert_eq!(locked.locked_balance.to_u128(), (10 * E18, 18));
    call(ALICE, "unlock", &["ORDI", "SATS", "10"]).handle_unlock(&chain, &m, &mut ctx).unwrap();
    let back = ctx.load_brc20_module_address_lp_token_balance(&key).unwrap();
    assert_eq!(back.balance.to_u128(), (100 * E18 - 1000, 18));
    assert_eq!(back.locked_balance.to_u128(), (0, 18));
}

#[test]
fn send_lp_moves_shares() {
    let (mut ctx, m) = setup();
    with_pool(&mut ctx, &m);
    let chain = Chain::Mainnet;
    call(ALICE, "sendLp", &[BOB, "ORDI", "SATS", "1.000000000000000000"]).handle_send_lp(&chain, &m, &mut ctx).unwrap();
    let pair = BRC20ModulePoolPair::new(&ticker("ORDI"), &ticker("SATS"));
    let key = BRC20ModuleAddressLPTokenBalanceKey { module_id: m.clone(), address: owner(BOB), pool_pair: pair.copy() };
    let shares = ctx.load_brc20_module_address_lp_token_balance(&key).unwrap();
    assert_eq!(shares.balance.to_u128(), (E18, 18));
}

#[test]
fn decrease_approval_moves_swap_to_available() {
    let (mut ctx, m) = setup();
    call(ALICE, "decreaseApproval", &["ORDI", "5"]).handle_decrease_approval(&Chain::Mainnet, &m, &mut ctx).unwrap();
    let b = ctx.load_brc20_module_address_token_balance(&owner(ALICE), &m, &ticker("ORDI")).unwrap();
    assert_eq!(b.swap_account_balance.to_u128(), (995 * E18, 18));
    assert_eq!(b.available_balance.to_u128(), (5 * E18, 18));
}

#[test]
fn remove_liquidity_returns_the_tokens() {
    let (mut ctx, m) = setup();
    with_pool(&mut ctx, &m);
    let chain = Chain::Mainnet;
    let r = call(ALICE, "removeLiq", &["ORDI", "SATS", "50", "50", "50", "0.005"])
        .handle_remove_liq(&chain, &m, &mut ctx, &dec(0, 3));
    assert!(r.is_ok(), "{:?}", r);
    assert_eq!(swap_balance(&ctx, ALICE, &m, "ORDI"), (950 * E18, 18));
    let pair = BRC20ModulePoolPair::new(&ticker("ORDI"), &ticker("SATS"));
    let pool = ctx.load_brc20_module_swap_poolpair_balance(&m, &pair).unwrap();
    assert_eq!(pool.lp_balance.to_u128(), (50 * E18, 18));
    assert_eq!(pool.tick_balance[0].to_u128(), (50 * E18, 18));
}

fn history(to: &str, tick: &str, amount: &str) -> brc20_swap::unisat::WithdrawHistory {
    let sp = brc20_swap::address::SatPoint { txid: [3; 32], vout: 0, offset: 0 };
    brc20_swap::unisat::WithdrawHistory {
        from: ALICE.to_string(),
        to: to.to_string(),
        data: brc20_swap::operation::TickInfo { tick: tick.to_string(), readable_amount: amount.to_string() },
        inscription_id: InscriptionId { txid: [3; 32], index: 0 },
        inscription_number: 7,
        old_sat_point: sp,
        new_sat_point: sp,
        txid: [3; 32],
        height: 100,
    }
}

#[test]
fn withdraw_history_credits_the_receiver() {
    let (mut ctx, _m) = setup();
    let ev = brc20_swap::unisat::process_withdraw_history(&mut ctx, &Chain::Mainnet, &history(BOB, "ORDI", "1.5")).unwrap();
    assert_eq!(ev.amount, 1_500_000_000_000_000_000);
    assert_eq!(ev.tick.to_string(), "ORDI");
    let b = ctx.load_brc20_balance(&owner(BOB), &ticker("ORDI")).unwrap();
    assert_eq!(b.total, 1_500_000_000_000_000_000);
    assert_eq!(b.available, 0);
    brc20_swap::unisat::process_withdraw_history(&mut ctx, &Chain::Mainnet, &history(BOB, "ORDI", "1")).unwrap();
    let b = ctx.load_brc20_balance(&owner(BOB), &ticker("ORDI")).unwrap();
    assert_eq!(b.total, 2_500_000_000_000_000_000);
}

#[test]
fn withdraw_history_errors() {
    let (mut ctx, _m) = setup();
    let r = brc20_swap::unisat::process_withdraw_history(&mut ctx, &Chain::Mainnet, &history("nowhere", "ORDI", "1"));
    assert!(matches!(r, Err(ExecutionError::ExecutionFailed(BRC20Error::InvalidAddress))));
    let r = brc20_swap::unisat::process_withdraw_history(&mut ctx, &Chain::Mainnet, &history(BOB, "PEPE", "1"));
    assert!(matches!(r, Err(ExecutionError::ExecutionFailed(BRC20Error::TickerNotFound(_)))));
    let r = brc20_swap::unisat::process_withdraw_history(&mut ctx, &Chain::Mainnet, &history(BOB, "BTC", "1"));
    assert!(matches!(r, Err(ExecutionError::ExecutionFailed(BRC20Error::TickerParse(_)))));
    let r = brc20_swap::unisat::process_withdraw_history(&mut ctx, &Chain::Mainnet, &history(BOB, "ORDI", "-1"));
    assert!(matches!(r, Err(ExecutionError::ExecutionFailed(BRC20Error::NumericError(_)))));
}
