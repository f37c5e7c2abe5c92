use brc20_swap::address::{InscriptionId, SatPoint, UtxoAddress};
use brc20_swap::chain::Chain;
use brc20_swap::commit::Executed;
use brc20_swap::decimal::Brc20Decimal;
use brc20_swap::entry::{BRC20ModulePoolPair, BRC20ModuleTokenBalance, BRC20TickerInfo};
use brc20_swap::error::{BRC20Error, ExecutionError};
use brc20_swap::executor::BRC20ExecutionMessage;
use brc20_swap::indexing::{index_block, BlockError, BundleItem, Record};
use brc20_swap::operation::TickInfo;
use brc20_swap::unisat::WithdrawHistory;
use brc20_swap::operation::{BRC20Operation, Commit, CreateModule, Init, SwapFunctionData};
use brc20_swap::state::SwapState;
use brc20_swap::ticker::BRC20Ticker;

const ALICE: &str = "bc1qam880mjcygnkjny5km39vut89vsnq7yun4nr73";
const BOB: &str = "bc1qhvd6suvqzjcu9pxjhrwhtrlj85ny3n2mqql5w4";
const E18: u128 = 1_000_000_000_000_000_000;
const MODULE_TX: [u8; 32] = [7; 32];

fn owner(a: &str) -> UtxoAddress {
    UtxoAddress::from_str(a, &Chain::Mainnet).unwrap()
}

fn ticker(name: &str) -> BRC20Ticker {
    BRC20Ticker::from_str(name).unwrap()
}

fn module_id() -> String {
    InscriptionId { txid: MODULE_TX, index: 0 }.to_string()
}

fn module_owner() -> UtxoAddress {
    let mut script = vec![0x6au8, 0x20];
    script.extend_from_slice(&MODULE_TX);
    UtxoAddress::from_script(&script, &Chain::Mainnet)
}

fn message(tx: u8, sender: &str, receiver: Option<UtxoAddress>, operation: BRC20Operation) -> BRC20ExecutionMessage {
    let sp = SatPoint { txid: [tx; 32], vout: 0, offset: 0 };
    BRC20ExecutionMessage {
        txid: [tx; 32],
        inscription_id: InscriptionId { txid: [tx; 32], index: 0 },
        sequence_number: tx as u32,
        inscription_number: tx as i32,
        old_satpoint: sp,
        new_satpoint: sp,
        sender: owner(sender),
        receiver,
        operation,
    }
}

fn ticker_info(name: &str) -> BRC20TickerInfo {
    BRC20TickerInfo {
        ticker: ticker(name),
        sequence_number: 0,
        inscription_number: 0,
        inscription_id: InscriptionId { txid: [0; 32], index: 0 },
        total_supply: 21_000_000 * E18,
        burned: 0,
        minted: 0,
        max_mint_limit: 21_000_000 * E18,
        decimals: 18,
        deployer: owner(ALICE),
        self_minted: false,
        deployed_block_height: 1,
        deployed_timestamp: 0,
        latest_minted_block_height: 1,
    }
}

fn create_module(ctx: &mut SwapState, height: u32) -> Executed {
    let op = BRC20Operation::CreateModule(CreateModule {
        name: "swap".to_string(),
        source: "src1".to_string(),
        init: Init {
            swap_fee_rate: "0.003".to_string(),
            gas_tick: "SATS".to_string(),
            gas_to: BOB.to_string(),
            fee_to: BOB.to_string(),
            sequencer: ALICE.to_string(),
        },
    });
    let mut m = message(7, ALICE, None, op);
    m.inscription_id = InscriptionId { txid: MODULE_TX, index: 0 };
    m.execute(&Chain::Mainnet, &"src1".to_string(), ctx, height)
}

fn call(function: &str, params: &[&str]) -> SwapFunctionData {
    SwapFunctionData {
        address: Some(ALICE.to_string()),
        function: Some(function.to_string()),
        params: Some(params.iter().map(|p| p.to_string()).collect()),
        timestamp: Some(0),
        signature: None,
    }
}

fn commit(parent: Option<String>) -> Commit {
    Commit {
        module: Some(module_id()),
        parent,
        gas_price: Some("0.5".to_string()),
        data: Some(vec![
            call("deployPool", &["ORDI", "SATS"]),
            call("addLiq", &["ORDI", "SATS", "100.000000000000000000", "100.000000000000000000", "99", "0.005"]),
            call("swap", &["ORDI", "SATS", "ORDI", "10", "exactIn", "1", "0.005"]),
        ]),
    }
}

fn setup() -> SwapState {
    let mut ctx = SwapState::new();
    for t in ["ORDI", "SATS"] {
        ctx.update_brc20_ticker_info(&ticker(t), ticker_info(t));
    }
    ctx
}

fn swap_balance(ctx: &SwapState, who: &UtxoAddress, t: &str) -> Option<(u128, u8)> {
    ctx.load_brc20_module_address_token_balance(who, &module_id(), &ticker(t))
        .map(|b| b.swap_account_balance.to_u128())
}

#[test]
fn create_module_records_the_module() {
    let mut ctx = setup();
    assert!(matches!(create_module(&mut ctx, 900_000), Executed::Done(_)));
    let info = ctx.load_brc20_module_info(&module_id()).unwrap();
    assert_eq!(info.gas_tick, "SATS");
    assert_eq!(info.fee_rate_swap.to_u128(), (3, 3));
    assert_eq!(info.sequencer_pk_script, "0014eece77ee582227694c94b6e25671672b2130789c");
    assert!(info.commit_id.is_none());
    // a second creation of the same module is refused: with a receipt at
    // first, and stopping the indexer once creations are strict
    match create_module(&mut ctx, 100_000) {
        Executed::Done(r) => assert!(matches!(r.result, Err(BRC20Error::ModuleAlreadyExists(_)))),
        other => panic!("unexpected: {:?}", other),
    }
    match create_module(&mut ctx, 900_000) {
        Executed::Halted(ExecutionError::ExecutionFailed(BRC20Error::ModuleAlreadyExists(_))) => {}
        other => panic!("unexpected: {:?}", other),
    }
}

#[test]
fn create_module_from_another_source_is_refused() {
    let mut ctx = setup();
    let op = BRC20Operation::CreateModule(CreateModule {
        name: "swap".to_string(),
        source: "elsewhere".to_string(),
        init: Init {
            swap_fee_rate: "0.003".to_string(),
            gas_tick: "SATS".to_string(),
            gas_to: BOB.to_string(),
            fee_to: BOB.to_string(),
            sequencer: ALICE.to_string(),
        },
    });
    let m = message(8, ALICE, None, op);
    match m.execute(&Chain::Mainnet, &"src1".to_string(), &mut ctx, 100_000) {
        Executed::Done(r) => assert!(matches!(r.result, Err(BRC20Error::ModuleSourceNotMatch(_)))),
        other => panic!("unexpected: {:?}", other),
    }
    assert!(ctx.load_brc20_module_info(&InscriptionId { txid: [8; 32], index: 0 }.to_string()).is_none());
}

#[test]
fn a_commit_runs_its_calls_and_pays_gas() {
    let mut ctx = setup();
    assert!(matches!(create_module(&mut ctx, 900_000), Executed::Done(_)));
    let mid = module_id();
    for t in ["ORDI", "SATS"] {
        ctx.update_brc20_module_address_token_balance(
            &owner(ALICE),
            &mid,
            &ticker(t),
            BRC20ModuleTokenBalance {
                swap_account_balance: Brc20Decimal::from_u128(1000 * E18, 18).unwrap(),
                available_balance: Brc20Decimal::from_u128(0, 18).unwrap(),
                pending_withdrawal_amount: Brc20Decimal::from_u128(0, 18).unwrap(),
            },
        );
    }

    let inscribed = message(9, ALICE, None, BRC20Operation::Commit(commit(None)));
    assert!(matches!(inscribed.execute(&Chain::Mainnet, &"src1".to_string(), &mut ctx, 900_000), Executed::Done(_)));
    let commit_id = InscriptionId { txid: [9; 32], index: 0 }.to_string();
    assert!(ctx.load_commit_info(&commit_id).is_some());

    let sent = message(9, ALICE, Some(module_owner()), BRC20Operation::TransferCommit(commit(None)));
    match sent.execute(&Chain::Mainnet, &"src1".to_string(), &mut ctx, 900_000) {
        Executed::Done(r) => assert!(r.result.is_ok(), "{:?}", r.result),
        other => panic!("unexpected: {:?}", other),
    }

    // three calls, each paying 0.5 SATS of gas to the gas address
    assert_eq!(swap_balance(&ctx, &owner(BOB), "SATS"), Some((3 * E18 / 2, 18)));
    let pair = BRC20ModulePoolPair::new(&ticker("ORDI"), &ticker("SATS"));
    let pool = ctx.load_brc20_module_swap_poolpair_balance(&mid, &pair).unwrap();
    assert_eq!(pool.tick_balance[0].to_u128().0, 110 * E18);
    assert_eq!(swap_balance(&ctx, &owner(ALICE), "ORDI"), Some((890 * E18, 18)));
    let info = ctx.load_brc20_module_info(&mid).unwrap();
    assert_eq!(info.commit_id, Some(commit_id.clone()));
    assert!(ctx.load_commit_info(&commit_id).is_none());
}

#[test]
fn a_commit_to_an_unknown_module_halts() {
    let mut ctx = setup();
    let inscribed = message(9, ALICE, None, BRC20Operation::Commit(commit(None)));
    match inscribed.execute(&Chain::Mainnet, &"src1".to_string(), &mut ctx, 900_000) {
        Executed::Halted(ExecutionError::ExecutionFailed(BRC20Error::ModuleNotFound(_))) => {}
        other => panic!("unexpected: {:?}", other),
    }
}

#[test]
fn a_commit_not_sent_to_its_module_halts() {
    let mut ctx = setup();
    assert!(matches!(create_module(&mut ctx, 900_000), Executed::Done(_)));
    let sent = message(9, ALICE, Some(owner(BOB)), BRC20Operation::TransferCommit(commit(None)));
    match sent.execute(&Chain::Mainnet, &"src1".to_string(), &mut ctx, 900_000) {
        Executed::Halted(ExecutionError::ExecutionFailed(BRC20Error::CommitNotSendToModule(_))) => {}
        other => panic!("unexpected: {:?}", other),
    }
}

fn module_message() -> BRC20ExecutionMessage {
    let op = BRC20Operation::CreateModule(CreateModule {
        name: "swap".to_string(),
        source: "src1".to_string(),
        init: Init {
            swap_fee_rate: "0.003".to_string(),
            gas_tick: "SATS".to_string(),
            gas_to: BOB.to_string(),
            fee_to: BOB.to_string(),
            sequencer: ALICE.to_string(),
        },
    });
    let mut m = message(7, ALICE, None, op);
    m.inscription_id = InscriptionId { txid: MODULE_TX, index: 0 };
    m
}

fn withdraw_history(txid: [u8; 32], inscription: InscriptionId) -> WithdrawHistory {
    let sp = SatPoint { txid, vout: 0, offset: 0 };
    WithdrawHistory {
        from: ALICE.to_string(),
        to: BOB.to_string(),
        data: TickInfo { tick: "ORDI".to_string(), readable_amount: "2".to_string() },
        inscription_id: inscription,
        inscription_number: 5,
        old_sat_point: sp,
        new_sat_point: sp,
        txid,
        height: 900_000,
    }
}

#[test]
fn index_block_runs_messages_and_credits_withdrawals() {
    let mut ctx = setup();
    let coinbase = [1u8; 32];
    let withdraw_tx = [3u8; 32];
    let other_id = InscriptionId { txid: withdraw_tx, index: 0 };
    let txids = vec![coinbase, MODULE_TX, withdraw_tx];
    let bundles = vec![
        (withdraw_tx, vec![BundleItem::Other { txid: withdraw_tx, sequence_number: 42, inscription_id: other_id }]),
        (MODULE_TX, vec![BundleItem::Brc20(module_message())]),
    ];
    let histories = vec![withdraw_history(withdraw_tx, other_id)];
    let records = index_block(&mut ctx, &Chain::Mainnet, &"src1".to_string(), 900_000, &txids, bundles, &histories).unwrap();
    // the module transaction comes first (block order, from the second on)
    assert_eq!(records.len(), 2);
    assert_eq!(records[0].0, MODULE_TX);
    assert!(matches!(&records[0].1[..], [Record::Brc20(r)] if r.result.is_ok()));
    assert_eq!(records[1].0, withdraw_tx);
    match &records[1].1[..] {
        [Record::UnisatWithdraw { sequence_number, result: Ok(ev), .. }] => {
            assert_eq!(*sequence_number, 42);
            assert_eq!(ev.amount, 2 * E18);
        }
        other => panic!("unexpected: {:?}", other),
    }
    assert!(ctx.load_brc20_module_info(&module_id()).is_some());
    assert_eq!(ctx.load_brc20_balance(&owner(BOB), &ticker("ORDI")).unwrap().total, 2 * E18);
}

#[test]
fn index_block_stops_on_an_unlisted_withdrawal() {
    let mut ctx = setup();
    let tx = [3u8; 32];
    let missing = InscriptionId { txid: [9; 32], index: 1 };
    let txids = vec![[1u8; 32], tx];
    let histories = vec![withdraw_history(tx, missing)];
    let r = index_block(&mut ctx, &Chain::Mainnet, &"src1".to_string(), 900_000, &txids, Vec::new(), &histories);
    assert!(matches!(r, Err(BlockError::MissingWithdraw(id)) if id == missing));
}
