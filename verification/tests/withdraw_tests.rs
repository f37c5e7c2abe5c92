use brc20_swap::address::{InscriptionId, SatPoint, UtxoAddress};
use brc20_swap::chain::Chain;
use brc20_swap::commit::Executed;
use brc20_swap::decimal::Brc20Decimal;
use brc20_swap::entry::{BRC20Balance, BRC20ModuleTokenBalance, BRC20TickerInfo};
use brc20_swap::error::BRC20Error;
use brc20_swap::executor::BRC20ExecutionMessage;
use brc20_swap::operation::{BRC20Operation, CreateModule, Init, Transfer, Withdraw};
use brc20_swap::state::SwapState;
use brc20_swap::ticker::BRC20Ticker;

const ALICE: &str = "bc1qam880mjcygnkjny5km39vut89vsnq7yun4nr73";
const BOB: &str = "bc1qhvd6suvqzjcu9pxjhrwhtrlj85ny3n2mqql5w4";
const E18: u128 = 1_000_000_000_000_000_000;
const MODULE_TX: [u8; 32] = [7; 32];

fn owner(a: &str) -> UtxoAddress {
    UtxoAddress::from_str(a, &Chain::Mainnet).unwrap()
}

fn ticker(name: &str) -> BRC20Ticker {
    BRC20Ticker::from_str(name).unwrap()
}

fn module_id() -> String {
    InscriptionId { txid: MODULE_TX, index: 0 }.to_string()
}

fn at(tx: u8) -> SatPoint {
    SatPoint { txid: [tx; 32], vout: 0, offset: 0 }
}

fn message(tx: u8, old: SatPoint, sender: &str, receiver: Option<UtxoAddress>, operation: BRC20Operation) -> BRC20ExecutionMessage {
    BRC20ExecutionMessage {
        txid: [tx; 32],
        inscription_id: InscriptionId { txid: [tx; 32], index: 0 },
        sequence_number: tx as u32,
        inscription_number: tx as i32,
        old_satpoint: old,
        new_satpoint: at(tx),
        sender: owner(sender),
        receiver,
        operation,
    }
}

fn ticker_info(name: &str) -> BRC20TickerInfo {
    BRC20TickerInfo {
        ticker: ticker(name),
        sequence_number: 0,
        inscription_number: 0,
        inscription_id: InscriptionId { txid: [0; 32], index: 0 },
        total_supply: 21_000_000 * E18,
        burned: 0,
        minted: 0,
        max_mint_limit: 21_000_000 * E18,
        decimals: 18,
        deployer: owner(ALICE),
        self_minted: false,
        deployed_block_height: 1,
        deployed_timestamp: 0,
        latest_minted_block_height: 1,
    }
}

fn setup() -> SwapState {
    let mut ctx = SwapState::new();
    for t in ["ORDI", "SATS", "dogecat"] {
        ctx.update_brc20_ticker_info(&ticker(t), ticker_info(t));
    }
    let op = BRC20Operation::CreateModule(CreateModule {
        name: "swap".to_string(),
        source: "src1".to_string(),
        init: Init {
            swap_fee_rate: "0".to_string(),
            gas_tick: "SATS".to_string(),
            gas_to: BOB.to_string(),
            fee_to: BOB.to_string(),
            sequencer: ALICE.to_string(),
        },
    });
    let mut m = message(7, at(7), ALICE, None, op);
    m.inscription_id = InscriptionId { txid: MODULE_TX, index: 0 };
    assert!(matches!(m.execute(&Chain::Mainnet, &"src1".to_string(), &mut ctx, 900_000), Executed::Done(_)));
    ctx
}

fn withdraw(amt: &str) -> Withdraw {
    Withdraw {
        p: "brc20-swap".to_string(),
        op: "withdraw".to_string(),
        tick: "dogecat".to_string(),
        amt: amt.to_string(),
        module: module_id(),
    }
}

#[test]
fn withdrawal_moves_available_module_balance_to_the_recipient() {
    let mut ctx = setup();
    let mid = module_id();
    ctx.update_brc20_module_address_token_balance(
        &owner(ALICE),
        &mid,
        &ticker("dogecat"),
        BRC20ModuleTokenBalance {
            swap_account_balance: Brc20Decimal::from_u128(0, 18).unwrap(),
            available_balance: Brc20Decimal::from_u128(5 * E18, 18).unwrap(),
            pending_withdrawal_amount: Brc20Decimal::from_u128(0, 18).unwrap(),
        },
    );

    let inscribed = message(20, at(19), ALICE, Some(owner(ALICE)), BRC20Operation::Withdraw(withdraw("2")));
    match inscribed.execute(&Chain::Mainnet, &"src1".to_string(), &mut ctx, 900_000) {
        Executed::Done(r) => assert!(r.result.is_ok(), "{:?}", r.result),
        other => panic!("unexpected: {:?}", other),
    }
    let b = ctx.load_brc20_module_address_token_balance(&owner(ALICE), &mid, &ticker("dogecat")).unwrap();
    assert_eq!(b.pending_withdrawal_amount.to_u128(), (2 * E18, 18));
    assert!(ctx.load_brc20_module_inscribe_withdraw(at(20)).is_some());

    let moved = message(21, at(20), ALICE, Some(owner(BOB)), BRC20Operation::TransferWithdraw(withdraw("2")));
    match moved.execute(&Chain::Mainnet, &"src1".to_string(), &mut ctx, 900_000) {
        Executed::Done(r) => assert!(r.result.is_ok(), "{:?}", r.result),
        other => panic!("unexpected: {:?}", other),
    }
    let b = ctx.load_brc20_module_address_token_balance(&owner(ALICE), &mid, &ticker("dogecat")).unwrap();
    assert_eq!(b.pending_withdrawal_amount.to_u128(), (0, 18));
    assert_eq!(b.available_balance.to_u128(), (3 * E18, 18));
    let bob = ctx.load_brc20_balance(&owner(BOB), &ticker("dogecat")).unwrap();
    assert_eq!((bob.total, bob.available), (2 * E18, 2 * E18));
    assert!(ctx.load_brc20_module_inscribe_withdraw(at(20)).is_none());

    // the same withdrawal cannot be moved twice
    let again = message(22, at(20), ALICE, Some(owner(BOB)), BRC20Operation::TransferWithdraw(withdraw("2")));
    match again.execute(&Chain::Mainnet, &"src1".to_string(), &mut ctx, 900_000) {
        Executed::Done(r) => assert!(matches!(r.result, Err(BRC20Error::InscribeWithdrawNotFound(_)))),
        other => panic!("unexpected: {:?}", other),
    }
}

#[test]
fn withdrawal_of_an_unknown_module_is_refused() {
    let mut ctx = setup();
    let mut w = withdraw("2");
    w.module = InscriptionId { txid: [1; 32], index: 0 }.to_string();
    let inscribed = message(20, at(19), ALICE, Some(owner(ALICE)), BRC20Operation::Withdraw(w));
    match inscribed.execute(&Chain::Mainnet, &"src1".to_string(), &mut ctx, 900_000) {
        Executed::Done(r) => assert!(matches!(r.result, Err(BRC20Error::ModuleNotExists(_)))),
        other => panic!("unexpected: {:?}", other),
    }
}

#[test]
fn inscribed_transfer_sets_aside_an_available_amount() {
    let mut ctx = setup();
    ctx.update_brc20_balance(
        &owner(ALICE),
        &ticker("ORDI"),
        BRC20Balance { ticker: ticker("ORDI"), total: 10 * E18, available: 10 * E18 },
    );
    let op = BRC20Operation::InscribeTransfer {
        signer: None,
        transfer: Transfer { tick: "ORDI".to_string(), amount: "4".to_string() },
    };
    let m = message(30, at(29), ALICE, Some(owner(ALICE)), op);
    match m.execute(&Chain::Mainnet, &"src1".to_string(), &mut ctx, 900_000) {
        Executed::Done(r) => assert!(r.result.is_ok(), "{:?}", r.result),
        other => panic!("unexpected: {:?}", other),
    }
    let b = ctx.load_brc20_balance(&owner(ALICE), &ticker("ORDI")).unwrap();
    assert_eq!((b.total, b.available), (10 * E18, 6 * E18));
    let asset = ctx.load_brc20_transferring_asset(at(30)).unwrap();
    assert_eq!(asset.amount, 4 * E18);

    let op = BRC20Operation::InscribeTransfer {
        signer: None,
        transfer: Transfer { tick: "ORDI".to_string(), amount: "20".to_string() },
    };
    let m = message(31, at(29), ALICE, Some(owner(ALICE)), op);
    match m.execute(&Chain::Mainnet, &"src1".to_string(), &mut ctx, 900_000) {
        Executed::Done(r) => assert!(matches!(r.result, Err(BRC20Error::InsufficientBalance(_, _)))),
        other => panic!("unexpected: {:?}", other),
    }
}
