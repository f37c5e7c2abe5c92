use brc20_swap::address::{InscriptionId, SatPoint, UtxoAddress};
use brc20_swap::api::{lp_balance_view, outpoint_result, swap_pool_view, OutPoint};
use brc20_swap::chain::Chain;
use brc20_swap::decimal::Brc20Decimal;
use brc20_swap::entry::{BRC20ModuleLPTokenBalance, BRC20ModulePoolPair, BRC20ModuleSwapPoolPairBalance};
use brc20_swap::ticker::BRC20Ticker;

fn t(name: &str) -> BRC20Ticker {
    BRC20Ticker::from_str(name).unwrap()
}

#[test]
fn lp_balance_view_writes_the_shares_as_text() {
    let pair = BRC20ModulePoolPair::new(&t("SATS"), &t("ORDI"));
    let shares = BRC20ModuleLPTokenBalance::new(
        Brc20Decimal::from_u128(1_500_000_000_000_000_000, 18).unwrap(),
        Brc20Decimal::from_u128(0, 18).unwrap(),
    );
    let v = lp_balance_view("m1".to_string(), &pair, &shares);
    assert_eq!(v.module_id, "m1");
    assert_eq!(v.lp, "ordisats");
    assert_eq!(v.balance, "1.5");
    assert_eq!(v.locked_balance, "0");
}

#[test]
fn swap_pool_view_keeps_the_pool_order() {
    let pair = BRC20ModulePoolPair::new(&t("ORDI"), &t("SATS"));
    let pool = BRC20ModuleSwapPoolPairBalance::new_with_balance(
        t("SATS"),
        t("ORDI"),
        Brc20Decimal::from_u128(25, 1).unwrap(),
        Brc20Decimal::from_u128(7, 0).unwrap(),
    );
    let v = swap_pool_view("m1".to_string(), &pair, &pool);
    assert_eq!(v.ticker_0, "SATS");
    assert_eq!(v.ticker_1, "ORDI");
    assert_eq!(v.ticker_0_balance, "2.5");
    assert_eq!(v.ticker_1_balance, "7");
    assert_eq!(v.lp_balance, "0");
    assert_eq!(v.last_root_k, "0");
}

fn found(n: u32) -> Vec<(SatPoint, InscriptionId, i64)> {
    (0..n)
        .map(|i| {
            (
                SatPoint { txid: [1; 32], vout: 0, offset: i as u64 },
                InscriptionId { txid: [2; 32], index: i },
                100 + i as i64,
            )
        })
        .collect()
}

#[test]
fn outpoint_without_inscriptions_has_no_result() {
    let op = OutPoint { txid: [1; 32], vout: 0 };
    let r = outpoint_result(&op, &vec![], 5000, &[0x6a], &Chain::Mainnet, 812, [9; 32], true);
    assert!(r.result.is_none());
    assert_eq!(r.latest_height, 812);
    assert_eq!(r.latest_blockhash, [9; 32]);
}

#[test]
fn outpoint_lists_all_or_first_digest() {
    let op = OutPoint { txid: [1; 32], vout: 0 };
    let script = hex::decode("0014eece77ee582227694c94b6e25671672b2130789c").unwrap();
    let all = outpoint_result(&op, &found(3), 5000, &script, &Chain::Mainnet, 812, [9; 32], true);
    let x = all.result.unwrap();
    assert_eq!(x.inscription_digest.len(), 3);
    assert_eq!(x.inscription_digest[2].number, 102);
    assert_eq!(x.value, 5000);
    assert_eq!(x.txid, [1; 32]);
    assert_eq!(x.script_pub_key, "OP_0 OP_PUSHBYTES_20 eece77ee582227694c94b6e25671672b2130789c");
    assert_eq!(
        x.owner,
        UtxoAddress::from_str("bc1qam880mjcygnkjny5km39vut89vsnq7yun4nr73", &Chain::Mainnet).unwrap()
    );
    let first = outpoint_result(&op, &found(3), 5000, &script, &Chain::Mainnet, 812, [9; 32], false);
    let y = first.result.unwrap();
    assert_eq!(y.inscription_digest.len(), 1);
    assert_eq!(y.inscription_digest[0].location.offset, 0);
}
