use brc20_swap::decimal::Brc20Decimal;
use brc20_swap::entry::BRC20ModuleInfo;
use brc20_swap::ticker::{BRC20LowerCaseTicker, BRC20Ticker, Error};
use brc20_swap::utils::{decode_tokens_from_swap_pair, get_valid_unique_lower_ticker};

#[test]
fn test_ticker_from_str_valid_bytes() {
    assert!(BRC20Ticker::from_str("BTC").is_err()); // length is less than MIN_SIZE
    assert!(BRC20Ticker::from_str("BITOIN").is_err()); // length is greater than MAX_SIZE

    assert_eq!(BRC20Ticker::from_str("ORDI").unwrap().to_string(), "ORDI"); // length is 4 bytes
    assert_eq!(BRC20Ticker::from_str("USDTS").unwrap().to_string(), "USDTS"); // length is 5 bytes
}

#[test]
fn test_ticker_from_str_invalid_bytes() {
    assert_eq!(BRC20Ticker::from_str(""), Err(Error::Range));
    assert_eq!(BRC20Ticker::from_str("XAİİ"), Err(Error::Range));
}

#[test]
fn test_ticker_from_str_valid() {
    // 4 bytes
    assert!(BRC20Ticker::from_str("XAİ").is_ok());
    assert!(BRC20Ticker::from_str("X。").is_ok());
    assert!(BRC20Ticker::from_str("aBc1").is_ok());
    assert!(BRC20Ticker::from_str("ατ").is_ok());
    assert!(BRC20Ticker::from_str("∑i").is_ok());
    assert!(BRC20Ticker::from_str("⊢i").is_ok());
    assert!(BRC20Ticker::from_str("≯a").is_ok());

    // 5 bytes
    assert!(BRC20Ticker::from_str("∑ii").is_ok());
    assert!(BRC20Ticker::from_str("⊢ii").is_ok());
    assert!(BRC20Ticker::from_str("a≯a").is_ok());
}

#[test]
fn test_ticker_from_str_invalid() {
    assert_eq!(BRC20Ticker::from_str(""), Err(Error::Range));
    assert_eq!(BRC20Ticker::from_str("BTC"), Err(Error::Range));
    assert_eq!(BRC20Ticker::from_str("BITCOI"), Err(Error::Range));
    assert_eq!(BRC20Ticker::from_str("XAİİ"), Err(Error::Range));
}

#[test]
fn test_ticker_to_lowercase() {
    assert_eq!(
        BRC20Ticker::from_str("aBc1").unwrap().to_lowercase().to_string(),
        "abc1"
    );
    assert_eq!(
        BRC20Ticker::from_str("XAİ").unwrap().to_lowercase().to_string(),
        "xai\u{307}"
    );
    assert_eq!(
        BRC20Ticker::from_str("ατ").unwrap().to_lowercase().to_string(),
        "ατ"
    );
    assert_eq!(
        BRC20Ticker::from_str("∑H").unwrap().to_lowercase().to_string(),
        "∑h"
    );
    assert_eq!(
        BRC20Ticker::from_str("⊢I").unwrap().to_lowercase().to_string(),
        "⊢i"
    );
    assert_eq!(
        BRC20Ticker::from_str("≯A").unwrap().to_lowercase().to_string(),
        "≯a"
    );
}

#[test]
fn test_lowercase_ticker_display() {
    let lower = BRC20LowerCaseTicker::from_bytes(b"ordi".to_vec()).unwrap();
    assert_eq!(format!("{}", lower.to_string()), "ordi");

    let lower = BRC20LowerCaseTicker::from_bytes(b"sats".to_vec()).unwrap();
    assert_eq!(format!("{}", lower.to_string()), "sats");
}

#[test]
fn test_ticker_display() {
    let ticker = BRC20Ticker::from_str("ORDI").unwrap();
    assert_eq!(format!("{}", ticker.to_string()), "ORDI");

    let ticker = BRC20Ticker::from_str("SATS").unwrap();
    assert_eq!(format!("{}", ticker.to_string()), "SATS");
}

#[test]
fn test_ticker_len() {
    let ticker = BRC20Ticker::from_str("BTCD").unwrap();
    assert_eq!(ticker.len(), 4);

    let ticker = BRC20Ticker::from_str("USDTU").unwrap();
    assert_eq!(ticker.len(), 5);
}

#[test]
fn test_ticker_equality() {
    let ticker1 = BRC20Ticker::from_str("BTCD").unwrap();
    let ticker2 = BRC20Ticker::from_str("BTCD").unwrap();
    let ticker3 = BRC20Ticker::from_str("USDT").unwrap();

    assert_eq!(ticker1, ticker2);
    assert_ne!(ticker1, ticker3);
}

#[test]
fn test_ticker_ordering() {
    let ticker1 = BRC20Ticker::from_str("BTCD").unwrap();
    let ticker2 = BRC20Ticker::from_str("ETHI").unwrap();
    let ticker3 = BRC20Ticker::from_str("USDTT").unwrap();

    assert!(ticker1 < ticker2);
    assert!(ticker2 < ticker3);
}

#[test]
fn test_error_display() {
    let ticker1 = BRC20Ticker::from_str("BTCDDD");
    assert_eq!(
        format!("{}", ticker1.err().unwrap().to_string()),
        "ticker name out of range"
    );
}

#[test]
fn test_lowercase_ticker_from_bytes() {
    let lower = BRC20LowerCaseTicker::from_bytes(b"ordi".to_vec()).unwrap();
    assert_eq!(lower.to_string(), "ordi");
    let lower = BRC20LowerCaseTicker::from_bytes("xai\u{307}".as_bytes().to_vec()).unwrap();
    assert_eq!(lower.to_string(), "xai\u{307}");
}

#[test]
fn test_ticker_char_validation() {
    assert!(BRC20Ticker::from_str("hello___").is_ok());
    assert!(BRC20Ticker::from_str("hello_world").is_ok());
    assert!(BRC20Ticker::from_str("1029asdf_").is_ok());
    assert!(BRC20Ticker::from_str("&sdfsdf").is_err());
    assert!(BRC20Ticker::from_str("1029a(sdf_").is_err());
    assert!(BRC20Ticker::from_str("!llo_world_").is_err());
    assert!(BRC20Ticker::from_str("GLIZZY_").is_ok());
}

#[test]
fn test_store() {
    let ticker = BRC20Ticker::from_str("aBcD").unwrap();
    let value = ticker.clone().store();
    assert_eq!(value.to_vec(), vec![4, 0, 0, 0, 0, 0, 0, 0, 97, 66, 99, 68]);
    let lower_ticker = ticker.to_lowercase();
    let value = lower_ticker.store();
    assert_eq!(
        value.to_vec(),
        vec![4, 0, 0, 0, 0, 0, 0, 0, 97, 98, 99, 100]
    );
}

#[test]
fn test_load() {
    let value = vec![4, 0, 0, 0, 0, 0, 0, 0, 97, 66, 99, 68];
    let ticker = BRC20Ticker::load(&value).unwrap();
    assert_eq!(ticker, BRC20Ticker::from_str("aBcD").unwrap());
    let value = vec![4, 0, 0, 0, 0, 0, 0, 0, 97, 98, 99, 100];
    let lower_ticker = BRC20LowerCaseTicker::load(&value).unwrap();
    assert_eq!(
        lower_ticker,
        BRC20Ticker::from_str("abcd").unwrap().to_lowercase()
    );
}

#[test]
fn ticker_store_then_load_gives_the_ticker_back() {
    for name in ["valuefractal", "XXAİ", "ordi", "GLIZZY_"] {
        let t = BRC20Ticker::from_str(name).unwrap();
        assert_eq!(BRC20Ticker::load(&t.store()).unwrap(), t);
        let l = t.to_lowercase();
        assert_eq!(BRC20LowerCaseTicker::load(&l.store()).unwrap(), l);
    }
}

#[test]
fn ticker_load_refuses_bad_frames() {
    assert!(BRC20Ticker::load(&[4, 0, 0, 0, 0, 0, 0, 0, 97, 98]).is_none());
    assert!(BRC20Ticker::load(&[3, 0, 0]).is_none());
    // a stored name of a refused length
    assert!(BRC20Ticker::load(&[6, 0, 0, 0, 0, 0, 0, 0, 65, 98, 49, 59, 47, 49]).is_none());
    assert!(BRC20LowerCaseTicker::load(&[2, 0, 0, 0, 0, 0, 0, 0, 0xff, 0xfe]).is_none());
}

#[test]
fn ticker_invalid_char_error() {
    assert_eq!(BRC20Ticker::from_str("&sdfsdf"), Err(Error::InvalidChar));
    assert_eq!(Error::InvalidChar.to_string(), "ticker characters invalid");
    assert_eq!(BRC20Ticker::from_str("abcdefghijklm"), Err(Error::Range));
}

#[test]
fn ticker_lowercase_keeps_bytes_of_to_box() {
    let l = BRC20Ticker::from_str("XXAİ").unwrap().to_lowercase();
    assert_eq!(l.to_box(), vec![120, 120, 97, 105, 204, 135]);
    assert_eq!(l.len(), 6);
}

fn memory_database() -> redb::Database {
    redb::Database::builder()
        .create_with_backend(redb::backends::InMemoryBackend::new())
        .unwrap()
}

#[test]
fn test_lower_case_ticker_as_key() {
    const LOWER_CASE_TICKER: redb::TableDefinition<&[u8], u32> = redb::TableDefinition::new("LOWER_CASE_TICKER");

    let database = memory_database();
    let wtx = database.begin_write().unwrap();
    let mut table = wtx.open_table(LOWER_CASE_TICKER).unwrap();

    let lower_case_ticker = BRC20Ticker::from_str("keys").unwrap().to_lowercase();

    table
        .insert(lower_case_ticker.clone().store().as_slice(), 1)
        .unwrap();

    let retrieved_value = redb::ReadableTable::get(&table, lower_case_ticker.store().as_slice())
        .unwrap()
        .unwrap()
        .value();
    assert_eq!(retrieved_value, 1);
}

#[test]
fn test_lower_case_ticker_as_value() {
    const LOWER_CASE_TICKER: redb::TableDefinition<u32, &[u8]> = redb::TableDefinition::new("LOWER_CASE_TICKER");

    let database = memory_database();
    let wtx = database.begin_write().unwrap();
    let mut table = wtx.open_table(LOWER_CASE_TICKER).unwrap();

    let lower_case_ticker = BRC20Ticker::from_str("value").unwrap().to_lowercase();

    table
        .insert(1, lower_case_ticker.clone().store().as_slice())
        .unwrap();

    let retrieved_value = redb::ReadableTable::get(&table, 1)
        .unwrap()
        .map(|v| BRC20LowerCaseTicker::load(v.value()).unwrap())
        .unwrap();
    assert_eq!(retrieved_value, lower_case_ticker);
}

#[test]
fn test_ticker() {
    const TICKER: redb::TableDefinition<u32, &[u8]> = redb::TableDefinition::new("TICKER");

    let database = memory_database();
    let wtx = database.begin_write().unwrap();
    let mut table = wtx.open_table(TICKER).unwrap();

    let ticker = BRC20Ticker::from_str("valuefractal").unwrap();

    table.insert(1, ticker.clone().store().as_slice()).unwrap();

    let retrieved_value = redb::ReadableTable::get(&table, 1)
        .unwrap()
        .map(|v| BRC20Ticker::load(v.value()).unwrap())
        .unwrap();

    assert_eq!(retrieved_value, ticker);
}

#[test]
fn unique_lower_check_agrees_with_ticker_validation() {
    for name in ["ABCDEFG", "abc_123XY", "Zz0_Zz0_Zz0_"] {
        let unique = get_valid_unique_lower_ticker(name).unwrap();
        let ticker = BRC20Ticker::from_str(name).unwrap();
        assert_eq!(unique, ticker.to_lowercase().to_string());
        assert!(BRC20Ticker::from_str(&unique).is_ok());
    }
    for name in ["ABCDEF-", "abc def", "ABCDEFGHIJKLM"] {
        assert!(get_valid_unique_lower_ticker(name).is_err());
        assert!(BRC20Ticker::from_str(name).is_err());
    }
}

#[test]
fn ticker_pair_round_trip() {
    let (a, b) = decode_tokens_from_swap_pair("abcdefg/HIJKLMNOP").unwrap();
    assert_eq!(a, "abcdefg");
    assert_eq!(b, "HIJKLMNOP");
    assert_eq!(format!("{}/{}", a, b), "abcdefg/HIJKLMNOP");
}

#[test]
fn test_module_info() {
    let module_info = BRC20ModuleInfo {
        id: "ID".to_string(),
        name: "swap".to_string(),
        deployer_pk_script: "bc1qtaf86fqf9hv7r76927fjpxc0mpvedgyp7zjneu".to_string(),
        sequencer_pk_script: "bc1qtaf86fqf9hv7r76927fjpxc0mpvedgyp7zjneu".to_string(),
        gas_to_pk_script: "bc1qam880mjcygnkjny5km39vut89vsnq7yun4nr73".to_string(),
        lp_fee_pk_script: "bc1qaejzncrr87pr7azn9fadwa79cp42acsxeygert".to_string(),
        fee_rate_swap: Brc20Decimal::from_u128(119813216873524654, 12).unwrap(),
        gas_tick: "bSATS_".to_string(),
        chain_commit_id: Some("chain_commit_id".to_string()),
        commit_id: Some("commit_id".to_string()),
    };

    let value = module_info.store();
    let loaded = BRC20ModuleInfo::load(&value).unwrap();
    assert_eq!(module_info.id, loaded.id);
    assert_eq!(module_info.name, loaded.name);
    assert_eq!(module_info.deployer_pk_script, loaded.deployer_pk_script);
    assert_eq!(module_info.sequencer_pk_script, loaded.sequencer_pk_script);
    assert_eq!(module_info.gas_to_pk_script, loaded.gas_to_pk_script);
    assert_eq!(module_info.lp_fee_pk_script, loaded.lp_fee_pk_script);
    assert!(module_info.fee_rate_swap.num_eq(&loaded.fee_rate_swap));
    assert_eq!(module_info.gas_tick, loaded.gas_tick);
    assert_eq!(module_info.chain_commit_id, loaded.chain_commit_id);
    assert_eq!(module_info.commit_id, loaded.commit_id);
}

#[test]
fn module_info_load_refuses_truncated_records() {
    let module_info = BRC20ModuleInfo {
        id: "ID".to_string(),
        name: "swap".to_string(),
        deployer_pk_script: "a".to_string(),
        sequencer_pk_script: "b".to_string(),
        gas_to_pk_script: "c".to_string(),
        lp_fee_pk_script: "d".to_string(),
        fee_rate_swap: Brc20Decimal::from_u128(3, 3).unwrap(),
        gas_tick: "sats".to_string(),
        chain_commit_id: None,
        commit_id: Some("x".to_string()),
    };
    let value = module_info.store();
    let loaded = BRC20ModuleInfo::load(&value).unwrap();
    assert_eq!(loaded.chain_commit_id, None);
    assert_eq!(loaded.fee_rate_swap.to_string(), "0.003");
    assert!(BRC20ModuleInfo::load(&value[..value.len() - 1]).is_none());
    assert!(BRC20ModuleInfo::load(&[]).is_none());
}
