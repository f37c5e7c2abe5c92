use brc20_swap::address::{AddressError, UtxoAddress};
use brc20_swap::chain::Chain;
use brc20_swap::utils::get_module_from_script;

#[test]
fn test_get_module_from_script() {
    let binding =
        hex::decode("6a2095ee19329a210f8d5ded9b5cfa55b74fdd3b1e9af1e202072db6d1be82d45bfd").unwrap();
    let script = binding.as_slice();
    let receive = UtxoAddress::from_script(script, &Chain::Mainnet);

    let binding = receive.to_script(&Chain::Mainnet);
    let new_script = binding.as_slice();
    assert_eq!(script, new_script);
    println!("script_buf: {:?}", new_script.to_vec());
    let module_id = get_module_from_script(&receive.to_script(&Chain::Mainnet)).unwrap();
    assert_eq!(
        module_id,
        "fd5bd482bed1b62d0702e2f19a1e3bdd4fb755fa5c9bed5d8d0f219a3219ee95i0",
    );
}

#[test]
fn test_from_script_with_valid_address() {
    let address = UtxoAddress::from_str("bc1qhvd6suvqzjcu9pxjhrwhtrlj85ny3n2mqql5w4", &Chain::Mainnet).unwrap();
    let script = address.to_script(&Chain::Mainnet);
    assert_eq!(UtxoAddress::from_script(script.as_slice(), &Chain::Mainnet), address);
}

#[test]
fn test_from_script_with_non_op_return_script() {
    let hex_script = hex::decode(
        "0014017fed86bba5f31f955f8b316c7fb9bd45cb6cbc00000000000000000000000000000000000000",
    )
    .expect("Failed to decode hex script");
    let script = hex_script.as_slice();

    assert_eq!(
        UtxoAddress::from_script(script, &Chain::Mainnet),
        UtxoAddress::ScriptHash {
            script_hash: hex::decode("df65c8a338dce7900824e7bd18c336656ca19e57")
                .expect("Failed to parse script hash"),
            op_return: false,
            script_buf: hex_script.clone(),
        }
    );
}

#[test]
fn test_from_script_with_op_return_script() {
    let hex_script =
        hex::decode("6a0b68656c6c6f20776f726c64").expect("Failed to decode hex script");
    let script = hex_script.as_slice();

    assert_eq!(
        UtxoAddress::from_script(script, &Chain::Mainnet),
        UtxoAddress::ScriptHash {
            script_hash: hex::decode("70c382a01444e96a1fd2eeb9041bdef603e0c410")
                .expect("Failed to parse script hash"),
            op_return: true,
            script_buf: hex_script.clone(),
        }
    );
}

#[test]
fn test_get_script_by_str() {
    let address =
        UtxoAddress::from_str("bc1qam880mjcygnkjny5km39vut89vsnq7yun4nr73", &Chain::Mainnet).unwrap();
    let script =
        UtxoAddress::get_script_by_str("bc1qam880mjcygnkjny5km39vut89vsnq7yun4nr73", &Chain::Mainnet)
            .unwrap();
    println!("script: {:?}", script);

    let addree_from_script = UtxoAddress::from_script(script.as_slice(), &Chain::Mainnet);

    assert_eq!(address, addree_from_script);

    let sb = hex::decode("0014eece77ee582227694c94b6e25671672b2130789c").unwrap();
    let addree_from_str_script = UtxoAddress::from_script(sb.as_slice(), &Chain::Mainnet);

    assert_eq!(address, addree_from_str_script);
}

#[test]
fn test_add_liq() {
    let chain = Chain::Mainnet;
    let mut zero = vec![0x6au8, 0x20];
    zero.extend_from_slice(&[0u8; 32]);
    let address = UtxoAddress::from_script(&zero, &chain);
    println!("address: {:?}", address);
    assert!(address.op_return());
}

#[test]
fn address_of_another_network_is_refused() {
    let r = UtxoAddress::from_str("bc1qam880mjcygnkjny5km39vut89vsnq7yun4nr73", &Chain::Testnet);
    assert!(matches!(r, Err(AddressError::Invalid(_))));
    let r = UtxoAddress::get_script_by_str("not an address", &Chain::Mainnet);
    assert!(matches!(r, Err(AddressError::Invalid(_))));
}

#[test]
fn address_sameness_follows_identity() {
    let a = UtxoAddress::from_str("bc1qam880mjcygnkjny5km39vut89vsnq7yun4nr73", &Chain::Mainnet).unwrap();
    let b = UtxoAddress::from_str("bc1qhvd6suvqzjcu9pxjhrwhtrlj85ny3n2mqql5w4", &Chain::Mainnet).unwrap();
    assert!(a.same(&a.copy()));
    assert!(!a.same(&b));
    assert!(!a.op_return());
}

#[test]
fn module_script_must_have_the_right_shape() {
    // too short
    assert_eq!(get_module_from_script(&[0x6a, 0x01, 0x00]), Err(false));
    // not OP_RETURN
    let mut s = hex::decode("6a2095ee19329a210f8d5ded9b5cfa55b74fdd3b1e9af1e202072db6d1be82d45bfd").unwrap();
    s[0] = 0x51;
    assert_eq!(get_module_from_script(&s), Err(false));
    // an index byte after the hash
    let mut s = hex::decode("6a2195ee19329a210f8d5ded9b5cfa55b74fdd3b1e9af1e202072db6d1be82d45bfd").unwrap();
    s.push(3);
    assert_eq!(
        get_module_from_script(&s).unwrap(),
        "fd5bd482bed1b62d0702e2f19a1e3bdd4fb755fa5c9bed5d8d0f219a3219ee95i3"
    );
}
