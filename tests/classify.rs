use dex_arbitrage::{
    classify_transaction, get_dex_routers, get_mev_searchers, identify_dex_swaps,
    method_signatures, Address, ReferenceData, SwapDirection, Transaction,
};

fn uniswap_v2() -> Address {
    Address {
        bytes: [
            0x7a, 0x25, 0x0d, 0x56, 0x30, 0xb4, 0xcf, 0x53, 0x97, 0x39, 0xdf, 0x2c, 0x5d, 0xac,
            0xb4, 0xc6, 0x59, 0xf2, 0x48, 0x8d,
        ],
    }
}

fn sushiswap() -> Address {
    Address {
        bytes: [
            0xd9, 0xe1, 0xce, 0x17, 0xf2, 0x64, 0x1f, 0x24, 0xae, 0x83, 0x63, 0x7a, 0xb6, 0x6a,
            0x2c, 0xca, 0x9c, 0x37, 0x8b, 0x9f,
        ],
    }
}

fn uniswap_v3() -> Address {
    Address {
        bytes: [
            0xe5, 0x92, 0x42, 0x7a, 0x0a, 0xec, 0xe9, 0x2d, 0xe3, 0xed, 0xee, 0x1f, 0x18, 0xe0,
            0x15, 0x7c, 0x05, 0x86, 0x15, 0x64,
        ],
    }
}

fn account(n: u8) -> Address {
    let mut bytes = [0u8; 20];
    bytes[19] = n;
    Address { bytes }
}

fn tx(from: Address, to: Option<Address>, input: Vec<u8>) -> Transaction {
    Transaction { from, to, input }
}

#[test]
fn router_table_has_three_exchanges() {
    let routers = get_dex_routers();
    assert_eq!(routers.len(), 3);
    assert_eq!(routers[0].address.bytes, uniswap_v2().bytes);
    assert_eq!(routers[0].name, "Uniswap V2");
    assert_eq!(routers[1].address.bytes, sushiswap().bytes);
    assert_eq!(routers[1].name, "Sushiswap");
    assert_eq!(routers[2].address.bytes, uniswap_v3().bytes);
    assert_eq!(routers[2].name, "Uniswap V3");
}

#[test]
fn searcher_table_has_two_addresses() {
    let searchers = get_mev_searchers();
    assert_eq!(searchers.len(), 2);
    assert_eq!(searchers[0].bytes[6], 0x08);
    assert_eq!(searchers[0].bytes[19], 0x84);
    assert_eq!(searchers[1].bytes[0], 0xc0);
    assert_eq!(searchers[1].bytes[19], 0xc2);
}

#[test]
fn signature_table_has_four_selectors() {
    let sigs = method_signatures();
    assert_eq!(sigs.len(), 4);
    assert_eq!(sigs[0].selector, [0x7f, 0xf3, 0x6a, 0xb5]);
    assert_eq!(sigs[0].direction, SwapDirection::EthToToken);
    assert_eq!(sigs[1].selector, [0x18, 0xcb, 0xaf, 0xe5]);
    assert_eq!(sigs[1].direction, SwapDirection::TokenToEth);
    assert_eq!(sigs[2].selector, [0xfb, 0x3b, 0xdb, 0x41]);
    assert_eq!(sigs[2].direction, SwapDirection::EthToTokenExact);
    assert_eq!(sigs[3].selector, [0x4a, 0x25, 0xd9, 0x4a]);
    assert_eq!(sigs[3].direction, SwapDirection::TokenToEthExact);
}

#[test]
fn exchange_name_lookup() {
    let refs = ReferenceData::standard();
    assert_eq!(refs.exchange_name_for(&sushiswap()), Some("Sushiswap".to_string()));
    assert_eq!(refs.exchange_name_for(&uniswap_v3()), Some("Uniswap V3".to_string()));
    assert_eq!(refs.exchange_name_for(&account(1)), None);
}

#[test]
fn swap_direction_lookup() {
    let refs = ReferenceData::standard();
    assert_eq!(refs.swap_direction_for(&[0x7f, 0xf3, 0x6a, 0xb5]), SwapDirection::EthToToken);
    assert_eq!(refs.swap_direction_for(&[0x18, 0xcb, 0xaf, 0xe5]), SwapDirection::TokenToEth);
    assert_eq!(refs.swap_direction_for(&[0xfb, 0x3b, 0xdb, 0x41]), SwapDirection::EthToTokenExact);
    assert_eq!(refs.swap_direction_for(&[0x4a, 0x25, 0xd9, 0x4a]), SwapDirection::TokenToEthExact);
    assert_eq!(refs.swap_direction_for(&[0x00, 0x00, 0x00, 0x00]), SwapDirection::Unknown);
}

#[test]
fn direction_labels() {
    assert_eq!(SwapDirection::EthToToken.label(), "ETH->Token");
    assert_eq!(SwapDirection::TokenToEth.label(), "Token->ETH");
    assert_eq!(SwapDirection::EthToTokenExact.label(), "ETH->Token(Exact)");
    assert_eq!(SwapDirection::TokenToEthExact.label(), "Token->ETH(Exact)");
    assert_eq!(SwapDirection::Unknown.label(), "Unknown Swap");
}

#[test]
fn direction_prefixes() {
    assert!(SwapDirection::EthToToken.spends_eth());
    assert!(SwapDirection::EthToTokenExact.spends_eth());
    assert!(!SwapDirection::TokenToEth.spends_eth());
    assert!(!SwapDirection::Unknown.spends_eth());
    assert!(SwapDirection::TokenToEth.returns_eth());
    assert!(SwapDirection::TokenToEthExact.returns_eth());
    assert!(!SwapDirection::EthToToken.returns_eth());
    assert!(!SwapDirection::Unknown.returns_eth());
}

#[test]
fn address_equality_and_copy() {
    assert!(uniswap_v2().same_as(&uniswap_v2()));
    assert!(!uniswap_v2().same_as(&sushiswap()));
    let t = tx(account(7), Some(uniswap_v2()), vec![1, 2, 3, 4, 5]);
    let c = t.duplicate();
    assert_eq!(c.from.bytes, t.from.bytes);
    assert_eq!(c.to.map(|a| a.bytes), t.to.map(|a| a.bytes));
    assert_eq!(c.input, t.input);
}

#[test]
fn contract_creation_is_excluded() {
    let refs = ReferenceData::standard();
    let t = tx(account(1), None, vec![0x7f, 0xf3, 0x6a, 0xb5, 0x00]);
    assert!(classify_transaction(&refs, &t).is_none());
    assert!(identify_dex_swaps(&refs, &[t]).is_empty());
}

#[test]
fn short_call_data_is_excluded() {
    let refs = ReferenceData::standard();
    let batch = vec![
        tx(account(1), Some(uniswap_v2()), vec![]),
        tx(account(1), Some(uniswap_v2()), vec![0x7f]),
        tx(account(1), Some(uniswap_v2()), vec![0x7f, 0xf3, 0x6a]),
    ];
    assert!(identify_dex_swaps(&refs, &batch).is_empty());
}

#[test]
fn exactly_four_bytes_is_enough() {
    let refs = ReferenceData::standard();
    let batch = vec![tx(account(1), Some(sushiswap()), vec![0x18, 0xcb, 0xaf, 0xe5])];
    let swaps = identify_dex_swaps(&refs, &batch);
    assert_eq!(swaps.len(), 1);
    assert_eq!(swaps[0].exchange, "Sushiswap");
    assert_eq!(swaps[0].direction, SwapDirection::TokenToEth);
}

#[test]
fn unknown_recipient_is_excluded() {
    let refs = ReferenceData::standard();
    let batch = vec![tx(account(1), Some(account(9)), vec![0x7f, 0xf3, 0x6a, 0xb5])];
    assert!(identify_dex_swaps(&refs, &batch).is_empty());
}

#[test]
fn exact_eth_for_tokens_is_eth_to_token() {
    let refs = ReferenceData::standard();
    let t = tx(account(1), Some(uniswap_v2()), vec![0x7f, 0xf3, 0x6a, 0xb5, 0xaa, 0xbb]);
    let swap = classify_transaction(&refs, &t).unwrap();
    assert_eq!(swap.exchange, "Uniswap V2");
    assert_eq!(swap.direction, SwapDirection::EthToToken);
    assert_eq!(swap.direction.label(), "ETH->Token");
    assert_eq!(swap.transaction.input, t.input);
}

#[test]
fn unrecognized_selector_is_unknown_swap() {
    let refs = ReferenceData::standard();
    let t = tx(account(1), Some(uniswap_v3()), vec![0x41, 0x4b, 0xf3, 0x89, 0x01]);
    let swaps = identify_dex_swaps(&refs, &[t]);
    assert_eq!(swaps.len(), 1);
    assert_eq!(swaps[0].exchange, "Uniswap V3");
    assert_eq!(swaps[0].direction, SwapDirection::Unknown);
    assert_eq!(swaps[0].direction.label(), "Unknown Swap");
}

#[test]
fn output_keeps_input_order() {
    let refs = ReferenceData::standard();
    let batch = vec![
        tx(account(1), Some(sushiswap()), vec![0x18, 0xcb, 0xaf, 0xe5]),
        tx(account(2), None, vec![0x7f, 0xf3, 0x6a, 0xb5]),
        tx(account(3), Some(uniswap_v2()), vec![0xfb, 0x3b, 0xdb, 0x41]),
        tx(account(4), Some(uniswap_v2()), vec![0x01]),
        tx(account(5), Some(uniswap_v3()), vec![0x4a, 0x25, 0xd9, 0x4a]),
    ];
    let swaps = identify_dex_swaps(&refs, &batch);
    let senders: Vec<u8> = swaps.iter().map(|s| s.transaction.from.bytes[19]).collect();
    assert_eq!(senders, vec![1, 3, 5]);
    assert_eq!(swaps[0].direction, SwapDirection::TokenToEth);
    assert_eq!(swaps[1].direction, SwapDirection::EthToTokenExact);
    assert_eq!(swaps[2].direction, SwapDirection::TokenToEthExact);
}

#[test]
fn injected_tables_are_used() {
    let refs = ReferenceData {
        routers: vec![dex_arbitrage::RouterEntry { address: account(9), name: "Local".to_string() }],
        signatures: vec![dex_arbitrage::MethodSignature {
            selector: [1, 2, 3, 4],
            direction: SwapDirection::TokenToEth,
        }],
        searchers: vec![],
    };
    let batch = vec![
        tx(account(1), Some(account(9)), vec![1, 2, 3, 4]),
        tx(account(1), Some(uniswap_v2()), vec![0x7f, 0xf3, 0x6a, 0xb5]),
    ];
    let swaps = identify_dex_swaps(&refs, &batch);
    assert_eq!(swaps.len(), 1);
    assert_eq!(swaps[0].exchange, "Local");
    assert_eq!(swaps[0].direction, SwapDirection::TokenToEth);
}

#[test]
fn empty_batch_gives_no_swaps() {
    let refs = ReferenceData::standard();
    assert!(identify_dex_swaps(&refs, &[]).is_empty());
}
