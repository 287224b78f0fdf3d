use indexer::config::{ChainConfig, Config, ContractConfig, EventConfig, GeneralConfig, StorageConfig};
use indexer::decoder::{build_log_filter, parse_hex_bytes, AllowList, ConfigError, EventRegistry};
use indexer::listener::{choose_window, next_cursor, BlockWindow};

const UOE_SIG: &str = "0x49628fd1471006c1482da88028e9ce4dbb080b815c9b0344d39e5a8e6ec1419f";
const GBD_SIG: &str = "0x1111111111111111111111111111111111111111111111111111111111111111";
const PAYMASTER: &str = "0x00000000000000000000000000000000000000aa";

fn chain(buffer: u64, polling: u64, use_finalized: bool) -> ChainConfig {
    ChainConfig {
        active: true,
        rpc_url: "http://localhost:8545".to_string(),
        chain_id: 1,
        block_time: 2,
        polling_blocks: polling,
        reorg_buffer: buffer,
        use_finalized,
        contracts: vec![ContractConfig {
            name: "Paymaster".to_string(),
            address: PAYMASTER.to_string(),
            events: vec![
                EventConfig {
                    signature: GBD_SIG.to_string(),
                    name: "GasBalanceDeducted".to_string(),
                    params: vec!["address".to_string(), "uint256".to_string()],
                },
                EventConfig {
                    signature: UOE_SIG.to_string(),
                    name: "UserOperationEvent".to_string(),
                    params: vec![],
                },
            ],
        }],
    }
}

fn config(chains: Vec<(String, ChainConfig)>) -> Config {
    Config {
        general: GeneralConfig { indexer_name: "test".to_string() },
        chains,
        storage: StorageConfig {
            kafka_broker: "localhost:9092".to_string(),
            kafka_topics: vec!["userops".to_string()],
            kafka_group_id: "indexer".to_string(),
            timescale_db_url: "postgres://localhost/db".to_string(),
            redis_url: "redis://localhost/".to_string(),
        },
    }
}

#[test]
fn cold_start_window() {
    let w = choose_window(1000, None, None, &chain(5, 50, false));
    assert_eq!(w, Some(BlockWindow { from: 945, to: 995 }));
}

#[test]
fn caught_up_cursor_skips_the_pass() {
    assert_eq!(choose_window(1000, None, Some(995), &chain(5, 50, false)), None);
    assert_eq!(
        choose_window(1001, None, Some(995), &chain(5, 50, false)),
        Some(BlockWindow { from: 996, to: 996 })
    );
}

#[test]
fn finalized_block_bounds_the_window_when_enabled() {
    assert_eq!(
        choose_window(1000, Some(900), Some(800), &chain(5, 50, true)),
        Some(BlockWindow { from: 801, to: 900 })
    );
    assert_eq!(
        choose_window(1000, Some(900), Some(800), &chain(5, 50, false)),
        Some(BlockWindow { from: 801, to: 995 })
    );
    assert_eq!(
        choose_window(1000, None, Some(800), &chain(5, 50, true)),
        Some(BlockWindow { from: 801, to: 995 })
    );
}

#[test]
fn window_saturates_near_genesis() {
    assert_eq!(choose_window(3, None, None, &chain(5, 50, false)), Some(BlockWindow { from: 0, to: 0 }));
    assert_eq!(choose_window(u64::MAX, None, Some(u64::MAX), &chain(0, 50, false)), None);
}

#[test]
fn empty_pass_advances_cursor_to_window_end() {
    let w = BlockWindow { from: 945, to: 995 };
    assert_eq!(next_cursor(&vec![], w, true), Some(995));
}

#[test]
fn cursor_moves_to_highest_block_seen() {
    let w = BlockWindow { from: 900, to: 995 };
    assert_eq!(next_cursor(&vec![Some(950), None, Some(960), Some(955)], w, true), Some(960));
    assert_eq!(next_cursor(&vec![None, None], w, true), None);
    assert_eq!(next_cursor(&vec![Some(950)], w, false), None);
}

#[test]
fn cursor_never_moves_back() {
    let mut cursor = 900u64;
    let passes: Vec<Vec<Option<u64>>> = vec![vec![Some(901), Some(930)], vec![], vec![Some(1010)]];
    let mut latest = 1000u64;
    for blocks in passes {
        let w = choose_window(latest, None, Some(cursor), &chain(5, 50, false)).unwrap();
        let blocks: Vec<Option<u64>> = blocks.into_iter().filter(|b| b.map_or(true, |n| n >= w.from && n <= w.to)).collect();
        if let Some(c) = next_cursor(&blocks, w, true) {
            assert!(c > cursor);
            cursor = c;
        }
        latest += 10;
    }
    assert_eq!(cursor, 1010);
}

#[test]
fn hex_bytes_read_with_or_without_prefix() {
    assert_eq!(parse_hex_bytes("0x0aFf", 2), Some(vec![0x0a, 0xff]));
    assert_eq!(parse_hex_bytes("0aff", 2), Some(vec![0x0a, 0xff]));
    assert_eq!(parse_hex_bytes("0x0aff", 3), None);
    assert_eq!(parse_hex_bytes("0xzzzz", 2), None);
}

#[test]
fn registry_maps_topics_to_names() {
    let cfg = config(vec![("mainnet".to_string(), chain(5, 50, false))]);
    let reg = EventRegistry::from_config(&cfg).unwrap();
    let topic = parse_hex_bytes(UOE_SIG, 32).unwrap();
    assert_eq!(reg.lookup(&topic), Some("UserOperationEvent".to_string()));
    let other = parse_hex_bytes(GBD_SIG, 32).unwrap();
    assert_eq!(reg.lookup(&other), Some("GasBalanceDeducted".to_string()));
    assert_eq!(reg.lookup(&vec![0u8; 32]), None);
}

#[test]
fn later_event_row_wins() {
    let mut c = chain(5, 50, false);
    c.contracts[0].events[1].signature = GBD_SIG.to_string();
    let cfg = config(vec![("mainnet".to_string(), c)]);
    let reg = EventRegistry::from_config(&cfg).unwrap();
    let topic = parse_hex_bytes(GBD_SIG, 32).unwrap();
    assert_eq!(reg.lookup(&topic), Some("UserOperationEvent".to_string()));
}

#[test]
fn invalid_signature_is_refused() {
    let mut c = chain(5, 50, false);
    c.contracts[0].events[0].signature = "0x1234".to_string();
    let cfg = config(vec![("mainnet".to_string(), c)]);
    match EventRegistry::from_config(&cfg) {
        Err(ConfigError::InvalidSignature { text }) => assert_eq!(text, "0x1234"),
        _ => panic!("expected an invalid signature"),
    }
}

#[test]
fn allowlist_is_per_chain() {
    let mut other = chain(5, 50, false);
    other.chain_id = 137;
    other.contracts[0].address = "not an address".to_string();
    let cfg = config(vec![("mainnet".to_string(), chain(5, 50, false)), ("polygon".to_string(), other)]);
    let allow = AllowList::from_config(&cfg);
    let pm = parse_hex_bytes(PAYMASTER, 20).unwrap();
    assert!(allow.is_allowed(1, &pm));
    assert!(!allow.is_allowed(137, &pm));
    assert!(!allow.is_allowed(1, &vec![0xde; 20]));
}

#[test]
fn log_filter_covers_contracts_and_events() {
    let w = BlockWindow { from: 945, to: 995 };
    let f = build_log_filter(&chain(5, 50, false), w).unwrap();
    assert_eq!(f.window, w);
    assert_eq!(f.addresses, vec![parse_hex_bytes(PAYMASTER, 20).unwrap()]);
    assert_eq!(f.topics.len(), 2);
    assert_eq!(f.topics[1].signature, parse_hex_bytes(UOE_SIG, 32).unwrap());
    let mut bad = chain(5, 50, false);
    bad.contracts[0].address = "0x1234".to_string();
    match build_log_filter(&bad, w) {
        Err(ConfigError::InvalidAddress { text }) => assert_eq!(text, "0x1234"),
        _ => panic!("expected an invalid address"),
    }
}
