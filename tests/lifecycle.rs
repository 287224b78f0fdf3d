use indexer::json::{JsonObject, JsonValue};
use indexer::cache::{sync_key, RedisCoordinator, RedisStorage};
use indexer::paymaster::{FundType, PaymasterMode};
use indexer::status::Status;
use indexer::text::canonical_hash;

#[test]
fn status_priority_ladder() {
    assert_eq!(Status::Unknown.priority(), 0);
    assert_eq!(Status::Eligible.priority(), 1);
    assert_eq!(Status::Success.priority(), 2);
    assert_eq!(Status::Failed.priority(), 3);
}

#[test]
fn status_read_in_any_case() {
    assert_eq!(Status::from_str_case_insensitive("failed"), Status::Failed);
    assert_eq!(Status::from_str_case_insensitive("SuCcEsS"), Status::Success);
    assert_eq!(Status::from_str_case_insensitive("ELIGIBLE"), Status::Eligible);
    assert_eq!(Status::from_str_case_insensitive("pending"), Status::Unknown);
    assert_eq!(Status::from_str_case_insensitive(""), Status::Unknown);
}

#[test]
fn status_exact_names() {
    assert_eq!(Status::from_name("Failed"), Status::Failed);
    assert_eq!(Status::from_name("Success"), Status::Success);
    assert_eq!(Status::from_name("Eligible"), Status::Eligible);
    assert_eq!(Status::from_name("failed"), Status::Unknown);
    assert_eq!(Status::Failed.to_string(), "Failed");
    assert_eq!(Status::Unknown.as_str(), "Unknown");
    assert_eq!(Status::from_upper("SUCCESS"), Status::Success);
    assert_eq!(Status::from_upper("success"), Status::Unknown);
}

#[test]
fn paymaster_mode_names() {
    assert_eq!(PaymasterMode::SponsorshipPrepaid.to_string(), "SPONSORSHIP_PREPAID");
    assert_eq!(PaymasterMode::SponsorshipPostpaid.to_string(), "SPONSORSHIP_POSTPAID");
    assert_eq!(PaymasterMode::Token.to_string(), "TOKEN");
    assert_eq!(PaymasterMode::Unknown.to_string(), "UNKNOWN");
    assert_eq!(PaymasterMode::Sponsorship.to_string(), "SPONSORSHIP");
    assert_eq!(PaymasterMode::from_name("TOKEN"), PaymasterMode::Token);
    assert_eq!(PaymasterMode::from_name("SPONSORSHIP"), PaymasterMode::Sponsorship);
    assert_eq!(PaymasterMode::from_name("whatever"), PaymasterMode::Unknown);
    assert!(PaymasterMode::Sponsorship.is_sponsorship());
    assert!(PaymasterMode::SponsorshipPostpaid.is_sponsorship());
    assert!(!PaymasterMode::Token.is_sponsorship());
}

#[test]
fn fund_type_names() {
    assert_eq!(FundType::SelfFunded.to_string(), "SELF_FUNDED");
    assert_eq!(FundType::Managed.to_string(), "MANAGED");
    assert_eq!(FundType::Unknown.to_string(), "UNKNOWN");
    assert_eq!(FundType::from_name("MANAGED"), FundType::Managed);
    assert_eq!(FundType::from_name("other"), FundType::Unknown);
}

#[test]
fn hashes_are_trimmed_and_lowercased() {
    assert_eq!(canonical_hash("  0xABCdef \n"), "0xabcdef");
    assert_eq!(canonical_hash("0xabc"), "0xabc");
}

#[test]
fn cache_clients_open_on_valid_urls_only() {
    assert!(RedisCoordinator::new("redis://127.0.0.1:6379/").is_ok());
    assert!(RedisCoordinator::new("not a url").is_err());
    assert!(RedisStorage::new("redis://localhost/").is_ok());
    assert!(RedisStorage::new("http://localhost/").is_err());
}

#[test]
fn cursor_key() {
    assert_eq!(sync_key(1), "sync_block:1");
    assert_eq!(sync_key(8453), "sync_block:8453");
}

#[test]
fn environment_override_names() {
    assert_eq!(indexer::config::rpc_url_var("base_sepolia"), "BASE_SEPOLIA_RPC_URL");
    assert_eq!(indexer::config::split_topics("a,b,,c"), vec!["a", "b", "", "c"]);
    assert_eq!(indexer::config::split_topics("userops"), vec!["userops"]);
    assert_eq!(indexer::config::split_topics(""), vec![""]);
}

#[test]
fn metadata_columns() {
    let mut m = JsonObject::new();
    m.insert("actualGasCost".to_string(), JsonValue::Text("-12".to_string()));
    m.insert("actualGasUsed".to_string(), JsonValue::Raw("100".to_string()));
    m.insert("token".to_string(), JsonValue::Text("0xT".to_string()));
    m.insert("exchangeRate".to_string(), JsonValue::Text("1.25".to_string()));
    m.insert("tokenCharge".to_string(), JsonValue::Text("lots".to_string()));
    m.insert("token".to_string(), JsonValue::Text("0xT2".to_string()));
    let f = indexer::storage::extract_meta_fields(&m);
    assert_eq!(f.actual_gas_cost, Some(-12));
    assert_eq!(f.actual_gas_used, None);
    assert_eq!(f.token.as_deref(), Some("0xT2"));
    assert_eq!(f.exchange_rate.as_deref(), Some("1.25"));
    assert_eq!(f.token_charge, None);
    assert_eq!(f.deducted_user, None);
}
