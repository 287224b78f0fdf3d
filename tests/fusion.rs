use indexer::config::{ChainConfig, Config, ContractConfig, GeneralConfig, StorageConfig};
use indexer::decoder::AllowList;
use indexer::json::JsonValue;
use indexer::paymaster::PaymasterMode;
use indexer::processor::{EventKind, Fused, FusionProcessor, LogEvent, PaymasterLog, ProcessOutcome, UserOperationEvent};
use indexer::status::Status;

const ALLOWED: &str = "0x00000000000000000000000000000000000000aa";

fn allowlist() -> AllowList {
    let chain = |id: u32| ChainConfig {
        active: true,
        rpc_url: String::new(),
        chain_id: id,
        block_time: 2,
        polling_blocks: 50,
        reorg_buffer: 5,
        use_finalized: false,
        contracts: vec![ContractConfig { name: "pm".to_string(), address: ALLOWED.to_string(), events: vec![] }],
    };
    AllowList::from_config(&Config {
        general: GeneralConfig { indexer_name: "t".to_string() },
        chains: vec![("a".to_string(), chain(1)), ("b".to_string(), chain(10))],
        storage: StorageConfig {
            kafka_broker: String::new(),
            kafka_topics: vec![],
            kafka_group_id: String::new(),
            timescale_db_url: String::new(),
            redis_url: String::new(),
        },
    })
}

fn op(paymaster_byte: u8, success: bool) -> UserOperationEvent {
    let mut pm = vec![0u8; 20];
    pm[19] = paymaster_byte;
    UserOperationEvent {
        user_op_hash: "0xabc".to_string(),
        sender: "0xS".to_string(),
        paymaster: pm,
        paymaster_text: "0xP".to_string(),
        nonce: "1".to_string(),
        success,
        actual_gas_cost: "1000".to_string(),
        actual_gas_used: "100".to_string(),
    }
}

fn fact_of(o: ProcessOutcome) -> Fused {
    match o {
        ProcessOutcome::Fused(f) => f,
        other => panic!("expected a fact, got {:?}", other),
    }
}

fn meta_text(m: &indexer::json::JsonObject, key: &str) -> Option<String> {
    m.get_str(key)
}

#[test]
fn event_names_classify_logs() {
    assert_eq!(EventKind::from_name("GasBalanceDeducted"), EventKind::GasBalanceDeducted);
    assert_eq!(EventKind::from_name("PaidGasInTokens"), EventKind::PaidGasInTokens);
    assert_eq!(
        EventKind::from_name("UserOperationSponsoredForPostpaid"),
        EventKind::UserOperationSponsoredForPostpaid
    );
    assert_eq!(EventKind::from_name("UserOperationEvent"), EventKind::UserOperationEvent);
    assert_eq!(EventKind::from_name("RefundProcessed"), EventKind::RefundProcessed);
    assert_eq!(EventKind::from_name("Transfer"), EventKind::Unrecognized);
}

#[test]
fn prepaid_fusion() {
    let allow = allowlist();
    let mut p = FusionProcessor::new();
    let a = LogEvent::Paymaster(PaymasterLog::GasBalanceDeducted {
        user: "0xU".to_string(),
        amount: "1000".to_string(),
        premium: "10".to_string(),
    });
    assert!(matches!(p.process_event(1, a, &allow, "2024-01-01T00:00:00Z"), ProcessOutcome::Held));
    let fused = fact_of(p.process_event(1, LogEvent::UserOperation(op(0xaa, true)), &allow, "2024-01-01T00:00:00Z"));
    let f = &fused.fact;
    assert_eq!(f.status, Status::Success);
    assert_eq!(f.paymaster_mode, Some(PaymasterMode::SponsorshipPrepaid));
    assert_eq!(f.data_source.as_deref(), Some("Indexer"));
    assert_eq!(f.user_op_hash, "0xabc");
    assert_eq!(f.chain_id, 1);
    let m = f.meta_data.as_ref().unwrap();
    assert_eq!(meta_text(m, "deductedUser").as_deref(), Some("0xU"));
    assert_eq!(meta_text(m, "deductedAmount").as_deref(), Some("1000"));
    assert_eq!(meta_text(m, "premium").as_deref(), Some("10"));
    assert_eq!(meta_text(m, "actualGasCost").as_deref(), Some("1000"));
    assert_eq!(meta_text(m, "actualGasUsed").as_deref(), Some("100"));
    assert_eq!(f.user_op.get_str("sender").as_deref(), Some("0xS"));
    assert_eq!(f.user_op.get_str("nonce").as_deref(), Some("1"));
    let pu = fused.policy_update.unwrap();
    assert_eq!(pu.actual_gas_cost.as_deref(), Some("1000"));
    assert_eq!(pu.actual_gas_used.as_deref(), Some("100"));
    assert!(pu.policy_id.is_none());
    let again = fact_of(p.process_event(1, LogEvent::UserOperation(op(0xaa, false)), &allow, "t"));
    assert_eq!(again.fact.paymaster_mode, Some(PaymasterMode::Unknown));
    assert_eq!(again.fact.status, Status::Failed);
    assert!(again.policy_update.is_none());
}

#[test]
fn token_and_postpaid_fusion() {
    let allow = allowlist();
    let mut p = FusionProcessor::new();
    let tok = LogEvent::Paymaster(PaymasterLog::PaidGasInTokens {
        user: "0xU".to_string(),
        token: "0xT".to_string(),
        token_charge: "5".to_string(),
        applied_markup: "110".to_string(),
        exchange_rate: "42".to_string(),
    });
    p.process_event(1, tok, &allow, "t");
    let fused = fact_of(p.process_event(1, LogEvent::UserOperation(op(0xaa, true)), &allow, "t"));
    assert_eq!(fused.fact.paymaster_mode, Some(PaymasterMode::Token));
    assert_eq!(fused.fact.token_address.as_deref(), Some("0xT"));
    let m = fused.fact.meta_data.as_ref().unwrap();
    assert_eq!(meta_text(m, "tokenCharge").as_deref(), Some("5"));
    assert_eq!(meta_text(m, "appliedMarkup").as_deref(), Some("110"));
    assert_eq!(meta_text(m, "exchangeRate").as_deref(), Some("42"));
    assert!(fused.policy_update.is_none());

    p.process_event(1, LogEvent::Paymaster(PaymasterLog::SponsoredForPostpaid), &allow, "t");
    let post = fact_of(p.process_event(1, LogEvent::UserOperation(op(0xaa, true)), &allow, "t"));
    assert_eq!(post.fact.paymaster_mode, Some(PaymasterMode::SponsorshipPostpaid));
    assert!(post.policy_update.is_some());
}

#[test]
fn disallowed_paymaster_is_dropped() {
    let allow = allowlist();
    let mut p = FusionProcessor::new();
    p.process_event(1, LogEvent::Paymaster(PaymasterLog::SponsoredForPostpaid), &allow, "t");
    assert!(matches!(
        p.process_event(1, LogEvent::UserOperation(op(0xad, true)), &allow, "t"),
        ProcessOutcome::Disallowed
    ));
    let next = fact_of(p.process_event(1, LogEvent::UserOperation(op(0xaa, true)), &allow, "t"));
    assert_eq!(next.fact.paymaster_mode, Some(PaymasterMode::SponsorshipPostpaid));
    assert!(matches!(
        p.process_event(99, LogEvent::UserOperation(op(0xaa, true)), &allow, "t"),
        ProcessOutcome::Disallowed
    ));
}

#[test]
fn waiting_logs_are_kept_per_chain() {
    let allow = allowlist();
    let mut p = FusionProcessor::new();
    p.process_event(1, LogEvent::Paymaster(PaymasterLog::SponsoredForPostpaid), &allow, "t");
    p.process_event(
        10,
        LogEvent::Paymaster(PaymasterLog::GasBalanceDeducted {
            user: "u".to_string(),
            amount: "1".to_string(),
            premium: "0".to_string(),
        }),
        &allow,
        "t",
    );
    assert!(matches!(p.process_event(1, LogEvent::Informational, &allow, "t"), ProcessOutcome::Informational));
    let on1 = fact_of(p.process_event(1, LogEvent::UserOperation(op(0xaa, true)), &allow, "t"));
    assert_eq!(on1.fact.paymaster_mode, Some(PaymasterMode::SponsorshipPostpaid));
    let on10 = fact_of(p.process_event(10, LogEvent::UserOperation(op(0xaa, true)), &allow, "t"));
    assert_eq!(on10.fact.paymaster_mode, Some(PaymasterMode::SponsorshipPrepaid));
    assert_eq!(on10.fact.chain_id, 10);
}

#[test]
fn undecodable_paymaster_log_is_consumed() {
    let allow = allowlist();
    let mut p = FusionProcessor::new();
    p.process_event(1, LogEvent::Paymaster(PaymasterLog::Undecodable), &allow, "t");
    let f = fact_of(p.process_event(1, LogEvent::UserOperation(op(0xaa, true)), &allow, "t"));
    assert_eq!(f.fact.paymaster_mode, Some(PaymasterMode::Unknown));
    let m = f.fact.meta_data.unwrap();
    assert_eq!(m.entries.len(), 2);
    assert!(matches!(m.get("actualGasCost"), Some(JsonValue::Text(_))));
}
