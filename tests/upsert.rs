use indexer::consumer::plan_bus_message;
use indexer::json::{JsonObject, JsonValue};
use indexer::message::UserOpMessage;
use indexer::paymaster::PaymasterMode;
use indexer::status::Status;
use indexer::storage::{plan_upsert, MemoryStore, UpsertAction, UserOperationRecord};

fn obj(members: &[(&str, &str)]) -> JsonObject {
    let mut o = JsonObject::new();
    for (k, v) in members {
        o.insert(k.to_string(), JsonValue::Text(v.to_string()));
    }
    o
}

fn message(hash: &str, status: Status, meta: Option<JsonObject>) -> UserOpMessage {
    UserOpMessage {
        org_id: None,
        credential_id: None,
        paymaster_mode: None,
        paymaster_id: None,
        policy_id: None,
        token_address: None,
        fund_type: None,
        chain_id: 1,
        status,
        data_source: Some("API".to_string()),
        timestamp: "2024-05-01T12:00:00Z".to_string(),
        user_op: obj(&[("sender", "0xS")]),
        meta_data: meta,
        native_usd_price: None,
        user_op_hash: hash.to_string(),
        enabled_limits: None,
    }
}

#[test]
fn first_write_inserts_with_derived_columns() {
    let mut msg = message(" 0xABC ", Status::Success, Some(obj(&[
        ("actualGasCost", "1000000000000000000"),
        ("actualGasUsed", "21000"),
        ("deductedAmount", "1000"),
        ("premium", "not-a-number"),
        ("deductedUser", "0xU"),
    ])));
    msg.native_usd_price = Some("2.0".to_string());
    msg.user_op = obj(&[("factory", "0xF"), ("factoryData", "0x")]);
    let plan = plan_upsert(msg, None);
    assert_eq!(plan.action, UpsertAction::Insert);
    let v = plan.values;
    assert_eq!(v.user_op_hash, "0xabc");
    assert_eq!(v.time, Some(1_714_564_800_000_000));
    assert_eq!(v.actual_gas_cost, Some(1_000_000_000_000_000_000));
    assert_eq!(v.actual_gas_used, Some(21000));
    assert_eq!(v.deducted_amount.as_deref(), Some("1000"));
    assert_eq!(v.premium, None);
    assert_eq!(v.deducted_user.as_deref(), Some("0xU"));
    assert_eq!(v.usd_amount.as_deref(), Some("2.000000"));
    assert_eq!(v.native_usd_price.as_deref(), Some("2.0"));
    assert_eq!(v.metadata.get_str("usdAmount").as_deref(), Some("2.000000"));
    assert_eq!(v.metadata.get_str("actualGasUsed").as_deref(), Some("21000"));
    assert!(v.account_deployed);
}

#[test]
fn unreadable_time_is_left_to_the_writer() {
    let mut msg = message("0x1", Status::Eligible, None);
    msg.timestamp = "yesterday".to_string();
    let plan = plan_upsert(msg, None);
    assert_eq!(plan.values.time, None);
    assert!(!plan.values.account_deployed);
    assert_eq!(plan.values.usd_amount, None);
}

#[test]
fn stored_price_and_cost_feed_the_amount() {
    let existing = UserOperationRecord {
        status: Status::Eligible,
        native_usd_price: Some("3.0".to_string()),
        actual_gas_cost: Some(2_000_000_000_000_000_000),
        usd_amount: Some("1.000000".to_string()),
    };
    let plan = plan_upsert(message("0x1", Status::Success, None), Some(existing));
    assert_eq!(plan.action, UpsertAction::Promote);
    assert_eq!(plan.values.usd_amount.as_deref(), Some("6.000000"));
    assert_eq!(plan.values.native_usd_price.as_deref(), Some("3.0"));
}

#[test]
fn stored_amount_kept_when_nothing_computes() {
    let existing = UserOperationRecord {
        status: Status::Failed,
        native_usd_price: None,
        actual_gas_cost: None,
        usd_amount: Some("1.500000".to_string()),
    };
    let plan = plan_upsert(message("0x1", Status::Success, None), Some(existing));
    assert_eq!(plan.action, UpsertAction::Backfill);
    assert_eq!(plan.values.usd_amount.as_deref(), Some("1.500000"));
}

#[test]
fn failed_is_never_downgraded() {
    let mut store = MemoryStore::new();
    store.upsert_user_op_message(message("0xabc", Status::Failed, Some(obj(&[("a", "1")]))));
    let mut later = message("0xABC", Status::Success, Some(obj(&[("b", "2")])));
    later.org_id = Some("org-1".to_string());
    later.paymaster_id = Some("pm-1".to_string());
    store.upsert_user_op_message(later);
    assert_eq!(store.rows.len(), 1);
    let row = &store.rows[0];
    assert_eq!(row.status, Status::Failed);
    assert_eq!(row.org_id.as_deref(), Some("org-1"));
    assert_eq!(row.paymaster_id.as_deref(), Some("pm-1"));
    assert_eq!(row.metadata.get_str("a").as_deref(), Some("1"));
    assert_eq!(row.metadata.get_str("b").as_deref(), Some("2"));
}

#[test]
fn status_climbs_the_ladder_only() {
    let mut store = MemoryStore::new();
    let mut seen = vec![];
    for st in [Status::Eligible, Status::Unknown, Status::Success, Status::Eligible, Status::Failed, Status::Success] {
        store.upsert_user_op_message(message("0x9", st, None));
        seen.push(store.rows[0].status.priority());
    }
    assert_eq!(seen, vec![1, 1, 2, 2, 3, 3]);
    assert_eq!(store.rows.len(), 1);
}

#[test]
fn metadata_keys_survive_updates() {
    let mut store = MemoryStore::new();
    store.upsert_user_op_message(message("0x7", Status::Eligible, Some(obj(&[("keep", "x"), ("swap", "old")]))));
    store.upsert_user_op_message(message("0x7", Status::Success, Some(obj(&[("swap", "new")]))));
    store.upsert_user_op_message(message("0x7", Status::Success, None));
    let row = &store.rows[0];
    assert_eq!(row.metadata.get_str("keep").as_deref(), Some("x"));
    assert_eq!(row.metadata.get_str("swap").as_deref(), Some("new"));
}

#[test]
fn deployment_flag_is_write_once() {
    let mut store = MemoryStore::new();
    let mut first = message("0x5", Status::Eligible, None);
    first.user_op = obj(&[("factory", "0xF")]);
    store.upsert_user_op_message(first);
    store.upsert_user_op_message(message("0x5", Status::Success, None));
    store.upsert_user_op_message(message("0x5", Status::Success, None));
    assert!(store.rows[0].account_deployed);
}

#[test]
fn rows_are_kept_per_chain() {
    let mut store = MemoryStore::new();
    store.upsert_user_op_message(message("0x5", Status::Success, None));
    let mut other = message("0x5", Status::Eligible, None);
    other.chain_id = 10;
    store.upsert_user_op_message(other);
    assert_eq!(store.rows.len(), 2);
    assert_eq!(store.find(10, "0x5"), Some(1));
    assert_eq!(store.find(1, "0x5"), Some(0));
    assert_eq!(store.find(1, "0x6"), None);
}

#[test]
fn bus_message_with_policy_feeds_pending_entry() {
    let mut msg = message(" 0xDEF\n", Status::Eligible, None);
    msg.paymaster_mode = Some(PaymasterMode::Sponsorship);
    msg.policy_id = Some("gold".to_string());
    msg.native_usd_price = Some("2.0".to_string());
    msg.enabled_limits = Some(vec!["GLOBAL".to_string()]);
    let plan = plan_bus_message(msg);
    assert_eq!(plan.fact.user_op_hash, "0xdef");
    let p = plan.policy_update.unwrap();
    assert_eq!(p.policy_id.as_deref(), Some("gold"));
    assert_eq!(p.sender.as_deref(), Some("0xS"));
    assert_eq!(p.native_usd_price.as_deref(), Some("2.0"));
    assert_eq!(p.enabled_limits, Some(vec!["GLOBAL".to_string()]));
    assert!(p.actual_gas_cost.is_none());
}

#[test]
fn bus_message_without_sponsorship_has_no_pending_entry() {
    let mut msg = message("0x1", Status::Eligible, None);
    msg.paymaster_mode = Some(PaymasterMode::Token);
    msg.policy_id = Some("gold".to_string());
    assert!(plan_bus_message(msg).policy_update.is_none());
    let mut msg = message("0x1", Status::Eligible, None);
    msg.paymaster_mode = Some(PaymasterMode::SponsorshipPrepaid);
    assert!(plan_bus_message(msg).policy_update.is_none());
}

#[test]
fn amounts_read_as_big_decimals() {
    let msg = message("0x2", Status::Success, Some(obj(&[
        ("deductedAmount", "-1"),
        ("premium", "1e3"),
        ("tokenCharge", "1.5E-2"),
        ("appliedMarkup", "abc"),
    ])));
    let v = plan_upsert(msg, None).values;
    assert_eq!(v.deducted_amount.as_deref(), Some("-1"));
    assert_eq!(v.premium.as_deref(), Some("1e3"));
    assert_eq!(v.token_charge.as_deref(), Some("1.5E-2"));
    assert_eq!(v.applied_markup, None);
}

#[test]
fn float_syntax_price_and_large_cost_give_an_amount() {
    let mut msg = message("0x3", Status::Success, Some(obj(&[("actualGasCost", "100000000000000000000")])));
    msg.native_usd_price = Some("2e0".to_string());
    let v = plan_upsert(msg, None).values;
    assert_eq!(v.native_usd_price.as_deref(), Some("2e0"));
    assert_eq!(v.usd_amount.as_deref(), Some("200.000000"));
    assert_eq!(v.metadata.get_str("usdAmount").as_deref(), Some("200.000000"));
    let mut msg = message("0x4", Status::Success, Some(obj(&[("actualGasCost", "0x3e8")])));
    msg.native_usd_price = Some("-2".to_string());
    let v = plan_upsert(msg, None).values;
    assert_eq!(v.native_usd_price, None);
    assert_eq!(v.usd_amount, None);
}
