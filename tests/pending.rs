use indexer::policy::{pending_key, update_usage_limits, update_userop_policy, PolicyUpdate, UserOpPolicyData};

fn s(x: &str) -> Option<String> {
    Some(x.to_string())
}

fn stored_gold() -> UserOpPolicyData {
    UserOpPolicyData {
        policy_id: s("gold"),
        native_usd_price: s("2.0"),
        actual_gas_cost: None,
        actual_gas_used: None,
        sender: s("0xS"),
        enabled_limits: Some(vec!["GLOBAL".to_string(), "USER".to_string()]),
    }
}

fn gas_part(cost: &str, used: &str) -> UserOpPolicyData {
    UserOpPolicyData { actual_gas_cost: s(cost), actual_gas_used: s(used), ..UserOpPolicyData::default() }
}

#[test]
fn completion_finalizes_both_scopes() {
    let r = update_userop_policy("0xabc", stored_gold(), gas_part("1000000000000000000", "21000"));
    match r {
        PolicyUpdate::Finalize { key, increments } => {
            assert_eq!(key, "userop:pending:0xabc");
            assert_eq!(increments.len(), 2);
            assert_eq!(increments[0].prefix, "global:gold");
            assert_eq!(increments[0].gas, 21000);
            assert_eq!(increments[0].usd_micros, 2_000_000);
            assert_eq!(increments[0].usd_text(), "2.000000");
            assert_eq!(increments[0].ops_key(), "global:gold:ops");
            assert_eq!(increments[0].gas_key(), "global:gold:gas");
            assert_eq!(increments[0].usd_key(), "global:gold:usd");
            assert_eq!(increments[1].prefix, "user:gold:0xS");
            assert_eq!(increments[1].gas, 21000);
            assert_eq!(increments[1].usd_micros, 2_000_000);
            assert_eq!(increments[1].ops_key(), "user:gold:0xS:ops");
        },
        PolicyUpdate::Store { .. } => panic!("entry is complete"),
    }
}

#[test]
fn incomplete_entry_is_stored_with_ttl() {
    let partial = UserOpPolicyData { policy_id: s("gold"), native_usd_price: s("2.0"), ..UserOpPolicyData::default() };
    match update_userop_policy("0xabc", UserOpPolicyData::default(), partial) {
        PolicyUpdate::Store { key, data, ttl_secs } => {
            assert_eq!(key, "userop:pending:0xabc");
            assert_eq!(ttl_secs, 1800);
            assert_eq!(data.policy_id.as_deref(), Some("gold"));
            assert!(data.actual_gas_cost.is_none());
        },
        PolicyUpdate::Finalize { .. } => panic!("entry is incomplete"),
    }
}

#[test]
fn overlay_keeps_fields_the_partial_lacks() {
    let merged = stored_gold().overlay(UserOpPolicyData { native_usd_price: s("3.5"), ..UserOpPolicyData::default() });
    assert_eq!(merged.policy_id.as_deref(), Some("gold"));
    assert_eq!(merged.native_usd_price.as_deref(), Some("3.5"));
    assert_eq!(merged.sender.as_deref(), Some("0xS"));
    assert_eq!(merged.enabled_limits.as_ref().map(|v| v.len()), Some(2));
    assert!(!merged.is_complete());
}

#[test]
fn sender_scope_needs_a_sender() {
    let mut d = stored_gold().overlay(gas_part("0x3e8", "0x64"));
    d.sender = None;
    let incs = update_usage_limits(&d);
    assert_eq!(incs.len(), 1);
    assert_eq!(incs[0].prefix, "global:gold");
    assert_eq!(incs[0].gas, 100);
}

#[test]
fn no_enabled_limits_no_increments() {
    let mut d = stored_gold().overlay(gas_part("1000", "10"));
    d.enabled_limits = Some(vec![]);
    assert!(update_usage_limits(&d).is_empty());
    d.enabled_limits = None;
    assert!(update_usage_limits(&d).is_empty());
    d.enabled_limits = Some(vec!["USER".to_string()]);
    let incs = update_usage_limits(&d);
    assert_eq!(incs.len(), 1);
    assert_eq!(incs[0].prefix, "user:gold:0xS");
}

#[test]
fn unreadable_amounts_count_as_zero() {
    let d = UserOpPolicyData {
        policy_id: s("silver"),
        native_usd_price: s("n/a"),
        actual_gas_cost: s("oops"),
        actual_gas_used: s("oops"),
        sender: None,
        enabled_limits: Some(vec!["GLOBAL".to_string()]),
    };
    let incs = update_usage_limits(&d);
    assert_eq!(incs.len(), 1);
    assert_eq!(incs[0].gas, 0);
    assert_eq!(incs[0].usd_micros, 0);
    assert_eq!(incs[0].usd_text(), "0.000000");
}

#[test]
fn pending_key_format() {
    assert_eq!(pending_key("0x12"), "userop:pending:0x12");
}

#[test]
fn user_scope_without_sender_stays_pending() {
    let mut stored = stored_gold();
    stored.sender = None;
    match update_userop_policy("0xabc", stored, gas_part("1000", "10")) {
        PolicyUpdate::Store { data, .. } => {
            assert!(data.sender.is_none());
            assert_eq!(data.actual_gas_cost.as_deref(), Some("1000"));
        },
        PolicyUpdate::Finalize { .. } => panic!("the sender is still missing"),
    }
    let later = UserOpPolicyData { sender: s("0xS"), ..UserOpPolicyData::default() };
    let stored = stored_gold().overlay(gas_part("1000", "10"));
    let mut stored = stored;
    stored.sender = None;
    match update_userop_policy("0xabc", stored, later) {
        PolicyUpdate::Finalize { increments, .. } => assert_eq!(increments.len(), 2),
        PolicyUpdate::Store { .. } => panic!("the entry is complete"),
    }
}

#[test]
fn pending_counter_keys() {
    let incs = update_usage_limits(&stored_gold().overlay(gas_part("1", "1")));
    assert_eq!(
        incs[0].pending_keys(),
        vec!["global:gold:pending_ops", "global:gold:pending_gas", "global:gold:pending_usd"]
    );
    assert_eq!(incs[1].pending_keys()[2], "user:gold:0xS:pending_usd");
}
