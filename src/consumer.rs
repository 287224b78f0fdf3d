//! What the message source does with one lifecycle message from the bus.
use vstd::prelude::*;
use crate::json::obj_text;
use crate::message::UserOpMessage;
use crate::paymaster::is_sponsorship;
use crate::policy::UserOpPolicyData;
use crate::text::{canonical_hash, canonical_hash_of, opt_view};

verus! {

/// A bus message turned into the fact to store and, for a sponsored
/// operation with a policy, the policy part of its pending entry.
#[derive(Debug)]
pub struct MessagePlan {
    pub policy_update: Option<UserOpPolicyData>,
    pub fact: UserOpMessage,
}

/// The message is sponsored (legacy, prepaid or postpaid) and names a policy.
pub open spec fn carries_policy(msg: UserOpMessage) -> bool {
    (msg.paymaster_mode matches Some(m) && is_sponsorship(m)) && msg.policy_id is Some
}

/// Both lists are absent, or both hold the same texts.
pub open spec fn same_limits(a: Option<Vec<String>>, b: Option<Vec<String>>) -> bool {
    match (a, b) {
        (Some(x), Some(y)) => x@ == y@,
        (None, None) => true,
        _ => false,
    }
}

fn clone_text(o: &Option<String>) -> (r: Option<String>)
    ensures
        r == *o,
{
    match o {
        Some(s) => Some(s.clone()),
        None => None,
    }
}

fn clone_limits(o: &Option<Vec<String>>) -> (r: Option<Vec<String>>)
    ensures
        same_limits(r, *o),
{
    match o {
        None => None,
        Some(v) => {
            let mut out: Vec<String> = Vec::new();
            let mut i: usize = 0;
            while i < v.len()
                invariant
                    i <= v@.len(),
                    out@ == v@.take(i as int),
                decreases v@.len() - i,
            {
                out.push(v[i].clone());
                proof {
                    assert(v@.take(i + 1) =~= v@.take(i as int).push(v@[i as int]));
                }
                i = i + 1;
            }
            proof {
                assert(v@.take(i as int) =~= v@);
            }
            Some(out)
        },
    }
}

/// Handles one decoded bus message: puts its hash in canonical form
/// (trimmed, lower case) and, when it is sponsored and names a policy,
/// extracts the policy id, price, sender (`userOp.sender`) and enabled
/// limits for the pending entry.
pub fn plan_bus_message(msg: UserOpMessage) -> (r: MessagePlan)
    ensures
        r.fact.user_op_hash@ == canonical_hash_of(msg.user_op_hash@),
        r.fact.chain_id == msg.chain_id && r.fact.status == msg.status,
        r.fact.org_id == msg.org_id && r.fact.credential_id == msg.credential_id,
        r.fact.paymaster_mode == msg.paymaster_mode && r.fact.paymaster_id == msg.paymaster_id,
        r.fact.policy_id == msg.policy_id && r.fact.token_address == msg.token_address,
        r.fact.fund_type == msg.fund_type && r.fact.data_source == msg.data_source,
        r.fact.timestamp == msg.timestamp && r.fact.user_op == msg.user_op,
        r.fact.meta_data == msg.meta_data && r.fact.native_usd_price == msg.native_usd_price,
        r.fact.enabled_limits == msg.enabled_limits,
        carries_policy(msg) <==> r.policy_update is Some,
        r.policy_update matches Some(p) ==> {
            &&& p.policy_id == msg.policy_id
            &&& p.native_usd_price == msg.native_usd_price
            &&& opt_view(p.sender) == obj_text(msg.user_op.entries@, "sender"@)
            &&& same_limits(p.enabled_limits, msg.enabled_limits)
            &&& p.actual_gas_cost is None && p.actual_gas_used is None
        },
{
    let sponsored = match msg.paymaster_mode {
        Some(m) => m.is_sponsorship(),
        None => false,
    };
    let policy_update = if sponsored && msg.policy_id.is_some() {
        Some(UserOpPolicyData {
            policy_id: clone_text(&msg.policy_id),
            native_usd_price: clone_text(&msg.native_usd_price),
            actual_gas_cost: None,
            actual_gas_used: None,
            sender: msg.user_op.get_str("sender"),
            enabled_limits: clone_limits(&msg.enabled_limits),
        })
    } else {
        None
    };
    let hash = canonical_hash(msg.user_op_hash.as_str());
    let fact = UserOpMessage { user_op_hash: hash, ..msg };
    MessagePlan { policy_update, fact }
}

} // verus!
