//! Partial policy data of an operation, merged field by field until it is
//! complete, and the usage-counter increments a completed entry yields.
use vstd::prelude::*;
use crate::numeric::{
    calculate_usd_spent, format_fixed6, gas_or_zero, opt_text, parse_gas_value, usd_spent_of,
    fixed6_text,
};
use crate::text::str_eq;

verus! {

/// Seconds an incomplete entry stays in the pending buffer after its last write.
pub const PENDING_TTL_SECS: u64 = 1800;

/// What is known so far of an operation's policy context and gas use.
#[derive(Debug)]
pub struct UserOpPolicyData {
    pub policy_id: Option<String>,
    pub native_usd_price: Option<String>,
    pub actual_gas_cost: Option<String>,
    pub actual_gas_used: Option<String>,
    pub sender: Option<String>,
    pub enabled_limits: Option<Vec<String>>,
}

impl Default for UserOpPolicyData {
    fn default() -> (r: UserOpPolicyData)
        ensures
            r.policy_id is None,
            r.native_usd_price is None,
            r.actual_gas_cost is None,
            r.actual_gas_used is None,
            r.sender is None,
            r.enabled_limits is None,
    {
        UserOpPolicyData {
            policy_id: None,
            native_usd_price: None,
            actual_gas_cost: None,
            actual_gas_used: None,
            sender: None,
            enabled_limits: None,
        }
    }
}

/// The incoming value when there is one, else the stored one.
pub open spec fn pick<T>(incoming: Option<T>, stored: Option<T>) -> Option<T> {
    if incoming is Some {
        incoming
    } else {
        stored
    }
}

/// `merged` is `stored` with every field that `partial` holds overwritten.
pub open spec fn overlaid(merged: UserOpPolicyData, stored: UserOpPolicyData, partial: UserOpPolicyData) -> bool {
    &&& merged.policy_id == pick(partial.policy_id, stored.policy_id)
    &&& merged.native_usd_price == pick(partial.native_usd_price, stored.native_usd_price)
    &&& merged.actual_gas_cost == pick(partial.actual_gas_cost, stored.actual_gas_cost)
    &&& merged.actual_gas_used == pick(partial.actual_gas_used, stored.actual_gas_used)
    &&& merged.sender == pick(partial.sender, stored.sender)
    &&& merged.enabled_limits == pick(partial.enabled_limits, stored.enabled_limits)
}

/// Policy, price, gas cost and gas used are all known, and so is the
/// sender when the `USER` scope is enabled.
pub open spec fn complete(d: UserOpPolicyData) -> bool {
    &&& d.policy_id is Some
    &&& d.native_usd_price is Some
    &&& d.actual_gas_cost is Some
    &&& d.actual_gas_used is Some
    &&& (d.enabled_limits matches Some(l) && has_limit(l@, "USER"@)) ==> d.sender is Some
}

fn pick_opt<T>(incoming: Option<T>, stored: Option<T>) -> (r: Option<T>)
    ensures
        r == pick(incoming, stored),
{
    if incoming.is_some() {
        incoming
    } else {
        stored
    }
}

impl UserOpPolicyData {
    /// Overwrites every field that `partial` holds; the others stay.
    pub fn overlay(self, partial: UserOpPolicyData) -> (r: UserOpPolicyData)
        ensures
            overlaid(r, self, partial),
    {
        UserOpPolicyData {
            policy_id: pick_opt(partial.policy_id, self.policy_id),
            native_usd_price: pick_opt(partial.native_usd_price, self.native_usd_price),
            actual_gas_cost: pick_opt(partial.actual_gas_cost, self.actual_gas_cost),
            actual_gas_used: pick_opt(partial.actual_gas_used, self.actual_gas_used),
            sender: pick_opt(partial.sender, self.sender),
            enabled_limits: pick_opt(partial.enabled_limits, self.enabled_limits),
        }
    }

    /// Policy, price, gas cost and gas used are all known, and so is the
    /// sender when the `USER` scope is enabled.
    pub fn is_complete(&self) -> (r: bool)
        ensures
            r == complete(*self),
    {
        let sender_ok = match &self.enabled_limits {
            Some(l) => !limit_enabled(l, "USER") || self.sender.is_some(),
            None => true,
        };
        self.policy_id.is_some() && self.native_usd_price.is_some() && self.actual_gas_cost.is_some()
            && self.actual_gas_used.is_some() && sender_ok
    }
}

/// Some entry of `limits` is `scope`.
pub open spec fn has_limit(limits: Seq<String>, scope: Seq<char>) -> bool {
    exists|i: int| 0 <= i < limits.len() && (#[trigger] limits[i])@ == scope
}

/// `limits` names `scope`.
pub fn limit_enabled(limits: &Vec<String>, scope: &str) -> (r: bool)
    ensures
        r == has_limit(limits@, scope@),
{
    let mut i: usize = 0;
    while i < limits.len()
        invariant
            i <= limits@.len(),
            forall|j: int| 0 <= j < i ==> (#[trigger] limits@[j])@ != scope@,
        decreases limits@.len() - i,
    {
        if str_eq(limits[i].as_str(), scope) {
            return true;
        }
        i = i + 1;
    }
    false
}

/// Increments of one counter scope: ops by one, gas by `gas`, USD by
/// `usd_micros` millionths of a dollar.
#[derive(Debug)]
pub struct UsageIncrement {
    pub prefix: String,
    pub gas: u64,
    pub usd_micros: u128,
}

/// An increment as (key prefix, gas, micro-dollars).
pub open spec fn increment_view(i: UsageIncrement) -> (Seq<char>, u64, nat) {
    (i.prefix@, i.gas, i.usd_micros as nat)
}

/// Key prefix of the global counters of a policy.
pub open spec fn global_prefix(policy_id: Seq<char>) -> Seq<char> {
    "global:"@ + policy_id
}

/// Key prefix of a sender's counters under a policy.
pub open spec fn user_prefix(policy_id: Seq<char>, sender: Seq<char>) -> Seq<char> {
    "user:"@ + policy_id + ":"@ + sender
}

/// USD of a complete entry; an unreadable cost or price counts as zero.
pub open spec fn entry_usd(d: UserOpPolicyData) -> nat {
    match (d.actual_gas_cost, d.native_usd_price) {
        (Some(c), Some(p)) => match usd_spent_of(c@, p@) {
            Some(u) => u,
            None => 0,
        },
        _ => 0,
    }
}

/// Increments an entry yields: one for the global scope when `GLOBAL` is
/// enabled, one for the sender when `USER` is enabled and the sender is
/// known; none when no limit is enabled or no policy is named.
pub open spec fn usage_increments(d: UserOpPolicyData) -> Seq<(Seq<char>, u64, nat)> {
    let gas = gas_or_zero(opt_text(match d.actual_gas_used { Some(s) => Some(&s), None => None }));
    let usd = entry_usd(d);
    let pid = match d.policy_id { Some(p) => p@, None => Seq::empty() };
    match d.enabled_limits {
        None => Seq::empty(),
        Some(_) if d.policy_id is None => Seq::empty(),
        Some(limits) => {
            let g = if has_limit(limits@, "GLOBAL"@) {
                seq![(global_prefix(pid), gas, usd)]
            } else {
                Seq::empty()
            };
            let u = match d.sender {
                Some(s) => if has_limit(limits@, "USER"@) {
                    seq![(user_prefix(pid, s@), gas, usd)]
                } else {
                    Seq::empty()
                },
                None => Seq::empty(),
            };
            g + u
        },
    }
}

/// The counter increments of an entry; an unreadable cost, price or gas
/// value counts as zero.
pub fn update_usage_limits(data: &UserOpPolicyData) -> (r: Vec<UsageIncrement>)
    ensures
        r@.map_values(|i: UsageIncrement| increment_view(i)) == usage_increments(*data),
{
    let mut out: Vec<UsageIncrement> = Vec::new();
    let limits = match &data.enabled_limits {
        None => {
            proof {
                assert(out@.map_values(|i: UsageIncrement| increment_view(i)) =~= Seq::empty());
            }
            return out;
        },
        Some(l) => l,
    };
    let policy_id = match &data.policy_id {
        Some(p) => p,
        None => {
            proof {
                assert(out@.map_values(|i: UsageIncrement| increment_view(i)) =~= Seq::empty());
            }
            return out;
        },
    };
    let usd = match (&data.actual_gas_cost, &data.native_usd_price) {
        (Some(c), Some(p)) => match calculate_usd_spent(c.as_str(), p.as_str()) {
            Some(u) => u,
            None => 0,
        },
        _ => 0,
    };
    let gas = parse_gas_value(data.actual_gas_used.as_ref());
    proof {
        reveal_strlit("global:");
        reveal_strlit("user:");
        reveal_strlit(":");
    }
    let global = limit_enabled(limits, "GLOBAL");
    if global {
        let mut prefix = String::from_str("global:");
        prefix.append(policy_id.as_str());
        out.push(UsageIncrement { prefix, gas, usd_micros: usd });
    }
    let ghost after_global = out@;
    if limit_enabled(limits, "USER") {
        match &data.sender {
            Some(user) => {
                let mut prefix = String::from_str("user:");
                prefix.append(policy_id.as_str());
                prefix.append(":");
                prefix.append(user.as_str());
                out.push(UsageIncrement { prefix, gas, usd_micros: usd });
            },
            None => {},
        }
    }
    proof {
        let g = if has_limit(limits@, "GLOBAL"@) {
            seq![(global_prefix(policy_id@), gas, entry_usd(*data))]
        } else {
            Seq::empty()
        };
        assert(after_global.map_values(|i: UsageIncrement| increment_view(i)) =~= g);
        assert(out@.map_values(|i: UsageIncrement| increment_view(i)) =~= usage_increments(*data));
    }
    out
}

/// Key of the pending entry of an operation.
pub open spec fn pending_key_of(user_op_hash: Seq<char>) -> Seq<char> {
    "userop:pending:"@ + user_op_hash
}

/// Key of the pending entry of an operation: `userop:pending:{hash}`.
pub fn pending_key(user_op_hash: &str) -> (r: String)
    ensures
        r@ == pending_key_of(user_op_hash@),
{
    let mut k = String::from_str("userop:pending:");
    k.append(user_op_hash);
    k
}

/// What to do with the pending buffer after a partial update.
#[derive(Debug)]
pub enum PolicyUpdate {
    /// Still incomplete: write the merged entry under `key` for `ttl_secs`.
    Store { key: String, data: UserOpPolicyData, ttl_secs: u64 },
    /// Complete: apply all `increments` in one atomic pipeline, then delete `key`.
    Finalize { key: String, increments: Vec<UsageIncrement> },
}

/// Merges a partial update into the stored entry of an operation and
/// decides what happens to the pending buffer.
///
/// `stored` is the entry read back from the buffer; an absent or
/// unreadable entry is passed as the empty default.
pub fn update_userop_policy(
    user_op_hash: &str,
    stored: UserOpPolicyData,
    partial: UserOpPolicyData,
) -> (r: PolicyUpdate)
    ensures
        exists|merged: UserOpPolicyData|
            #![trigger overlaid(merged, stored, partial)]
            overlaid(merged, stored, partial) && match r {
                PolicyUpdate::Store { key, data, ttl_secs } => {
                    &&& !complete(merged)
                    &&& key@ == pending_key_of(user_op_hash@)
                    &&& data == merged
                    &&& ttl_secs == PENDING_TTL_SECS
                },
                PolicyUpdate::Finalize { key, increments } => {
                    &&& complete(merged)
                    &&& key@ == pending_key_of(user_op_hash@)
                    &&& increments@.map_values(|i: UsageIncrement| increment_view(i))
                        == usage_increments(merged)
                },
            },
{
    let key = pending_key(user_op_hash);
    let merged = stored.overlay(partial);
    if merged.is_complete() {
        let increments = update_usage_limits(&merged);
        PolicyUpdate::Finalize { key, increments }
    } else {
        PolicyUpdate::Store { key, data: merged, ttl_secs: PENDING_TTL_SECS }
    }
}

impl UsageIncrement {
    /// Key of the operations counter: `{prefix}:ops`.
    pub fn ops_key(&self) -> (r: String)
        ensures
            r@ == self.prefix@ + ":ops"@,
    {
        let mut k = self.prefix.clone();
        k.append(":ops");
        k
    }

    /// Key of the gas counter: `{prefix}:gas`.
    pub fn gas_key(&self) -> (r: String)
        ensures
            r@ == self.prefix@ + ":gas"@,
    {
        let mut k = self.prefix.clone();
        k.append(":gas");
        k
    }

    /// Key of the USD counter: `{prefix}:usd`.
    pub fn usd_key(&self) -> (r: String)
        ensures
            r@ == self.prefix@ + ":usd"@,
    {
        let mut k = self.prefix.clone();
        k.append(":usd");
        k
    }

    /// Keys of the scope's pending counters, deleted once the increments
    /// are applied: `{prefix}:pending_ops`, `{prefix}:pending_gas`,
    /// `{prefix}:pending_usd`.
    pub fn pending_keys(&self) -> (r: Vec<String>)
        ensures
            r@.len() == 3,
            r@[0]@ == self.prefix@ + ":pending_ops"@,
            r@[1]@ == self.prefix@ + ":pending_gas"@,
            r@[2]@ == self.prefix@ + ":pending_usd"@,
    {
        let mut ops = self.prefix.clone();
        ops.append(":pending_ops");
        let mut gas = self.prefix.clone();
        gas.append(":pending_gas");
        let mut usd = self.prefix.clone();
        usd.append(":pending_usd");
        let mut r: Vec<String> = Vec::new();
        r.push(ops);
        r.push(gas);
        r.push(usd);
        r
    }

    /// The USD increment with six decimals, as the counter takes it.
    pub fn usd_text(&self) -> (r: String)
        ensures
            r@ == fixed6_text(self.usd_micros as nat),
    {
        format_fixed6(self.usd_micros)
    }
}

} // verus!
