//! A fact about one user operation, as the bus delivers it or as the
//! fusion of chain logs produces it.
use vstd::prelude::*;
use crate::json::{JsonObject, JsonValue};
use crate::paymaster::{FundType, PaymasterMode};
use crate::status::Status;

verus! {

/// A fact about one user operation, from the bus or from chain logs.
#[derive(Debug)]
pub struct UserOpMessage {
    pub org_id: Option<String>,
    pub credential_id: Option<String>,
    pub paymaster_mode: Option<PaymasterMode>,
    pub paymaster_id: Option<String>,
    pub policy_id: Option<String>,
    pub token_address: Option<String>,
    pub fund_type: Option<FundType>,
    pub chain_id: u32,
    pub status: Status,
    pub data_source: Option<String>,
    pub timestamp: String,
    pub user_op: JsonObject,
    pub meta_data: Option<JsonObject>,
    pub native_usd_price: Option<String>,
    pub user_op_hash: String,
    pub enabled_limits: Option<Vec<String>>,
}

/// The members of `entries` are exactly the string members `expected`, in order.
pub open spec fn text_members(entries: Seq<(String, JsonValue)>, expected: Seq<(Seq<char>, Seq<char>)>) -> bool {
    &&& entries.len() == expected.len()
    &&& forall|i: int|
        0 <= i < expected.len() ==> (#[trigger] entries[i]).0@ == expected[i].0 && (entries[i].1 matches JsonValue::Text(s) && s@ == expected[i].1)
}

/// Builds an object of string members, in order.
pub fn text_object(members: Vec<(String, String)>) -> (r: JsonObject)
    ensures
        text_members(r.entries@, members@.map_values(|m: (String, String)| (m.0@, m.1@))),
{
    let mut entries: Vec<(String, JsonValue)> = Vec::new();
    let mut members = members;
    let ghost all = members@;
    let mut i: usize = 0;
    let n = members.len();
    while members.len() > 0
        invariant
            members@.len() + i == n,
            n == all.len(),
            members@ == all.subrange(i as int, n as int),
            text_members(entries@, all.take(i as int).map_values(|m: (String, String)| (m.0@, m.1@))),
        decreases members@.len(),
    {
        let m = members.remove(0);
        let ghost before = entries@;
        entries.push((m.0, JsonValue::Text(m.1)));
        proof {
            assert(members@ =~= all.subrange(i + 1, n as int));
            let ex = all.take(i + 1).map_values(|m: (String, String)| (m.0@, m.1@));
            let ex0 = all.take(i as int).map_values(|m: (String, String)| (m.0@, m.1@));
            assert forall|j: int| 0 <= j < ex.len() implies (#[trigger] entries@[j]).0@ == ex[j].0 && (entries@[j].1 matches JsonValue::Text(s) && s@ == ex[j].1) by {
                if j < i {
                    assert(ex[j] == ex0[j]);
                    assert(entries@[j] == before[j]);
                }
            }
        }
        i = i + 1;
    }
    proof {
        assert(all.take(i as int) =~= all);
    }
    JsonObject { entries }
}

} // verus!
