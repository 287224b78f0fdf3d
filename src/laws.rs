//! Properties that relate several functions of the library.
use vstd::prelude::*;
use crate::numeric::{
    all_digits, cost_number_of, decimal_of, digit_value, digits_value, frac_part, has_hex_prefix, int_part,
    lemma_dot_index, lemma_exp_index, radix_u64, strip_hex_prefixes, unsigned_body, usd_spent_of,
};
use crate::policy::{complete, global_prefix, has_limit, usage_increments, user_prefix, UserOpPolicyData};
use crate::json::obj_get;
use crate::message::UserOpMessage;
use crate::status::priority_of;
use crate::storage::{
    backfilled, meta_entries, plan_for, promoted, RowValues, UpsertAction, UpsertPlan, UserOperationRecord,
};

verus! {

/// Value of counter `k`; an absent counter reads as zero.
pub open spec fn counter(c: Map<Seq<char>, int>, k: Seq<char>) -> int {
    if c.contains_key(k) {
        c[k]
    } else {
        0
    }
}

/// Counters after one scope's increments: ops by one, gas and USD by the
/// increment's amounts.
pub open spec fn apply_increment(c: Map<Seq<char>, int>, inc: (Seq<char>, u64, nat)) -> Map<Seq<char>, int> {
    let ops = inc.0 + ":ops"@;
    let gas = inc.0 + ":gas"@;
    let usd = inc.0 + ":usd"@;
    c.insert(ops, counter(c, ops) + 1).insert(gas, counter(c, gas) + inc.1).insert(
        usd,
        counter(c, usd) + inc.2,
    )
}

/// Counters after a list of increments, applied in order.
pub open spec fn apply_increments(c: Map<Seq<char>, int>, incs: Seq<(Seq<char>, u64, nat)>) -> Map<
    Seq<char>,
    int,
>
    decreases incs.len(),
{
    if incs.len() == 0 {
        c
    } else {
        apply_increment(apply_increments(c, incs.drop_last()), incs.last())
    }
}

proof fn lemma_suffixes_differ(p: Seq<char>, q: Seq<char>)
    ensures
        p + ":ops"@ != q + ":gas"@ || p.len() != q.len(),
        p + ":ops"@ != q + ":usd"@ || p.len() != q.len(),
        p + ":gas"@ != q + ":usd"@ || p.len() != q.len(),
{
    reveal_strlit(":ops");
    reveal_strlit(":gas");
    reveal_strlit(":usd");
    if p.len() == q.len() {
        assert((p + ":ops"@)[p.len() + 1int] == 'o');
        assert((q + ":gas"@)[p.len() + 1int] == 'g');
        assert((q + ":usd"@)[p.len() + 1int] == 'u');
        assert((p + ":gas"@)[p.len() + 1int] == 'g');
    }
}

proof fn lemma_keys_of_one_scope(p: Seq<char>)
    ensures
        p + ":ops"@ != p + ":gas"@,
        p + ":ops"@ != p + ":usd"@,
        p + ":gas"@ != p + ":usd"@,
{
    lemma_suffixes_differ(p, p);
}

proof fn lemma_scopes_apart(pid: Seq<char>, sender: Seq<char>, a: Seq<char>, b: Seq<char>)
    ensures
        global_prefix(pid) + a != user_prefix(pid, sender) + b,
{
    reveal_strlit("global:");
    reveal_strlit("user:");
    assert((global_prefix(pid) + a)[0] == 'g');
    assert((user_prefix(pid, sender) + b)[0] == 'u');
}

/// Counters of one increment: its three counters grow by one, gas and USD.
proof fn lemma_one_increment(c: Map<Seq<char>, int>, inc: (Seq<char>, u64, nat))
    ensures
        counter(apply_increment(c, inc), inc.0 + ":ops"@) == counter(c, inc.0 + ":ops"@) + 1,
        counter(apply_increment(c, inc), inc.0 + ":gas"@) == counter(c, inc.0 + ":gas"@) + inc.1,
        counter(apply_increment(c, inc), inc.0 + ":usd"@) == counter(c, inc.0 + ":usd"@) + inc.2,
        forall|k: Seq<char>|
            k != inc.0 + ":ops"@ && k != inc.0 + ":gas"@ && k != inc.0 + ":usd"@ ==> #[trigger] counter(
                apply_increment(c, inc),
                k,
            ) == counter(c, k),
{
    lemma_keys_of_one_scope(inc.0);
}

/// A completed entry counts once per enabled scope: when `GLOBAL` is
/// enabled the policy's global counters grow by one operation, the gas used
/// and the USD spent, exactly once; when `USER` is enabled and the sender
/// is known the sender's counters grow the same way, exactly once; every
/// other counter keeps its value.
pub proof fn lemma_completion_counts_once(d: UserOpPolicyData, c: Map<Seq<char>, int>)
    requires
        complete(d),
    ensures
        ({
            let incs = usage_increments(d);
            let after = apply_increments(c, incs);
            &&& incs.len() <= 2
            &&& forall|i: int| 0 <= i < incs.len() ==> {
                &&& counter(after, (#[trigger] incs[i]).0 + ":ops"@) == counter(c, incs[i].0 + ":ops"@) + 1
                &&& counter(after, incs[i].0 + ":gas"@) == counter(c, incs[i].0 + ":gas"@) + incs[i].1
                &&& counter(after, incs[i].0 + ":usd"@) == counter(c, incs[i].0 + ":usd"@) + incs[i].2
            }
            &&& forall|k: Seq<char>|
                (forall|i: int| 0 <= i < incs.len() ==> k != (#[trigger] incs[i]).0 + ":ops"@ && k != incs[i].0
                    + ":gas"@ && k != incs[i].0 + ":usd"@) ==> #[trigger] counter(after, k) == counter(c, k)
        }),
        (d.enabled_limits matches Some(l) && has_limit(l@, "GLOBAL"@)) <==> exists|i: int|
            0 <= i < usage_increments(d).len() && (#[trigger] usage_increments(d)[i]).0 == global_prefix(
                d.policy_id->0@,
            ),
        (d.enabled_limits matches Some(l) && has_limit(l@, "USER"@) && d.sender is Some) <==> exists|i: int|
            0 <= i < usage_increments(d).len() && (#[trigger] usage_increments(d)[i]).0 == user_prefix(
                d.policy_id->0@,
                d.sender->0@,
            ),
{
    let incs = usage_increments(d);
    let pid = d.policy_id->0@;
    reveal_strlit("global:");
    reveal_strlit("user:");
    reveal_strlit(":ops");
    reveal_strlit(":gas");
    reveal_strlit(":usd");
    assert(incs.len() <= 2);
    if incs.len() == 0 {
        assert(apply_increments(c, incs) == c);
    } else if incs.len() == 1 {
        assert(incs.drop_last().len() == 0);
        assert(apply_increments(c, incs.drop_last()) == c);
        lemma_one_increment(c, incs[0]);
    } else {
        let first = apply_increment(c, incs[0]);
        let one = seq![incs[0]];
        assert(incs.drop_last() =~= one);
        assert(one.drop_last() =~= Seq::<(Seq<char>, u64, nat)>::empty());
        assert(apply_increments(c, one.drop_last()) == c);
        assert(apply_increments(c, one) == first);
        lemma_one_increment(c, incs[0]);
        lemma_one_increment(first, incs[1]);
        assert(incs[0].0 == global_prefix(pid));
        let s = d.sender->0@;
        assert(incs[1].0 == user_prefix(pid, s));
        lemma_scopes_apart(pid, s, ":ops"@, ":ops"@);
        lemma_scopes_apart(pid, s, ":ops"@, ":gas"@);
        lemma_scopes_apart(pid, s, ":ops"@, ":usd"@);
        lemma_scopes_apart(pid, s, ":gas"@, ":ops"@);
        lemma_scopes_apart(pid, s, ":gas"@, ":gas"@);
        lemma_scopes_apart(pid, s, ":gas"@, ":usd"@);
        lemma_scopes_apart(pid, s, ":usd"@, ":ops"@);
        lemma_scopes_apart(pid, s, ":usd"@, ":gas"@);
        lemma_scopes_apart(pid, s, ":usd"@, ":usd"@);
    }
    let s = d.sender->0@;
    lemma_scopes_apart(pid, s, Seq::empty(), Seq::empty());
    assert(global_prefix(pid) + Seq::<char>::empty() =~= global_prefix(pid));
    assert(user_prefix(pid, s) + Seq::<char>::empty() =~= user_prefix(pid, s));
    if d.enabled_limits matches Some(l) && has_limit(l@, "USER"@) && d.sender is Some {
        let l = d.enabled_limits->0;
        let idx: int = if has_limit(l@, "GLOBAL"@) { 1 } else { 0 };
        assert(incs[idx].0 == user_prefix(pid, s));
    }
    if d.enabled_limits matches Some(l) && has_limit(l@, "GLOBAL"@) {
        assert(incs[0].0 == global_prefix(pid));
    }
}

/// The USD spent does not depend on how the gas cost is written: the
/// decimal digits of a value and its `0x` hexadecimal text read as the same
/// cost, so they give the same amount at any price.
pub proof fn lemma_usd_same_for_hex_and_decimal(dec: Seq<char>, hex: Seq<char>, price: Seq<char>, v: u64)
    requires
        dec.len() > 0,
        all_digits(dec, 10),
        digits_value(dec, 10) == v,
        has_hex_prefix(hex),
        radix_u64(strip_hex_prefixes(hex), 16) == Some(v),
    ensures
        cost_number_of(dec) == Some((v as nat, 0int)),
        cost_number_of(hex) == Some((v as nat, 0int)),
        usd_spent_of(dec, price) == usd_spent_of(hex, price),
{
    assert(digit_value(dec[0]) < 10);
    if dec.len() >= 2 {
        assert(digit_value(dec[1]) < 10);
    }
    assert(!has_hex_prefix(dec));
    assert forall|j: int| 0 <= j < dec.len() implies dec[j] != 'e' && dec[j] != 'E' && dec[j] != '.' by {
        assert(digit_value(dec[j]) < 10);
    }
    assert(unsigned_body(dec) == dec);
    lemma_exp_index(dec, dec.len() as int);
    assert(dec.take(dec.len() as int) =~= dec);
    lemma_dot_index(dec, dec.len() as int);
    assert(int_part(dec) =~= dec);
    assert(frac_part(dec) =~= Seq::<char>::empty());
    assert(dec + Seq::<char>::empty() =~= dec);
    assert(decimal_of(dec.take(dec.len() as int)) == Some((v as nat, 0nat)));
}

/// A write never lowers a stored status and never drops a metadata key:
/// when a fact is planned against the stored row and the planned update is
/// applied, the status stays at or above its rank on the ladder, and every
/// metadata key that the fact does not carry (other than the recomputed
/// `usdAmount`) keeps its value.
pub proof fn lemma_update_keeps_status_and_metadata(
    plan: UpsertPlan,
    msg: UserOpMessage,
    existing: UserOperationRecord,
    stored: RowValues,
    after: RowValues,
)
    requires
        existing.status == stored.status,
        plan_for(plan, msg, Some(existing)),
        match plan.action {
            UpsertAction::Promote => promoted(after, stored, plan.values),
            _ => backfilled(after, stored, plan.values),
        },
    ensures
        priority_of(after.status) >= priority_of(stored.status),
        plan.action == UpsertAction::Promote ==> priority_of(after.status) > priority_of(stored.status),
        forall|k: Seq<char>|
            obj_get(meta_entries(msg.meta_data), k) is None && k != "usdAmount"@ ==> #[trigger] obj_get(
                after.metadata.entries@,
                k,
            ) == obj_get(stored.metadata.entries@, k),
{
    assert forall|k: Seq<char>|
        obj_get(meta_entries(msg.meta_data), k) is None && k != "usdAmount"@ implies #[trigger] obj_get(
            after.metadata.entries@,
            k,
        ) == obj_get(stored.metadata.entries@, k) by {
        assert(obj_get(plan.values.metadata.entries@, k) == obj_get(meta_entries(msg.meta_data), k));
    }
}

} // verus!
