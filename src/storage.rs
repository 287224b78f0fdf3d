//! The upsert rule of the time-series table: one row per chain and
//! operation hash, a status that only climbs the priority ladder, metadata
//! overlaid key by key, and write-once deployment flag.
use vstd::prelude::*;
use crate::json::{obj_get, obj_text, overlays, JsonObject, JsonValue};
use crate::message::UserOpMessage;
use crate::numeric::{
    cost_number_of, exp_in_range, fixed6_text, format_fixed6, i64_of, number_of, parse_cost, parse_i64,
    parse_number, usd_of, usd_of_numbers, Number,
};
use crate::paymaster::{FundType, PaymasterMode};
use crate::status::{priority_of, Status};
use crate::text::{canonical_hash, canonical_hash_of, opt_view, str_eq};

verus! {

/// What `DateTime<Utc>::from_str` reads from a text, in microseconds since
/// the Unix epoch.
pub uninterp spec fn rfc3339_micros(s: Seq<char>) -> Option<i64>;

/// Relies on chrono's `FromStr` for `DateTime<Utc>` and on
/// `DateTime::timestamp_micros`: the result depends on the text alone.
#[verifier::external_body]
fn event_time_micros(s: &str) -> (r: Option<i64>)
    ensures
        r == rfc3339_micros(s@),
{
    match s.parse::<chrono::DateTime<chrono::Utc>>() {
        Ok(t) => Some(t.timestamp_micros()),
        Err(_) => None,
    }
}

/// Whether `BigDecimal::from_str` reads a text as a decimal number.
pub uninterp spec fn big_decimal_accepts(s: Seq<char>) -> bool;

/// Relies on `BigDecimal::from_str` (the `bigdecimal` crate, as sqlx
/// re-exports it): whether it parses depends on the text alone.
#[verifier::external_body]
fn is_big_decimal(s: &str) -> (r: bool)
    ensures
        r == big_decimal_accepts(s@),
{
    match <sqlx::types::BigDecimal as std::str::FromStr>::from_str(s) {
        Ok(_) => true,
        Err(_) => false,
    }
}

/// The columns of a stored row that the upsert rule reads back.
#[derive(Debug)]
pub struct UserOperationRecord {
    pub status: Status,
    pub native_usd_price: Option<String>,
    pub actual_gas_cost: Option<i64>,
    pub usd_amount: Option<String>,
}

/// One row of the time-series table.
#[derive(Debug)]
pub struct RowValues {
    /// Event time in microseconds since the epoch; `None` stands for the
    /// time of the write.
    pub time: Option<i64>,
    pub chain_id: u32,
    pub user_op_hash: String,
    pub user_operation: JsonObject,
    pub org_id: Option<String>,
    pub credential_id: Option<String>,
    pub paymaster_mode: Option<PaymasterMode>,
    pub fund_type: Option<FundType>,
    pub paymaster_id: Option<String>,
    pub status: Status,
    pub data_source: Option<String>,
    pub actual_gas_cost: Option<i64>,
    pub actual_gas_used: Option<i64>,
    pub deducted_user: Option<String>,
    pub deducted_amount: Option<String>,
    pub usd_amount: Option<String>,
    pub token: Option<String>,
    pub premium: Option<String>,
    pub token_charge: Option<String>,
    pub applied_markup: Option<String>,
    pub exchange_rate: Option<String>,
    pub native_usd_price: Option<String>,
    pub metadata: JsonObject,
    pub account_deployed: bool,
}

/// How an incoming fact is written.
#[derive(Debug, Clone, Copy, PartialEq, Eq, Structural)]
pub enum UpsertAction {
    /// No row yet: insert every column.
    Insert,
    /// The incoming status ranks higher: overwrite the status-carrying
    /// columns and overlay the metadata.
    Promote,
    /// Otherwise: fill only empty auxiliary columns and overlay the metadata.
    Backfill,
}

/// The write an incoming fact turns into.
#[derive(Debug)]
pub struct UpsertPlan {
    pub action: UpsertAction,
    pub values: RowValues,
}

/// A text that reads as a decimal number, or nothing.
pub open spec fn valid_decimal(t: Option<Seq<char>>) -> Option<Seq<char>> {
    match t {
        Some(x) => if big_decimal_accepts(x) {
            Some(x)
        } else {
            None
        },
        None => None,
    }
}

/// A signed integer text read as `i64`, or nothing.
pub open spec fn opt_i64(t: Option<Seq<char>>) -> Option<i64> {
    match t {
        Some(x) => i64_of(x),
        None => None,
    }
}

/// Price of the row: the incoming one when it reads as a non-negative
/// number, else the stored one.
pub open spec fn chosen_price(incoming: Option<Seq<char>>, stored: Option<Seq<char>>) -> Option<Seq<char>> {
    match incoming {
        Some(p) => if number_of(p) is Some {
            Some(p)
        } else {
            stored
        },
        None => stored,
    }
}

/// Gas cost for the USD amount: the metadata's `actualGasCost` when present,
/// else the stored non-negative cost.
pub open spec fn chosen_cost(meta_cost: Option<Seq<char>>, stored: Option<i64>) -> Option<(nat, int)> {
    match meta_cost {
        Some(t) => cost_number_of(t),
        None => match stored {
            Some(c) => if c >= 0 {
                Some((c as nat, 0int))
            } else {
                None
            },
            None => None,
        },
    }
}

/// USD amount in micro-dollars when both cost and price are known.
pub open spec fn usd_for(cost: Option<(nat, int)>, price: Option<Seq<char>>) -> Option<nat> {
    match (cost, price) {
        (Some(c), Some(p)) => match number_of(p) {
            Some(pn) => usd_of_numbers(c, pn),
            None => None,
        },
        _ => None,
    }
}

/// A user-operation field holds a deployment: a text that is neither empty nor `0x`.
pub open spec fn deploys(t: Option<Seq<char>>) -> bool {
    t matches Some(x) && x.len() > 0 && x != "0x"@
}

/// Metadata of an incoming fact; none counts as an empty object.
pub open spec fn meta_entries(m: Option<JsonObject>) -> Seq<(String, JsonValue)> {
    match m {
        Some(o) => o.entries@,
        None => Seq::empty(),
    }
}

/// `p` is the write of fact `msg` next to the stored row `existing`.
pub open spec fn plan_for(p: UpsertPlan, msg: UserOpMessage, existing: Option<UserOperationRecord>) -> bool {
    let v = p.values;
    let meta = meta_entries(msg.meta_data);
    let price = chosen_price(
        opt_view(msg.native_usd_price),
        match existing { Some(e) => opt_view(e.native_usd_price), None => None },
    );
    let cost = chosen_cost(
        obj_text(meta, "actualGasCost"@),
        match existing { Some(e) => e.actual_gas_cost, None => None },
    );
    let usd = usd_for(cost, price);
    &&& p.action == match existing {
        None => UpsertAction::Insert,
        Some(e) => if priority_of(msg.status) > priority_of(e.status) {
            UpsertAction::Promote
        } else {
            UpsertAction::Backfill
        },
    }
    &&& v.time == rfc3339_micros(msg.timestamp@)
    &&& v.chain_id == msg.chain_id
    &&& v.user_op_hash@ == canonical_hash_of(msg.user_op_hash@)
    &&& v.user_operation == msg.user_op
    &&& v.org_id == msg.org_id && v.credential_id == msg.credential_id
    &&& v.paymaster_mode == msg.paymaster_mode && v.fund_type == msg.fund_type
    &&& v.paymaster_id == msg.paymaster_id && v.status == msg.status
    &&& v.data_source == msg.data_source
    &&& opt_view(v.native_usd_price) == price
    &&& opt_view(v.usd_amount) == match usd {
        Some(u) => Some(fixed6_text(u)),
        None => match existing { Some(e) => opt_view(e.usd_amount), None => None },
    }
    &&& meta_fields_of(
        MetaFields {
            actual_gas_cost: v.actual_gas_cost,
            actual_gas_used: v.actual_gas_used,
            deducted_user: v.deducted_user,
            deducted_amount: v.deducted_amount,
            token: v.token,
            premium: v.premium,
            token_charge: v.token_charge,
            applied_markup: v.applied_markup,
            exchange_rate: v.exchange_rate,
        },
        meta,
    )
    &&& v.account_deployed == (deploys(obj_text(msg.user_op.entries@, "factory"@)) || deploys(
        obj_text(msg.user_op.entries@, "factoryData"@),
    ))
    &&& match usd {
        Some(u) => obj_text(v.metadata.entries@, "usdAmount"@) == Some(fixed6_text(u))
            && forall|k: Seq<char>|
            k != "usdAmount"@ ==> #[trigger] obj_get(v.metadata.entries@, k) == obj_get(meta, k),
        None => forall|k: Seq<char>| #[trigger] obj_get(v.metadata.entries@, k) == obj_get(meta, k),
    }
}

fn text_or_none(o: &Option<String>) -> (r: Option<&str>)
    ensures
        match o {
            Some(s) => r matches Some(t) && t@ == s@,
            None => r is None,
        },
{
    match o {
        Some(s) => Some(s.as_str()),
        None => None,
    }
}

fn decimal_or_none(t: Option<String>) -> (r: Option<String>)
    ensures
        opt_view(r) == valid_decimal(opt_view(t)),
{
    match t {
        Some(x) => if is_big_decimal(x.as_str()) {
            Some(x)
        } else {
            None
        },
        None => None,
    }
}

fn i64_or_none(t: Option<String>) -> (r: Option<i64>)
    ensures
        r == opt_i64(opt_view(t)),
{
    match t {
        Some(x) => parse_i64(x.as_str()),
        None => None,
    }
}

fn deploys_text(t: Option<String>) -> (r: bool)
    ensures
        r == deploys(opt_view(t)),
{
    proof {
        reveal_strlit("0x");
    }
    match t {
        Some(x) => x.as_str().unicode_len() > 0 && !str_eq(x.as_str(), "0x"),
        None => false,
    }
}

/// Columns read from an operation's metadata.
#[derive(Debug)]
pub struct MetaFields {
    pub actual_gas_cost: Option<i64>,
    pub actual_gas_used: Option<i64>,
    pub deducted_user: Option<String>,
    pub deducted_amount: Option<String>,
    pub token: Option<String>,
    pub premium: Option<String>,
    pub token_charge: Option<String>,
    pub applied_markup: Option<String>,
    pub exchange_rate: Option<String>,
}

/// `f` holds the columns of metadata `meta`: gas as signed integers,
/// amounts only when they are decimal texts, the rest as texts.
pub open spec fn meta_fields_of(f: MetaFields, meta: Seq<(String, JsonValue)>) -> bool {
    &&& f.actual_gas_cost == opt_i64(obj_text(meta, "actualGasCost"@))
    &&& f.actual_gas_used == opt_i64(obj_text(meta, "actualGasUsed"@))
    &&& opt_view(f.deducted_user) == obj_text(meta, "deductedUser"@)
    &&& opt_view(f.token) == obj_text(meta, "token"@)
    &&& opt_view(f.deducted_amount) == valid_decimal(obj_text(meta, "deductedAmount"@))
    &&& opt_view(f.premium) == valid_decimal(obj_text(meta, "premium"@))
    &&& opt_view(f.token_charge) == valid_decimal(obj_text(meta, "tokenCharge"@))
    &&& opt_view(f.applied_markup) == valid_decimal(obj_text(meta, "appliedMarkup"@))
    &&& opt_view(f.exchange_rate) == valid_decimal(obj_text(meta, "exchangeRate"@))
}

/// Reads the row columns that an operation's metadata carries.
pub fn extract_meta_fields(meta: &JsonObject) -> (r: MetaFields)
    ensures
        meta_fields_of(r, meta.entries@),
{
    MetaFields {
        actual_gas_cost: i64_or_none(meta.get_str("actualGasCost")),
        actual_gas_used: i64_or_none(meta.get_str("actualGasUsed")),
        deducted_user: meta.get_str("deductedUser"),
        deducted_amount: decimal_or_none(meta.get_str("deductedAmount")),
        token: meta.get_str("token"),
        premium: decimal_or_none(meta.get_str("premium")),
        token_charge: decimal_or_none(meta.get_str("tokenCharge")),
        applied_markup: decimal_or_none(meta.get_str("appliedMarkup")),
        exchange_rate: decimal_or_none(meta.get_str("exchangeRate")),
    }
}

/// Decides how fact `msg` is written next to the stored row `existing`,
/// and computes every column of the write.
pub fn plan_upsert(msg: UserOpMessage, existing: Option<UserOperationRecord>) -> (r: UpsertPlan)
    ensures
        plan_for(r, msg, existing),
{
    let ghost msg0 = msg;
    let ghost existing0 = existing;
    let hash = canonical_hash(msg.user_op_hash.as_str());
    let time = event_time_micros(msg.timestamp.as_str());
    let meta_in = match msg.meta_data {
        Some(m) => m,
        None => JsonObject::new(),
    };
    proof {
        assert(meta_in.entries@ == meta_entries(msg0.meta_data));
        if msg0.meta_data is None {
            assert(meta_in.entries@ =~= Seq::<(String, JsonValue)>::empty());
        }
    }
    let (stored_status, stored_price, stored_cost, stored_usd) = match existing {
        Some(e) => (Some(e.status), e.native_usd_price, e.actual_gas_cost, e.usd_amount),
        None => (None, None, None, None),
    };
    let price: Option<String> = match msg.native_usd_price {
        Some(p) => if parse_number(p.as_str()).is_some() {
            Some(p)
        } else {
            stored_price
        },
        None => stored_price,
    };
    let meta_cost = meta_in.get_str("actualGasCost");
    let cost: Option<Number> = match &meta_cost {
        Some(t) => parse_cost(t.as_str()),
        None => match stored_cost {
            Some(c) => if c >= 0 {
                Some(Number { mantissa: c as u128, exp: 0 })
            } else {
                None
            },
            None => None,
        },
    };
    let usd: Option<u128> = match (cost, &price) {
        (Some(c), Some(p)) => match parse_number(p.as_str()) {
            Some(pn) => usd_of(c, pn),
            None => None,
        },
        _ => None,
    };
    let mut metadata = meta_in.duplicate();
    let usd_amount = match usd {
        Some(u) => {
            let t = format_fixed6(u);
            metadata.insert(String::from_str("usdAmount"), JsonValue::Text(t.clone()));
            Some(t)
        },
        None => stored_usd,
    };
    let fields = extract_meta_fields(&meta_in);
    let account_deployed = deploys_text(msg.user_op.get_str("factory")) || deploys_text(
        msg.user_op.get_str("factoryData"),
    );
    let action = match stored_status {
        None => UpsertAction::Insert,
        Some(s) => if msg.status.priority() > s.priority() {
            UpsertAction::Promote
        } else {
            UpsertAction::Backfill
        },
    };
    let values = RowValues {
        time,
        chain_id: msg.chain_id,
        user_op_hash: hash,
        user_operation: msg.user_op,
        org_id: msg.org_id,
        credential_id: msg.credential_id,
        paymaster_mode: msg.paymaster_mode,
        fund_type: msg.fund_type,
        paymaster_id: msg.paymaster_id,
        status: msg.status,
        data_source: msg.data_source,
        actual_gas_cost: fields.actual_gas_cost,
        actual_gas_used: fields.actual_gas_used,
        deducted_user: fields.deducted_user,
        deducted_amount: fields.deducted_amount,
        usd_amount,
        token: fields.token,
        premium: fields.premium,
        token_charge: fields.token_charge,
        applied_markup: fields.applied_markup,
        exchange_rate: fields.exchange_rate,
        native_usd_price: price,
        metadata,
        account_deployed,
    };
    UpsertPlan { action, values }
}

/// The stored value when there is one, else the incoming one (`COALESCE`).
pub open spec fn keep_first<T>(stored: Option<T>, incoming: Option<T>) -> Option<T> {
    if stored is Some {
        stored
    } else {
        incoming
    }
}

fn coalesce<T>(stored: Option<T>, incoming: Option<T>) -> (r: Option<T>)
    ensures
        r == keep_first(stored, incoming),
{
    if stored.is_some() {
        stored
    } else {
        incoming
    }
}

/// `r` is the stored row `old` after a promoting write of `v`.
pub open spec fn promoted(r: RowValues, old: RowValues, v: RowValues) -> bool {
    &&& r.status == v.status && r.paymaster_mode == v.paymaster_mode && r.data_source == v.data_source
    &&& r.actual_gas_cost == v.actual_gas_cost && r.actual_gas_used == v.actual_gas_used
    &&& r.deducted_user == v.deducted_user && r.deducted_amount == v.deducted_amount
    &&& r.usd_amount == v.usd_amount && r.token == v.token && r.premium == v.premium
    &&& r.token_charge == v.token_charge && r.applied_markup == v.applied_markup
    &&& r.exchange_rate == v.exchange_rate && r.native_usd_price == v.native_usd_price
    &&& overlays(r.metadata.entries@, old.metadata.entries@, v.metadata.entries@)
    &&& r.time == old.time && r.chain_id == old.chain_id && r.user_op_hash == old.user_op_hash
    &&& r.user_operation == old.user_operation && r.org_id == old.org_id
    &&& r.credential_id == old.credential_id && r.fund_type == old.fund_type
    &&& r.paymaster_id == old.paymaster_id && r.account_deployed == old.account_deployed
}

/// `r` is the stored row `old` after a backfilling write of `v`.
pub open spec fn backfilled(r: RowValues, old: RowValues, v: RowValues) -> bool {
    &&& r.org_id == keep_first(old.org_id, v.org_id)
    &&& r.paymaster_mode == keep_first(old.paymaster_mode, v.paymaster_mode)
    &&& r.paymaster_id == keep_first(old.paymaster_id, v.paymaster_id)
    &&& r.credential_id == keep_first(old.credential_id, v.credential_id)
    &&& r.fund_type == keep_first(old.fund_type, v.fund_type)
    &&& r.usd_amount == keep_first(old.usd_amount, v.usd_amount)
    &&& r.native_usd_price == keep_first(old.native_usd_price, v.native_usd_price)
    &&& overlays(r.metadata.entries@, old.metadata.entries@, v.metadata.entries@)
    &&& r.status == old.status && r.data_source == old.data_source
    &&& r.actual_gas_cost == old.actual_gas_cost && r.actual_gas_used == old.actual_gas_used
    &&& r.deducted_user == old.deducted_user && r.deducted_amount == old.deducted_amount
    &&& r.token == old.token && r.premium == old.premium && r.token_charge == old.token_charge
    &&& r.applied_markup == old.applied_markup && r.exchange_rate == old.exchange_rate
    &&& r.time == old.time && r.chain_id == old.chain_id && r.user_op_hash == old.user_op_hash
    &&& r.user_operation == old.user_operation && r.account_deployed == old.account_deployed
}

/// Applies a promoting write to a stored row.
pub fn promote(old: RowValues, v: RowValues) -> (r: RowValues)
    ensures
        promoted(r, old, v),
{
    let metadata = old.metadata.overlay(&v.metadata);
    RowValues {
        status: v.status,
        paymaster_mode: v.paymaster_mode,
        data_source: v.data_source,
        actual_gas_cost: v.actual_gas_cost,
        actual_gas_used: v.actual_gas_used,
        deducted_user: v.deducted_user,
        deducted_amount: v.deducted_amount,
        usd_amount: v.usd_amount,
        token: v.token,
        premium: v.premium,
        token_charge: v.token_charge,
        applied_markup: v.applied_markup,
        exchange_rate: v.exchange_rate,
        native_usd_price: v.native_usd_price,
        metadata,
        time: old.time,
        chain_id: old.chain_id,
        user_op_hash: old.user_op_hash,
        user_operation: old.user_operation,
        org_id: old.org_id,
        credential_id: old.credential_id,
        fund_type: old.fund_type,
        paymaster_id: old.paymaster_id,
        account_deployed: old.account_deployed,
    }
}

/// Applies a backfilling write to a stored row.
pub fn backfill(old: RowValues, v: RowValues) -> (r: RowValues)
    ensures
        backfilled(r, old, v),
{
    let metadata = old.metadata.overlay(&v.metadata);
    RowValues {
        org_id: coalesce(old.org_id, v.org_id),
        paymaster_mode: coalesce(old.paymaster_mode, v.paymaster_mode),
        paymaster_id: coalesce(old.paymaster_id, v.paymaster_id),
        credential_id: coalesce(old.credential_id, v.credential_id),
        fund_type: coalesce(old.fund_type, v.fund_type),
        usd_amount: coalesce(old.usd_amount, v.usd_amount),
        native_usd_price: coalesce(old.native_usd_price, v.native_usd_price),
        metadata,
        status: old.status,
        data_source: old.data_source,
        actual_gas_cost: old.actual_gas_cost,
        actual_gas_used: old.actual_gas_used,
        deducted_user: old.deducted_user,
        deducted_amount: old.deducted_amount,
        token: old.token,
        premium: old.premium,
        token_charge: old.token_charge,
        applied_markup: old.applied_markup,
        exchange_rate: old.exchange_rate,
        time: old.time,
        chain_id: old.chain_id,
        user_op_hash: old.user_op_hash,
        user_operation: old.user_operation,
        account_deployed: old.account_deployed,
    }
}

/// The columns of a stored row that the upsert rule reads back.
pub fn record_of(row: &RowValues) -> (r: UserOperationRecord)
    ensures
        r.status == row.status,
        r.native_usd_price == row.native_usd_price,
        r.actual_gas_cost == row.actual_gas_cost,
        r.usd_amount == row.usd_amount,
{
    UserOperationRecord {
        status: row.status,
        native_usd_price: row.native_usd_price.clone(),
        actual_gas_cost: row.actual_gas_cost,
        usd_amount: row.usd_amount.clone(),
    }
}

/// The row `r` has chain `chain_id` and hash `hash`.
pub open spec fn row_key_is(r: RowValues, chain_id: u32, hash: Seq<char>) -> bool {
    r.chain_id == chain_id && r.user_op_hash@ == hash
}

/// `e` holds the columns of stored row `row` that the upsert rule reads back.
pub open spec fn record_matches(e: UserOperationRecord, row: RowValues) -> bool {
    &&& e.status == row.status
    &&& e.native_usd_price == row.native_usd_price
    &&& e.actual_gas_cost == row.actual_gas_cost
    &&& e.usd_amount == row.usd_amount
}

/// Row `after` is row `before` once fact `msg` is written: `p` is the plan
/// of `msg` against the columns `e` read back from `before`, and its
/// promoting or backfilling update has been applied.
pub open spec fn updated_by(after: RowValues, before: RowValues, msg: UserOpMessage, p: UpsertPlan, e: UserOperationRecord) -> bool {
    &&& record_matches(e, before)
    &&& plan_for(p, msg, Some(e))
    &&& match p.action {
        UpsertAction::Promote => promoted(after, before, p.values),
        _ => backfilled(after, before, p.values),
    }
}

/// Row `row` is the insert of fact `msg`: the columns of its plan with no
/// stored row.
pub open spec fn inserted_by(row: RowValues, msg: UserOpMessage, p: UpsertPlan) -> bool {
    plan_for(p, msg, None) && row == p.values
}

/// An in-memory table that follows the same upsert rule as the database.
#[derive(Debug)]
pub struct MemoryStore {
    pub rows: Vec<RowValues>,
}

impl MemoryStore {
    /// At most one row per chain and hash.
    pub open spec fn wf(&self) -> bool {
        forall|i: int, j: int|
            0 <= i < j < self.rows@.len() ==> !row_key_is(
                #[trigger] self.rows@[i],
                self.rows@[j].chain_id,
                (#[trigger] self.rows@[j]).user_op_hash@,
            )
    }

    /// An empty table.
    pub fn new() -> (r: MemoryStore)
        ensures
            r.wf(),
            r.rows@.len() == 0,
    {
        MemoryStore { rows: Vec::new() }
    }

    /// Index of the row with this chain and hash.
    pub fn find(&self, chain_id: u32, hash: &str) -> (r: Option<usize>)
        ensures
            r matches Some(i) ==> i < self.rows@.len() && row_key_is(self.rows@[i as int], chain_id, hash@),
            r is None ==> forall|i: int|
                0 <= i < self.rows@.len() ==> !row_key_is(#[trigger] self.rows@[i], chain_id, hash@),
    {
        let mut i: usize = 0;
        while i < self.rows.len()
            invariant
                i <= self.rows@.len(),
                forall|j: int| 0 <= j < i ==> !row_key_is(#[trigger] self.rows@[j], chain_id, hash@),
            decreases self.rows@.len() - i,
        {
            let row = &self.rows[i];
            if row.chain_id == chain_id && str_eq(row.user_op_hash.as_str(), hash) {
                return Some(i);
            }
            i = i + 1;
        }
        None
    }

    /// Writes fact `msg` under the upsert rule.
    ///
    /// The row of the fact's chain and canonical hash is inserted when
    /// absent. Otherwise its status never drops on the priority ladder, and
    /// every metadata key that the fact does not carry keeps its value
    /// (`usdAmount` is rewritten whenever an amount is computed). No other
    /// row changes.
    pub fn upsert_user_op_message(&mut self, msg: UserOpMessage)
        requires
            old(self).wf(),
        ensures
            final(self).wf(),
            forall|i: int|
                0 <= i < old(self).rows@.len() && !row_key_is(
                    #[trigger] old(self).rows@[i],
                    msg.chain_id,
                    canonical_hash_of(msg.user_op_hash@),
                ) ==> final(self).rows@[i] == old(self).rows@[i],
            forall|i: int|
                0 <= i < old(self).rows@.len() ==> {
                    let a = #[trigger] old(self).rows@[i];
                    let b = final(self).rows@[i];
                    &&& b.chain_id == a.chain_id && b.user_op_hash@ == a.user_op_hash@
                    &&& priority_of(b.status) >= priority_of(a.status)
                    &&& forall|k: Seq<char>|
                        obj_get(meta_entries(msg.meta_data), k) is None && k != "usdAmount"@
                            ==> #[trigger] obj_get(b.metadata.entries@, k) == obj_get(a.metadata.entries@, k)
                },
            (exists|i: int| 0 <= i < old(self).rows@.len() && row_key_is(
                #[trigger] old(self).rows@[i],
                msg.chain_id,
                canonical_hash_of(msg.user_op_hash@),
            )) ==> final(self).rows@.len() == old(self).rows@.len(),
            (forall|i: int| 0 <= i < old(self).rows@.len() ==> !row_key_is(
                #[trigger] old(self).rows@[i],
                msg.chain_id,
                canonical_hash_of(msg.user_op_hash@),
            )) ==> final(self).rows@.len() == old(self).rows@.len() + 1 && row_key_is(
                final(self).rows@.last(),
                msg.chain_id,
                canonical_hash_of(msg.user_op_hash@),
            ) && exists|p: UpsertPlan| #[trigger] inserted_by(final(self).rows@.last(), msg, p),
            forall|i: int|
                0 <= i < old(self).rows@.len() && row_key_is(
                    #[trigger] old(self).rows@[i],
                    msg.chain_id,
                    canonical_hash_of(msg.user_op_hash@),
                ) ==> exists|p: UpsertPlan, e: UserOperationRecord|
                    #[trigger] updated_by(final(self).rows@[i], old(self).rows@[i], msg, p, e),
    {
        let ghost msg0 = msg;
        let hash = canonical_hash(msg.user_op_hash.as_str());
        let found = self.find(msg.chain_id, hash.as_str());
        match found {
            None => {
                let plan = plan_upsert(msg, None);
                let ghost pg = plan;
                self.rows.push(plan.values);
                proof {
                    assert(inserted_by(self.rows@.last(), msg0, pg));
                    assert forall|i: int, j: int|
                        0 <= i < j < self.rows@.len() implies !row_key_is(
                            #[trigger] self.rows@[i],
                            self.rows@[j].chain_id,
                            (#[trigger] self.rows@[j]).user_op_hash@,
                        ) by {
                        if j == self.rows@.len() - 1 {
                            assert(self.rows@[i] == old(self).rows@[i]);
                        } else {
                            assert(self.rows@[i] == old(self).rows@[i]);
                            assert(self.rows@[j] == old(self).rows@[j]);
                        }
                    }
                    assert forall|i: int| 0 <= i < old(self).rows@.len() implies #[trigger] self.rows@[i]
                        == old(self).rows@[i] by {}
                }
            },
            Some(i) => {
                let record = record_of(&self.rows[i]);
                let ghost eg = record;
                let plan = plan_upsert(msg, Some(record));
                let ghost pg = plan;
                let stored = self.rows.remove(i);
                let ghost meta_in = meta_entries(msg0.meta_data);
                let ghost vmeta = plan.values.metadata.entries@;
                let row = match plan.action {
                    UpsertAction::Promote => promote(stored, plan.values),
                    _ => backfill(stored, plan.values),
                };
                proof {
                    assert forall|k: Seq<char>|
                        obj_get(meta_in, k) is None && k != "usdAmount"@
                            implies #[trigger] obj_get(row.metadata.entries@, k) == obj_get(old(self).rows@[i as int].metadata.entries@, k) by {
                        assert(obj_get(vmeta, k) == obj_get(meta_in, k));
                    }
                }
                self.rows.insert(i, row);
                proof {
                    assert(updated_by(self.rows@[i as int], old(self).rows@[i as int], msg0, pg, eg));
                    assert forall|j: int|
                        0 <= j < old(self).rows@.len() && row_key_is(
                            #[trigger] old(self).rows@[j],
                            msg0.chain_id,
                            canonical_hash_of(msg0.user_op_hash@),
                        ) implies j == i by {
                        if j != i {
                            if j < i {
                                assert(!row_key_is(old(self).rows@[j], old(self).rows@[i as int].chain_id, old(self).rows@[i as int].user_op_hash@));
                            } else {
                                assert(!row_key_is(old(self).rows@[i as int], old(self).rows@[j].chain_id, old(self).rows@[j].user_op_hash@));
                            }
                        }
                    }
                    assert forall|j: int| 0 <= j < old(self).rows@.len() && j != i implies #[trigger] self.rows@[j]
                        == old(self).rows@[j] by {}
                    assert forall|a: int, b: int|
                        0 <= a < b < self.rows@.len() implies !row_key_is(
                            #[trigger] self.rows@[a],
                            self.rows@[b].chain_id,
                            (#[trigger] self.rows@[b]).user_op_hash@,
                        ) by {
                        assert(old(self).rows@[a].chain_id == self.rows@[a].chain_id);
                        assert(old(self).rows@[b].chain_id == self.rows@[b].chain_id);
                        assert(old(self).rows@[a].user_op_hash == self.rows@[a].user_op_hash);
                        assert(old(self).rows@[b].user_op_hash == self.rows@[b].user_op_hash);
                    }
                }
            },
        }
    }
}

} // verus!
