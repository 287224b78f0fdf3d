//! The fusion processor: pairs a paymaster log with the `UserOperationEvent`
//! that follows it on the same chain and turns the pair into a fact.
use vstd::prelude::*;
use std::collections::HashMap;
use crate::decoder::{allow_contains, AllowList};
use crate::message::{text_members, text_object, UserOpMessage};
use crate::paymaster::PaymasterMode;
use crate::policy::UserOpPolicyData;
use crate::status::Status;
use crate::text::str_eq;

verus! {

broadcast use vstd::std_specs::hash::group_hash_axioms;

/// Kind of a log, from the event name the table gives its topic.
#[derive(Debug, Clone, Copy, PartialEq, Eq, Structural)]
pub enum EventKind {
    GasBalanceDeducted,
    PaidGasInTokens,
    UserOperationSponsoredForPostpaid,
    UserOperationEvent,
    UserOperationSponsored,
    RefundProcessed,
    Unrecognized,
}

/// Kind named by an event name.
pub open spec fn kind_of_name(s: Seq<char>) -> EventKind {
    if s == "GasBalanceDeducted"@ {
        EventKind::GasBalanceDeducted
    } else if s == "PaidGasInTokens"@ {
        EventKind::PaidGasInTokens
    } else if s == "UserOperationSponsoredForPostpaid"@ {
        EventKind::UserOperationSponsoredForPostpaid
    } else if s == "UserOperationEvent"@ {
        EventKind::UserOperationEvent
    } else if s == "UserOperationSponsored"@ {
        EventKind::UserOperationSponsored
    } else if s == "RefundProcessed"@ {
        EventKind::RefundProcessed
    } else {
        EventKind::Unrecognized
    }
}

impl EventKind {
    /// Kind of an event name; names outside the known set are `Unrecognized`.
    pub fn from_name(s: &str) -> (r: EventKind)
        ensures
            r == kind_of_name(s@),
    {
        if str_eq(s, "GasBalanceDeducted") {
            EventKind::GasBalanceDeducted
        } else if str_eq(s, "PaidGasInTokens") {
            EventKind::PaidGasInTokens
        } else if str_eq(s, "UserOperationSponsoredForPostpaid") {
            EventKind::UserOperationSponsoredForPostpaid
        } else if str_eq(s, "UserOperationEvent") {
            EventKind::UserOperationEvent
        } else if str_eq(s, "UserOperationSponsored") {
            EventKind::UserOperationSponsored
        } else if str_eq(s, "RefundProcessed") {
            EventKind::RefundProcessed
        } else {
            EventKind::Unrecognized
        }
    }
}

/// A paymaster log waiting for its `UserOperationEvent`. Numbers are
/// decimal texts, addresses hex texts.
#[derive(Debug)]
pub enum PaymasterLog {
    GasBalanceDeducted { user: String, amount: String, premium: String },
    PaidGasInTokens {
        user: String,
        token: String,
        token_charge: String,
        applied_markup: String,
        exchange_rate: String,
    },
    SponsoredForPostpaid,
    /// A paymaster log whose payload could not be decoded.
    Undecodable,
}

/// A decoded `UserOperationEvent`. `paymaster` holds the address bytes,
/// `paymaster_text` the same address as text.
#[derive(Debug)]
pub struct UserOperationEvent {
    pub user_op_hash: String,
    pub sender: String,
    pub paymaster: Vec<u8>,
    pub paymaster_text: String,
    pub nonce: String,
    pub success: bool,
    pub actual_gas_cost: String,
    pub actual_gas_used: String,
}

/// A decoded log as the processor receives it.
#[derive(Debug)]
pub enum LogEvent {
    /// A paymaster log that precedes a `UserOperationEvent`.
    Paymaster(PaymasterLog),
    /// The EntryPoint's record of a processed operation.
    UserOperation(UserOperationEvent),
    /// A log that is only reported: `UserOperationSponsored`,
    /// `RefundProcessed` or an unknown event.
    Informational,
}

/// Paymaster mode that a preceding log implies.
pub open spec fn mode_of(prev: Option<PaymasterLog>) -> PaymasterMode {
    match prev {
        Some(PaymasterLog::GasBalanceDeducted { .. }) => PaymasterMode::SponsorshipPrepaid,
        Some(PaymasterLog::SponsoredForPostpaid) => PaymasterMode::SponsorshipPostpaid,
        Some(PaymasterLog::PaidGasInTokens { .. }) => PaymasterMode::Token,
        _ => PaymasterMode::Unknown,
    }
}

/// Metadata members of a fused fact: those of the preceding log, then the
/// gas cost and gas used.
pub open spec fn fused_metadata(prev: Option<PaymasterLog>, op: UserOperationEvent) -> Seq<(Seq<char>, Seq<char>)> {
    let head: Seq<(Seq<char>, Seq<char>)> = match prev {
        Some(PaymasterLog::GasBalanceDeducted { user, amount, premium }) => seq![
            ("deductedUser"@, user@),
            ("deductedAmount"@, amount@),
            ("premium"@, premium@),
        ],
        Some(PaymasterLog::PaidGasInTokens { user, token, token_charge, applied_markup, exchange_rate }) => seq![
            ("deductedUser"@, user@),
            ("token"@, token@),
            ("tokenCharge"@, token_charge@),
            ("appliedMarkup"@, applied_markup@),
            ("exchangeRate"@, exchange_rate@),
        ],
        _ => Seq::empty(),
    };
    head + seq![("actualGasCost"@, op.actual_gas_cost@), ("actualGasUsed"@, op.actual_gas_used@)]
}

/// Token of a token-mode log.
pub open spec fn token_of(prev: Option<PaymasterLog>) -> Option<Seq<char>> {
    match prev {
        Some(PaymasterLog::PaidGasInTokens { token, .. }) => Some(token@),
        _ => None,
    }
}

/// A fact and, for sponsored modes, the gas part of its policy entry.
#[derive(Debug)]
pub struct Fused {
    pub fact: UserOpMessage,
    pub policy_update: Option<UserOpPolicyData>,
}

/// `f` is the fusion of `op` on `chain_id` with the preceding log `prev`,
/// stamped `timestamp`.
pub open spec fn fused_from(f: Fused, chain_id: u32, op: UserOperationEvent, prev: Option<PaymasterLog>, timestamp: Seq<char>) -> bool {
    let mode = mode_of(prev);
    let fact = f.fact;
    &&& fact.chain_id == chain_id
    &&& fact.status == (if op.success { Status::Success } else { Status::Failed })
    &&& fact.paymaster_mode == Some(mode)
    &&& fact.user_op_hash@ == op.user_op_hash@
    &&& fact.timestamp@ == timestamp
    &&& (fact.data_source matches Some(d) && d@ == "Indexer"@)
    &&& fact.org_id is None && fact.credential_id is None && fact.paymaster_id is None
    &&& fact.policy_id is None && fact.fund_type is None && fact.native_usd_price is None
    &&& fact.enabled_limits is None
    &&& match token_of(prev) {
        Some(t) => fact.token_address matches Some(a) && a@ == t,
        None => fact.token_address is None,
    }
    &&& text_members(fact.user_op.entries@, seq![
        ("sender"@, op.sender@),
        ("paymaster"@, op.paymaster_text@),
        ("nonce"@, op.nonce@),
    ])
    &&& (fact.meta_data matches Some(m) && text_members(m.entries@, fused_metadata(prev, op)))
    &&& if mode == PaymasterMode::SponsorshipPrepaid || mode == PaymasterMode::SponsorshipPostpaid {
        f.policy_update matches Some(p) && {
            &&& (p.actual_gas_cost matches Some(c) && c@ == op.actual_gas_cost@)
            &&& (p.actual_gas_used matches Some(u) && u@ == op.actual_gas_used@)
            &&& p.policy_id is None && p.native_usd_price is None && p.sender is None
            &&& p.enabled_limits is None
        }
    } else {
        f.policy_update is None
    }
}

/// What handling one log led to.
#[derive(Debug)]
pub enum ProcessOutcome {
    /// A paymaster log now waits for its `UserOperationEvent`.
    Held,
    /// A log that is only reported.
    Informational,
    /// A `UserOperationEvent` whose paymaster is not allowed on the chain.
    Disallowed,
    /// A `UserOperationEvent` turned into a fact.
    Fused(Fused),
}

/// Pairs paymaster logs with the `UserOperationEvent` that follows them,
/// keeping one waiting paymaster log per chain.
#[derive(Debug)]
pub struct FusionProcessor {
    pending: HashMap<u32, PaymasterLog>,
}

impl FusionProcessor {
    /// The waiting paymaster log of each chain.
    pub closed spec fn waiting(&self) -> Map<u32, PaymasterLog> {
        self.pending@
    }

    /// A processor with no waiting log.
    pub fn new() -> (r: FusionProcessor)
        ensures
            r.waiting() == Map::<u32, PaymasterLog>::empty(),
    {
        FusionProcessor { pending: HashMap::new() }
    }

    /// Handles one log of `chain_id`.
    ///
    /// A paymaster log waits for the next `UserOperationEvent` of its chain,
    /// replacing any log that waited before. A `UserOperationEvent` whose
    /// paymaster is not allowed on the chain is dropped and changes nothing;
    /// an allowed one takes the chain's waiting log, if any, and is fused
    /// with it. Other logs change nothing.
    pub fn process_event(
        &mut self,
        chain_id: u32,
        event: LogEvent,
        allowed: &AllowList,
        timestamp: &str,
    ) -> (r: ProcessOutcome)
        ensures
            match event {
                LogEvent::Paymaster(p) => final(self).waiting() == old(self).waiting().insert(chain_id, p)
                    && r is Held,
                LogEvent::UserOperation(op) => if allow_contains(allowed.entries@, chain_id, op.paymaster@) {
                    &&& final(self).waiting() == old(self).waiting().remove(chain_id)
                    &&& r matches ProcessOutcome::Fused(f) && fused_from(
                        f,
                        chain_id,
                        op,
                        if old(self).waiting().contains_key(chain_id) {
                            Some(old(self).waiting()[chain_id])
                        } else {
                            None
                        },
                        timestamp@,
                    )
                } else {
                    final(self).waiting() == old(self).waiting() && r is Disallowed
                },
                LogEvent::Informational => final(self).waiting() == old(self).waiting()
                    && r is Informational,
            },
    {
        match event {
            LogEvent::Paymaster(p) => {
                self.pending.insert(chain_id, p);
                ProcessOutcome::Held
            },
            LogEvent::Informational => ProcessOutcome::Informational,
            LogEvent::UserOperation(op) => {
                if !allowed.is_allowed(chain_id, &op.paymaster) {
                    return ProcessOutcome::Disallowed;
                }
                let prev = self.pending.remove(&chain_id);
                ProcessOutcome::Fused(fuse(chain_id, op, prev, timestamp))
            },
        }
    }
}

/// Builds the fact, and the policy entry part, of a `UserOperationEvent`
/// paired with its preceding paymaster log.
pub fn fuse(chain_id: u32, op: UserOperationEvent, prev: Option<PaymasterLog>, timestamp: &str) -> (r: Fused)
    ensures
        fused_from(r, chain_id, op, prev, timestamp@),
{
    let ghost op0 = op;
    let ghost prev0 = prev;
    let mut members: Vec<(String, String)> = Vec::new();
    let mut mode = PaymasterMode::Unknown;
    let mut token_address: Option<String> = None;
    match prev {
        Some(PaymasterLog::GasBalanceDeducted { user, amount, premium }) => {
            members.push((String::from_str("deductedUser"), user));
            members.push((String::from_str("deductedAmount"), amount));
            members.push((String::from_str("premium"), premium));
            mode = PaymasterMode::SponsorshipPrepaid;
        },
        Some(PaymasterLog::SponsoredForPostpaid) => {
            mode = PaymasterMode::SponsorshipPostpaid;
        },
        Some(PaymasterLog::PaidGasInTokens { user, token, token_charge, applied_markup, exchange_rate }) => {
            members.push((String::from_str("deductedUser"), user));
            token_address = Some(token.clone());
            members.push((String::from_str("token"), token));
            members.push((String::from_str("tokenCharge"), token_charge));
            members.push((String::from_str("appliedMarkup"), applied_markup));
            members.push((String::from_str("exchangeRate"), exchange_rate));
            mode = PaymasterMode::Token;
        },
        _ => {},
    }
    members.push((String::from_str("actualGasCost"), op.actual_gas_cost.clone()));
    members.push((String::from_str("actualGasUsed"), op.actual_gas_used.clone()));
    proof {
        assert(members@.map_values(|m: (String, String)| (m.0@, m.1@)) =~= fused_metadata(prev0, op0));
    }
    let meta = text_object(members);
    let mut op_members: Vec<(String, String)> = Vec::new();
    op_members.push((String::from_str("sender"), op.sender));
    op_members.push((String::from_str("paymaster"), op.paymaster_text));
    op_members.push((String::from_str("nonce"), op.nonce));
    proof {
        assert(op_members@.map_values(|m: (String, String)| (m.0@, m.1@)) =~= seq![
            ("sender"@, op0.sender@),
            ("paymaster"@, op0.paymaster_text@),
            ("nonce"@, op0.nonce@),
        ]);
    }
    let user_op = text_object(op_members);
    let sponsored = match mode {
        PaymasterMode::SponsorshipPrepaid => true,
        PaymasterMode::SponsorshipPostpaid => true,
        _ => false,
    };
    let policy_update = if sponsored {
        Some(UserOpPolicyData {
            policy_id: None,
            native_usd_price: None,
            actual_gas_cost: Some(op.actual_gas_cost),
            actual_gas_used: Some(op.actual_gas_used),
            sender: None,
            enabled_limits: None,
        })
    } else {
        None
    };
    let fact = UserOpMessage {
        org_id: None,
        credential_id: None,
        paymaster_mode: Some(mode),
        paymaster_id: None,
        policy_id: None,
        token_address,
        fund_type: None,
        chain_id,
        status: if op.success { Status::Success } else { Status::Failed },
        data_source: Some(String::from_str("Indexer")),
        timestamp: String::from_str(timestamp),
        user_op,
        meta_data: Some(meta),
        native_usd_price: None,
        user_op_hash: op.user_op_hash,
        enabled_limits: None,
    };
    Fused { fact, policy_update }
}

} // verus!
