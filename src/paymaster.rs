//! How an operation's gas was paid, and who funds the paymaster.
use vstd::prelude::*;
use crate::text::str_eq;

verus! {

/// Paymaster mode of a user operation. `Sponsorship` is the legacy name
/// that older messages carry for a sponsored operation.
#[derive(Debug, Clone, Copy, PartialEq, Eq, Structural)]
pub enum PaymasterMode {
    Sponsorship,
    SponsorshipPrepaid,
    SponsorshipPostpaid,
    Token,
    Unknown,
}

/// Wire name of a paymaster mode.
pub open spec fn mode_name(m: PaymasterMode) -> Seq<char> {
    match m {
        PaymasterMode::Sponsorship => "SPONSORSHIP"@,
        PaymasterMode::SponsorshipPrepaid => "SPONSORSHIP_PREPAID"@,
        PaymasterMode::SponsorshipPostpaid => "SPONSORSHIP_POSTPAID"@,
        PaymasterMode::Token => "TOKEN"@,
        PaymasterMode::Unknown => "UNKNOWN"@,
    }
}

/// Mode named by a wire name; any other text is `Unknown`.
pub open spec fn mode_from_name(s: Seq<char>) -> PaymasterMode {
    if s == "SPONSORSHIP"@ {
        PaymasterMode::Sponsorship
    } else if s == "SPONSORSHIP_PREPAID"@ {
        PaymasterMode::SponsorshipPrepaid
    } else if s == "SPONSORSHIP_POSTPAID"@ {
        PaymasterMode::SponsorshipPostpaid
    } else if s == "TOKEN"@ {
        PaymasterMode::Token
    } else {
        PaymasterMode::Unknown
    }
}

/// A sponsored mode: the legacy one, prepaid or postpaid.
pub open spec fn is_sponsorship(m: PaymasterMode) -> bool {
    m == PaymasterMode::Sponsorship || m == PaymasterMode::SponsorshipPrepaid || m
        == PaymasterMode::SponsorshipPostpaid
}

impl PaymasterMode {
    /// Wire name of the mode.
    pub fn as_str(&self) -> (r: &'static str)
        ensures
            r@ == mode_name(*self),
    {
        match self {
            PaymasterMode::Sponsorship => "SPONSORSHIP",
            PaymasterMode::SponsorshipPrepaid => "SPONSORSHIP_PREPAID",
            PaymasterMode::SponsorshipPostpaid => "SPONSORSHIP_POSTPAID",
            PaymasterMode::Token => "TOKEN",
            PaymasterMode::Unknown => "UNKNOWN",
        }
    }

    /// Wire name of the mode, as an owned string.
    pub fn to_string(&self) -> (r: String)
        ensures
            r@ == mode_name(*self),
    {
        String::from_str(self.as_str())
    }

    /// Reads a wire name; unrecognised names are `Unknown`.
    pub fn from_name(s: &str) -> (r: PaymasterMode)
        ensures
            r == mode_from_name(s@),
    {
        if str_eq(s, "SPONSORSHIP") {
            PaymasterMode::Sponsorship
        } else if str_eq(s, "SPONSORSHIP_PREPAID") {
            PaymasterMode::SponsorshipPrepaid
        } else if str_eq(s, "SPONSORSHIP_POSTPAID") {
            PaymasterMode::SponsorshipPostpaid
        } else if str_eq(s, "TOKEN") {
            PaymasterMode::Token
        } else {
            PaymasterMode::Unknown
        }
    }

    /// The mode is sponsored: legacy, prepaid or postpaid.
    pub fn is_sponsorship(&self) -> (r: bool)
        ensures
            r == is_sponsorship(*self),
    {
        match self {
            PaymasterMode::Sponsorship => true,
            PaymasterMode::SponsorshipPrepaid => true,
            PaymasterMode::SponsorshipPostpaid => true,
            _ => false,
        }
    }
}

/// Who funds the paymaster of an operation.
#[derive(Debug, Clone, Copy, PartialEq, Eq, Structural)]
pub enum FundType {
    SelfFunded,
    Managed,
    Unknown,
}

/// Wire name of a fund type.
pub open spec fn fund_name(f: FundType) -> Seq<char> {
    match f {
        FundType::SelfFunded => "SELF_FUNDED"@,
        FundType::Managed => "MANAGED"@,
        FundType::Unknown => "UNKNOWN"@,
    }
}

/// Fund type named by a wire name; any other text is `Unknown`.
pub open spec fn fund_from_name(s: Seq<char>) -> FundType {
    if s == "SELF_FUNDED"@ {
        FundType::SelfFunded
    } else if s == "MANAGED"@ {
        FundType::Managed
    } else {
        FundType::Unknown
    }
}

impl FundType {
    /// Wire name of the fund type.
    pub fn to_string(&self) -> (r: String)
        ensures
            r@ == fund_name(*self),
    {
        match self {
            FundType::SelfFunded => String::from_str("SELF_FUNDED"),
            FundType::Managed => String::from_str("MANAGED"),
            FundType::Unknown => String::from_str("UNKNOWN"),
        }
    }

    /// Reads a wire name; unrecognised names are `Unknown`.
    pub fn from_name(s: &str) -> (r: FundType)
        ensures
            r == fund_from_name(s@),
    {
        if str_eq(s, "SELF_FUNDED") {
            FundType::SelfFunded
        } else if str_eq(s, "MANAGED") {
            FundType::Managed
        } else {
            FundType::Unknown
        }
    }
}

} // verus!
