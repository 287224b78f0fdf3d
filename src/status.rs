//! Lifecycle status of a user operation and its priority ladder.
use vstd::prelude::*;
use crate::text::{str_eq, upper_of, uppercase};

verus! {

/// Status of a user operation, ordered by [`Status::priority`].
#[derive(Debug, Clone, Copy, PartialEq, Eq, Structural)]
pub enum Status {
    Failed,
    Success,
    Eligible,
    Unknown,
}

/// The priority ladder: `Unknown < Eligible < Success < Failed`.
pub open spec fn priority_of(s: Status) -> int {
    match s {
        Status::Failed => 3,
        Status::Success => 2,
        Status::Eligible => 1,
        Status::Unknown => 0,
    }
}

/// Status named by an upper-cased text; anything else is `Unknown`.
pub open spec fn status_of_upper(u: Seq<char>) -> Status {
    if u == seq!['F', 'A', 'I', 'L', 'E', 'D'] {
        Status::Failed
    } else if u == seq!['S', 'U', 'C', 'C', 'E', 'S', 'S'] {
        Status::Success
    } else if u == seq!['E', 'L', 'I', 'G', 'I', 'B', 'L', 'E'] {
        Status::Eligible
    } else {
        Status::Unknown
    }
}

/// Status of an exact name; anything else is `Unknown`.
pub open spec fn status_of_name(s: Seq<char>) -> Status {
    if s == "Failed"@ {
        Status::Failed
    } else if s == "Success"@ {
        Status::Success
    } else if s == "Eligible"@ {
        Status::Eligible
    } else {
        Status::Unknown
    }
}

/// Name of a status.
pub open spec fn status_name(s: Status) -> Seq<char> {
    match s {
        Status::Failed => "Failed"@,
        Status::Success => "Success"@,
        Status::Eligible => "Eligible"@,
        Status::Unknown => "Unknown"@,
    }
}

impl Status {
    /// Reads a status whatever its letter case; unrecognised text is `Unknown`.
    pub fn from_str_case_insensitive(s: &str) -> (r: Status)
        ensures
            r == status_of_upper(upper_of(s@)),
    {
        let u = uppercase(s);
        Status::from_upper(u.as_str())
    }

    /// Reads a status from text that is already upper case.
    pub fn from_upper(u: &str) -> (r: Status)
        ensures
            r == status_of_upper(u@),
    {
        proof {
            reveal_strlit("FAILED");
            reveal_strlit("SUCCESS");
            reveal_strlit("ELIGIBLE");
            assert("FAILED"@ =~= seq!['F', 'A', 'I', 'L', 'E', 'D']);
            assert("SUCCESS"@ =~= seq!['S', 'U', 'C', 'C', 'E', 'S', 'S']);
            assert("ELIGIBLE"@ =~= seq!['E', 'L', 'I', 'G', 'I', 'B', 'L', 'E']);
        }
        if str_eq(u, "FAILED") {
            Status::Failed
        } else if str_eq(u, "SUCCESS") {
            Status::Success
        } else if str_eq(u, "ELIGIBLE") {
            Status::Eligible
        } else {
            Status::Unknown
        }
    }

    /// Reads a status by its exact name (`Failed`, `Success`, `Eligible`);
    /// any other text is `Unknown`.
    pub fn from_name(s: &str) -> (r: Status)
        ensures
            r == status_of_name(s@),
    {
        if str_eq(s, "Failed") {
            Status::Failed
        } else if str_eq(s, "Success") {
            Status::Success
        } else if str_eq(s, "Eligible") {
            Status::Eligible
        } else {
            Status::Unknown
        }
    }

    /// Name of the status, as it is stored.
    pub fn as_str(&self) -> (r: &'static str)
        ensures
            r@ == status_name(*self),
    {
        match self {
            Status::Failed => "Failed",
            Status::Success => "Success",
            Status::Eligible => "Eligible",
            Status::Unknown => "Unknown",
        }
    }

    /// Name of the status, as an owned string.
    pub fn to_string(&self) -> (r: String)
        ensures
            r@ == status_name(*self),
    {
        String::from_str(self.as_str())
    }

    /// Rank of the status on the ladder `Unknown < Eligible < Success < Failed`.
    pub fn priority(&self) -> (r: i32)
        ensures
            r == priority_of(*self),
    {
        match self {
            Status::Failed => 3,
            Status::Success => 2,
            Status::Eligible => 1,
            Status::Unknown => 0,
        }
    }
}

} // verus!
