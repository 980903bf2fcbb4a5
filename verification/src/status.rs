//! The four states a task can be in and their stored integer codes.

use vstd::prelude::*;

verus! {

/// Where a task stands in its life cycle.
#[derive(Debug, Clone, Copy, PartialEq, Eq, Structural)]
pub enum Status {
    Pending,
    InProgress,
    Completed,
    Cancelled,
}

impl Status {
    /// The stored integer of each status, as a mathematical integer.
    pub open spec fn spec_code(self) -> int {
        match self {
            Status::Pending => 0,
            Status::InProgress => 1,
            Status::Completed => 2,
            Status::Cancelled => 3,
        }
    }

    /// The status a stored integer stands for, if any.
    pub open spec fn spec_from_code(code: int) -> Option<Status> {
        if code == 0 {
            Some(Status::Pending)
        } else if code == 1 {
            Some(Status::InProgress)
        } else if code == 2 {
            Some(Status::Completed)
        } else if code == 3 {
            Some(Status::Cancelled)
        } else {
            None
        }
    }

    /// A task that is pending or in progress is still open.
    pub open spec fn is_open(self) -> bool {
        self == Status::Pending || self == Status::InProgress
    }

    /// The name shown for the status.
    pub open spec fn spec_label(self) -> Seq<char> {
        match self {
            Status::Pending => "Pending"@,
            Status::InProgress => "InProgress"@,
            Status::Completed => "Completed"@,
            Status::Cancelled => "Cancelled"@,
        }
    }

    /// The integer under which the status is stored.
    pub fn code(self) -> (c: i64)
        ensures
            c == self.spec_code(),
    {
        match self {
            Status::Pending => 0,
            Status::InProgress => 1,
            Status::Completed => 2,
            Status::Cancelled => 3,
        }
    }

    /// Decodes a stored integer; anything outside `0..=3` is rejected.
    pub fn from_code(code: i64) -> (r: Option<Status>)
        ensures
            r == Status::spec_from_code(code as int),
    {
        if code == 0 {
            Some(Status::Pending)
        } else if code == 1 {
            Some(Status::InProgress)
        } else if code == 2 {
            Some(Status::Completed)
        } else if code == 3 {
            Some(Status::Cancelled)
        } else {
            None
        }
    }

    pub fn label(self) -> (s: &'static str)
        ensures
            s@ == self.spec_label(),
    {
        match self {
            Status::Pending => "Pending",
            Status::InProgress => "InProgress",
            Status::Completed => "Completed",
            Status::Cancelled => "Cancelled",
        }
    }
}

/// Encoding a status and decoding the result gives the status back, and the
/// only integers that decode are the four codes.
pub proof fn lemma_code_round_trip(status: Status, code: int)
    ensures
        Status::spec_from_code(status.spec_code()) == Some(status),
        Status::spec_from_code(code) is Some <==> 0 <= code <= 3,
        Status::spec_from_code(code) matches Some(s) ==> s.spec_code() == code,
{
}

} // verus!
