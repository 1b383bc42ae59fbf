//! Error kinds shared by every component, and their mapping onto HTTP status codes.
use vstd::prelude::*;

verus! {

/// Outcome tag of a store operation.
#[derive(Clone, Copy, Debug, PartialEq, Eq, Structural)]
pub enum EventKind {
    Saved,
    SavingFailed,
    Updated,
    UpdatingFailed,
    Deleted,
    DeletingFailed,
    FindingFailed,
    NotFound,
    InvalidCombination,
    InvalidToken,
    InvalidId,
}

impl EventKind {
    /// The name under which the outcome is reported.
    pub open spec fn name(self) -> Seq<char> {
        match self {
            EventKind::Saved => "Saved"@,
            EventKind::SavingFailed => "SavingFailed"@,
            EventKind::Updated => "Updated"@,
            EventKind::UpdatingFailed => "UpdatingFailed"@,
            EventKind::Deleted => "Deleted"@,
            EventKind::DeletingFailed => "DeletingFailed"@,
            EventKind::FindingFailed => "FindingFailed"@,
            EventKind::NotFound => "NotFound"@,
            EventKind::InvalidCombination => "InvalidCombination"@,
            EventKind::InvalidToken => "InvalidToken"@,
            EventKind::InvalidId => "InvalidId"@,
        }
    }

    /// The HTTP status under which the outcome is reported: 404 for a
    /// missing entity, 400 for everything else.
    pub open spec fn status(self) -> u16 {
        if self == EventKind::NotFound {
            404
        } else {
            400
        }
    }

    /// The name of the outcome, as text.
    pub fn to_string(&self) -> (r: String)
        ensures
            r@ == self.name(),
    {
        match self {
            EventKind::Saved => String::from_str("Saved"),
            EventKind::SavingFailed => String::from_str("SavingFailed"),
            EventKind::Updated => String::from_str("Updated"),
            EventKind::UpdatingFailed => String::from_str("UpdatingFailed"),
            EventKind::Deleted => String::from_str("Deleted"),
            EventKind::DeletingFailed => String::from_str("DeletingFailed"),
            EventKind::FindingFailed => String::from_str("FindingFailed"),
            EventKind::NotFound => String::from_str("NotFound"),
            EventKind::InvalidCombination => String::from_str("InvalidCombination"),
            EventKind::InvalidToken => String::from_str("InvalidToken"),
            EventKind::InvalidId => String::from_str("InvalidId"),
        }
    }

    /// The HTTP status of the outcome.
    pub fn status_code(&self) -> (r: u16)
        ensures
            r == self.status(),
    {
        match self {
            EventKind::NotFound => 404,
            _ => 400,
        }
    }
}

/// A reply on the HTTP surface: a status and a stable body code.
#[derive(Debug)]
pub struct Reply {
    pub status: u16,
    pub body: String,
}

/// The reply that reports a failed operation: the outcome's status with its
/// name as the body.
pub fn error_handler(e: EventKind) -> (r: Reply)
    ensures
        r.status == e.status(),
        r.body@ == e.name(),
{
    Reply { status: e.status_code(), body: e.to_string() }
}

} // verus!
