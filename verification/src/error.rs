use vstd::prelude::*;

verus! {

/// Failure taxonomy of the domain core.
///
/// Every operation surfaces its failures unchanged through one of these
/// kinds; mapping them to transport status codes is the caller's job.
#[derive(Debug)]
pub enum NotificationError {
    /// A uniqueness violation or a missing precondition: the group name is
    /// already taken, or a dependent operation named a group that does not
    /// exist (or whose deletion credential did not match).
    ObjectConflict(String),
    /// A direct lookup named an entity that is absent.
    NotFound(String),
    /// Malformed input, such as a retention cutoff outside the representable
    /// range of timestamps.
    InvalidArgument(String),
    /// A failure of the persistence collaborator, not attributable to the
    /// caller's input. The in-memory stores of this crate never produce it;
    /// it completes the taxonomy for callers that wrap another store.
    Internal(String),
}

impl NotificationError {
    /// The spec-level description carried by the error.
    pub open spec fn message_view(&self) -> Seq<char> {
        match self {
            NotificationError::ObjectConflict(m) => m@,
            NotificationError::NotFound(m) => m@,
            NotificationError::InvalidArgument(m) => m@,
            NotificationError::Internal(m) => m@,
        }
    }

    /// The human-readable description carried by the error.
    pub fn message(&self) -> (r: String)
        ensures
            r@ == self.message_view(),
    {
        match self {
            NotificationError::ObjectConflict(m) => m.clone(),
            NotificationError::NotFound(m) => m.clone(),
            NotificationError::InvalidArgument(m) => m.clone(),
            NotificationError::Internal(m) => m.clone(),
        }
    }
}

} // verus!
