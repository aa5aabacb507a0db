//! The failure taxonomy of the client layer.

use vstd::prelude::*;

verus! {

/// Every failure a client operation can surface. The client performs no
/// local recovery: a delegated operation's failure is handed to the caller
/// unchanged, as one of these variants.
#[derive(Clone, Copy, Debug, PartialEq, Eq, Structural)]
pub enum ClientError {
    /// A relay add/remove/connect/disconnect failure (unreachable,
    /// already present, not found).
    Connection,
    /// A malformed subscription filter or an event the pool rejected.
    /// The pool state in this crate accepts every filter and send, so
    /// this arises from a host's transport or a notification callback,
    /// never from the library's own operations.
    Protocol,
    /// Malformed event-id text handed to event deletion.
    Parse,
    /// The identity could not produce a signed event.
    Signing,
    /// A notification subscription was closed or lagged beyond recovery.
    /// A lagged subscription here skips ahead and keeps receiving, so
    /// this too is a host's or callback's failure, never the library's.
    Channel,
}

impl ClientError {
    /// A short description of the failure, in place of a display impl.
    pub fn description(&self) -> (r: String)
        ensures
            *self is Connection ==> r@ == "relay connection failure"@,
            *self is Protocol ==> r@ == "rejected by the relay pool"@,
            *self is Parse ==> r@ == "malformed event id"@,
            *self is Signing ==> r@ == "signing failed"@,
            *self is Channel ==> r@ == "notification channel failure"@,
    {
        match self {
            ClientError::Connection => "relay connection failure".to_owned(),
            ClientError::Protocol => "rejected by the relay pool".to_owned(),
            ClientError::Parse => "malformed event id".to_owned(),
            ClientError::Signing => "signing failed".to_owned(),
            ClientError::Channel => "notification channel failure".to_owned(),
        }
    }
}

} // verus!
