use vstd::prelude::*;

verus! {

/// Identifier of a user, as the durable store assigns it.
pub type UserId = i64;

/// Identifier of a session.  Session identifiers are handed out by a counter
/// that starts at zero and is incremented before use, so the first one is 1.
pub type SessionId = u64;

} // verus!
