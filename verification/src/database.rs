use vstd::prelude::*;

verus! {

/// What the store knows of a user besides the identifier.
#[derive(Debug, Clone, Copy, PartialEq, Eq, Structural)]
pub struct DatabaseUserInfo {
    pub active: bool,
    pub admin: bool,
}

/// A user's password record in the store.
pub struct DatabaseUserPasswordInfo {
    pub password: String,
}

/// Whether a batch write of `expected` rows took effect: the store must
/// have answered, and with exactly that number of rows affected.
pub open spec fn batch_applied_spec(expected: nat, rows_affected: Option<u64>) -> bool {
    rows_affected matches Some(rows) && rows == expected
}

/// Decides whether a batch write of `expected` rows took effect, from the
/// number of rows that the store reported, or `None` where it failed.
pub fn batch_applied(expected: usize, rows_affected: Option<u64>) -> (applied: bool)
    ensures
        applied == batch_applied_spec(expected as nat, rows_affected),
{
    match rows_affected {
        Some(rows) => rows == expected as u64,
        None => false,
    }
}

} // verus!
