use vstd::prelude::*;
use crate::types::UserId;

verus! {

/// A user as the administration page lists them: the store's record with
/// the password and the address book joined to it.
#[derive(Debug)]
pub struct UserInfo {
    pub id: UserId,
    pub active: bool,
    pub admin: bool,
    pub username: String,
    pub password: String,
    pub address_book: String,
}

/// The users to list, given the store's answer: none where the store
/// failed.
pub fn listed_users(found: Option<Vec<UserInfo>>) -> (users: Vec<UserInfo>)
    ensures
        match found {
            Some(found) => users == found,
            None => users@.len() == 0,
        },
{
    match found {
        Some(found) => found,
        None => Vec::new(),
    }
}

} // verus!
