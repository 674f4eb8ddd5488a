use vstd::prelude::*;
use crate::database::DatabaseUserPasswordInfo;

verus! {

/// The secret that a user supplied at login.
pub struct UserPasswordInfo<'s> {
    password: &'s str,
}

impl<'s> UserPasswordInfo<'s> {
    /// The supplied secret, as text.
    pub closed spec fn secret(&self) -> Seq<char> {
        self.password@
    }

    /// Wraps the secret that the user supplied.
    pub fn from_password(password: &'s str) -> (info: Self)
        ensures
            info.secret() == password@,
    {
        Self { password }
    }

    /// Whether the supplied secret is the stored one: the two texts are
    /// compared as they are.
    pub fn check(&self, db_password_info: DatabaseUserPasswordInfo) -> (same: bool)
        ensures
            same == (db_password_info.password@ == self.secret()),
    {
        self.agrees_with(&db_password_info)
    }

    /// Whether the supplied secret is the one of a stored record that the
    /// caller keeps.
    pub fn agrees_with(&self, db_password_info: &DatabaseUserPasswordInfo) -> (same: bool)
        ensures
            same == (db_password_info.password@ == self.secret()),
    {
        let supplied = self.password.to_owned();
        db_password_info.password == supplied
    }
}

} // verus!
