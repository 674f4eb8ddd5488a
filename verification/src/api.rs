use vstd::prelude::*;
use crate::address_book::AddressBook;
use crate::password::UserPasswordInfo;
use crate::tokens::Token;

verus! {

/// Body of a login request.
#[derive(Debug)]
pub struct LoginRequest {
    pub username: String,
    pub password: String,
    pub id: String,
    pub uuid: String,
}

/// A user as replies name them.
#[derive(Debug)]
pub struct UserInfo {
    pub name: String,
}

/// Reply to a login that was granted.
#[derive(Debug)]
pub struct LoginReply {
    pub user: UserInfo,
    pub access_token: Token,
}

/// Reply to a logout.
#[derive(Debug)]
pub struct LogoutReply {
    pub data: String,
}

/// Body of a request that names the calling device.
#[derive(Debug)]
pub struct CurrentUserRequest {
    pub id: String,
    pub uuid: String,
}

/// Reply that names the current user.
#[derive(Debug)]
pub struct CurrentUserResponse {
    pub error: bool,
    pub data: UserInfo,
}

/// Body of a request that writes the address book.
#[derive(Debug)]
pub struct AbRequest {
    pub data: String,
}

/// Body of an audit request.
#[derive(Debug)]
pub struct AuditRequest {
    pub id_: usize,
    pub action: String,
    pub id: String,
    pub ip: String,
    pub uuid: String,
}

/// A peer in an address book.
#[derive(Debug)]
pub struct AbPeer {
    pub id: String,
}

/// An address book, as clients lay it out.
#[derive(Debug)]
pub struct Ab {
    pub tags: Vec<String>,
    pub peers: Vec<AbPeer>,
}

/// Reply that carries the address book.
#[derive(Debug)]
pub struct AbGetResponse {
    pub error: bool,
    pub updated_at: String,
    pub data: String,
}

impl LoginRequest {
    /// The secret that the request supplies.
    pub fn password_info(&self) -> (info: UserPasswordInfo<'_>)
        ensures
            info.secret() == self.password@,
    {
        UserPasswordInfo::from_password(self.password.as_str())
    }
}

impl LoginReply {
    /// The reply to a login: the user's name and token where the login was
    /// granted, nothing where it was refused.
    pub fn from_login(granted: Option<(String, Token)>) -> (reply: Option<Self>)
        ensures
            match granted {
                Some(granted) => reply matches Some(r) && r.user.name == granted.0
                    && r.access_token == granted.1,
                None => reply is None,
            },
    {
        match granted {
            Some((name, access_token)) => Some(LoginReply { user: UserInfo { name }, access_token }),
            None => None,
        }
    }
}

impl LogoutReply {
    /// The reply to a logout: an empty text where the session was ended,
    /// nothing where the user had none.
    pub fn from_logout(done: Option<()>) -> (reply: Option<Self>)
        ensures
            reply is Some <==> done is Some,
            reply matches Some(r) ==> r.data@.len() == 0,
    {
        match done {
            Some(_) => Some(LogoutReply { data: String::new() }),
            None => None,
        }
    }
}

impl CurrentUserResponse {
    /// The reply that names the current user, where the user has a live
    /// session.
    pub fn from_name(name: Option<String>) -> (reply: Option<Self>)
        ensures
            match name {
                Some(name) => reply matches Some(r) && !r.error && r.data.name == name,
                None => reply is None,
            },
    {
        match name {
            Some(name) => Some(CurrentUserResponse { error: false, data: UserInfo { name } }),
            None => None,
        }
    }
}

impl AbRequest {
    /// The address book that the request writes.
    pub fn address_book(&self) -> (book: AddressBook)
        ensures
            book@ == self.data@,
    {
        AddressBook { ab: self.data.clone() }
    }
}

impl AbGetResponse {
    /// The reply that carries a user's address book, or the empty one
    /// where the user has none.
    pub fn from_address_book(book: Option<AddressBook>) -> (reply: Self)
        ensures
            !reply.error,
            reply.updated_at@ == "now"@,
            reply.data@ == (match book {
                Some(book) => book@,
                None => "{}"@,
            }),
    {
        let book = match book {
            Some(book) => book,
            None => AddressBook::empty(),
        };
        AbGetResponse { error: false, updated_at: "now".to_owned(), data: book.ab }
    }
}

} // verus!
