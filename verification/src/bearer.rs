use std::marker::PhantomData;
use vstd::prelude::*;
use vstd::string::StrSliceExecFns;
use crate::model::Cache;
use crate::state::{ApiState, UserInfo};
use crate::text::{
    ascii_lower, chars_of, eq_ignore_ascii_case, first_space, lemma_first_space_is, trim_bounds,
    trimmed,
};
use crate::tokens::{base64_url_decode, Token};
use crate::types::{SessionId, UserId};

verus! {

/// Why no token could be taken from an `Authorization` header.
#[derive(Debug, Clone, Copy, PartialEq, Eq, Structural)]
pub enum BearerError {
    /// The request has no such header.
    MissingHeader,
    /// The header holds no space between a scheme and a credential.
    MalformedHeader,
    /// The scheme is not `Bearer`.
    InvalidType,
    /// The credential is not the text of a token.
    MalformedToken,
}

/// What a guard makes of a request.
#[derive(Debug)]
pub enum Outcome<S> {
    /// The request carries what the guard asks for.
    Success(S),
    /// The request is refused as unauthorized, for the given reason.
    Failure(BearerError),
    /// The request is passed on as unauthenticated.
    Forward,
    /// The request is authenticated, but its user may not do what the
    /// guard protects: it is refused as forbidden.
    Forbidden,
}

/// A guard value that holds a token.
pub trait IntoToken: Sized {
    /// The token held.
    spec fn held_token(&self) -> Token;

    /// Gives up the token held.
    fn into_token(self) -> (token: Token)
        ensures
            token == self.held_token(),
    ;
}

/// A token taken from an `Authorization: Bearer` header; a request
/// without one is passed on.
#[derive(Debug)]
pub struct BearerAuthToken {
    pub token: Token,
}

/// A token taken from an `Authorization: Bearer` header; a request
/// without one is refused.
#[derive(Debug)]
pub struct BearerToken {
    pub token: Token,
}

/// A token taken from the `Authorization` cookie; a request without one is
/// passed on.
#[derive(Debug)]
pub struct CookieAuthToken {
    pub token: Token,
}

/// The identity that a live token resolves to.
#[derive(Debug, Clone, Copy)]
pub struct AuthenticatedUserInfo {
    pub session_id: SessionId,
    pub user_id: UserId,
    pub access_token: Token,
}

/// An authenticated user, whose token was obtained the way `T` does it.
#[derive(Debug)]
pub struct AuthenticatedUser<T> {
    pub info: AuthenticatedUserInfo,
    pub _ph: PhantomData<T>,
}

/// An authenticated administrator, whose token was obtained the way `T`
/// does it.
#[derive(Debug)]
pub struct AuthenticatedAdmin<T> {
    pub info: AuthenticatedUserInfo,
    pub username: String,
    pub _ph: PhantomData<T>,
}

impl IntoToken for BearerAuthToken {
    open spec fn held_token(&self) -> Token {
        self.token
    }

    fn into_token(self) -> (token: Token) {
        self.token
    }
}

impl IntoToken for BearerToken {
    open spec fn held_token(&self) -> Token {
        self.token
    }

    fn into_token(self) -> (token: Token) {
        self.token
    }
}

impl IntoToken for CookieAuthToken {
    open spec fn held_token(&self) -> Token {
        self.token
    }

    fn into_token(self) -> (token: Token) {
        self.token
    }
}

/// The view of a text that may be absent.
pub open spec fn text_of(text: Option<&str>) -> Option<Seq<char>> {
    match text {
        Some(text) => Some(text@),
        None => None,
    }
}

/// The credential that an `Authorization` header carries.
///
/// The header is split at its first space.  What stands before it must be
/// `Bearer`, in any case of the letters; what stands after it, trimmed, is
/// the credential.
pub open spec fn bearer_credential_spec(header: Seq<char>) -> Result<Seq<char>, BearerError> {
    let at = first_space(header);
    if at == header.len() {
        Err(BearerError::MalformedHeader)
    } else if !eq_ignore_ascii_case(header.subrange(0, at), "Bearer"@) {
        Err(BearerError::InvalidType)
    } else {
        Ok(trimmed(header.subrange(at + 1, header.len() as int)))
    }
}

/// The token that an `Authorization` header carries, if the request has
/// the header: its credential, decoded.
pub open spec fn bearer_token_spec(header: Option<Seq<char>>) -> Result<Token, BearerError> {
    match header {
        None => Err(BearerError::MissingHeader),
        Some(header) => match bearer_credential_spec(header) {
            Err(error) => Err(error),
            Ok(text) => match Token::decoded(base64_url_decode(text)) {
                Ok(token) => Ok(token),
                Err(_) => Err(BearerError::MalformedToken),
            },
        },
    }
}

/// The token that the `Authorization` cookie carries, if the request has
/// the cookie: its value, trimmed and decoded.
pub open spec fn cookie_token_spec(cookie: Option<Seq<char>>) -> Option<Token> {
    match cookie {
        None => None,
        Some(value) => match Token::decoded(base64_url_decode(trimmed(value))) {
            Ok(token) => Some(token),
            Err(_) => None,
        },
    }
}

/// The identity that a token resolves to in a cache, if the token is live.
pub open spec fn resolved(cache: Cache, token: Token) -> Option<AuthenticatedUserInfo> {
    match cache.find_session(token) {
        Some(info) => Some(
            AuthenticatedUserInfo {
                session_id: info.session_id,
                user_id: info.user_id,
                access_token: token,
            },
        ),
        None => None,
    }
}

/// The name under which an identity acts as administrator, if its user has
/// a live session and the administrator flag.
pub open spec fn escalated(cache: Cache, info: AuthenticatedUserInfo) -> Option<Seq<char>> {
    if cache.users.contains_key(info.user_id) && cache.users[info.user_id].admin {
        Some(cache.users[info.user_id].username)
    } else {
        None
    }
}

impl BearerError {
    /// The reason in words.
    pub fn message(&self) -> (text: &'static str)
        ensures
            text@ == (match *self {
                BearerError::MissingHeader => "Missing Authorization header"@,
                BearerError::MalformedHeader => "Malformed Authorization header"@,
                BearerError::InvalidType => "Invalid Authorization type"@,
                BearerError::MalformedToken => "Malformed Authorization token"@,
            }),
    {
        match self {
            BearerError::MissingHeader => "Missing Authorization header",
            BearerError::MalformedHeader => "Malformed Authorization header",
            BearerError::InvalidType => "Invalid Authorization type",
            BearerError::MalformedToken => "Malformed Authorization token",
        }
    }

    /// The status with which such a request is refused: 401.
    pub fn status(&self) -> (code: u16)
        ensures
            code == 401,
    {
        401
    }
}

/// Whether `c` is the letter given in its small and its capital form.
fn is_letter(c: char, small: char, capital: char) -> (same: bool)
    requires
        'A' <= capital <= 'Z',
        small == ascii_lower(capital),
    ensures
        same == (ascii_lower(c) == ascii_lower(small)),
{
    c == small || c == capital
}

/// Whether the first `len` characters spell `Bearer`, in any case.
fn scheme_is_bearer(chars: &Vec<char>, len: usize) -> (bearer: bool)
    requires
        len <= chars@.len(),
    ensures
        bearer == eq_ignore_ascii_case(chars@.subrange(0, len as int), "Bearer"@),
{
    proof {
        reveal_strlit("Bearer");
    }
    let ghost scheme = chars@.subrange(0, len as int);
    let ghost word = "Bearer"@;
    if len != 6 {
        return false;
    }
    let bearer = is_letter(chars[0], 'b', 'B') && is_letter(chars[1], 'e', 'E') && is_letter(
        chars[2],
        'a',
        'A',
    ) && is_letter(chars[3], 'r', 'R') && is_letter(chars[4], 'e', 'E') && is_letter(
        chars[5],
        'r',
        'R',
    );
    proof {
        assert(word.len() == 6);
        assert(word[0] == 'B' && word[1] == 'e' && word[2] == 'a' && word[3] == 'r' && word[4]
            == 'e' && word[5] == 'r');
        assert(scheme[0] == chars@[0] && scheme[1] == chars@[1] && scheme[2] == chars@[2]
            && scheme[3] == chars@[3] && scheme[4] == chars@[4] && scheme[5] == chars@[5]);
        if bearer {
            assert forall|i: int| 0 <= i < scheme.len() implies ascii_lower(#[trigger] scheme[i])
                == ascii_lower(word[i]) by {
                assert(i == 0 || i == 1 || i == 2 || i == 3 || i == 4 || i == 5);
            }
        }
    }
    bearer
}

/// Takes the credential out of an `Authorization` header.
pub fn bearer_credential(header: &str) -> (credential: Result<&str, BearerError>)
    ensures
        match credential {
            Ok(text) => bearer_credential_spec(header@) == Ok::<Seq<char>, BearerError>(text@),
            Err(error) => bearer_credential_spec(header@) == Err::<Seq<char>, BearerError>(error),
        },
{
    let chars = chars_of(header);
    let mut at: usize = 0;
    while at < chars.len() && chars[at] != ' '
        invariant
            at <= chars@.len(),
            forall|i: int| 0 <= i < at ==> chars@[i] != ' ',
        decreases chars@.len() - at,
    {
        at += 1;
    }
    proof {
        lemma_first_space_is(chars@, at as int);
    }
    if at == chars.len() {
        return Err(BearerError::MalformedHeader);
    }
    if !scheme_is_bearer(&chars, at) {
        return Err(BearerError::InvalidType);
    }
    let (start, end) = trim_bounds(&chars, at + 1, chars.len());
    Ok(header.substring_char(start, end))
}

/// Takes the token out of an `Authorization` header, if the request has
/// one.
pub fn bearer_token(header: Option<&str>) -> (token: Result<Token, BearerError>)
    ensures
        token == bearer_token_spec(text_of(header)),
{
    let header = match header {
        Some(header) => header,
        None => {
            return Err(BearerError::MissingHeader);
        },
    };
    let text = match bearer_credential(header) {
        Ok(text) => text,
        Err(error) => {
            return Err(error);
        },
    };
    match Token::from_str(text) {
        Ok(token) => Ok(token),
        Err(_) => Err(BearerError::MalformedToken),
    }
}

/// The value of a cookie without the white space around it.
pub fn cookie_credential(value: &str) -> (credential: &str)
    ensures
        credential@ == trimmed(value@),
{
    let chars = chars_of(value);
    let (start, end) = trim_bounds(&chars, 0, chars.len());
    proof {
        assert(chars@.subrange(0, chars@.len() as int) =~= chars@);
    }
    value.substring_char(start, end)
}

/// Takes the token out of the `Authorization` cookie, if the request has
/// one.
pub fn cookie_token(cookie: Option<&str>) -> (token: Option<Token>)
    ensures
        token == cookie_token_spec(text_of(cookie)),
{
    match cookie {
        Some(value) => match Token::from_str(cookie_credential(value)) {
            Ok(token) => Some(token),
            Err(_) => None,
        },
        None => None,
    }
}

impl BearerAuthToken {
    /// The guard on the `Authorization` header that passes a request on
    /// when it carries no token.
    pub fn from_request(header: Option<&str>) -> (outcome: Outcome<Self>)
        ensures
            match bearer_token_spec(text_of(header)) {
                Ok(token) => outcome matches Outcome::Success(bearer) && bearer.token == token,
                Err(_) => outcome is Forward,
            },
    {
        match bearer_token(header) {
            Ok(token) => Outcome::Success(Self { token }),
            Err(_) => Outcome::Forward,
        }
    }
}

impl BearerToken {
    /// The guard on the `Authorization` header that refuses a request when
    /// it carries no token, and says why.
    pub fn from_request(header: Option<&str>) -> (outcome: Outcome<Self>)
        ensures
            match bearer_token_spec(text_of(header)) {
                Ok(token) => outcome matches Outcome::Success(bearer) && bearer.token == token,
                Err(error) => outcome matches Outcome::Failure(reason) && reason == error,
            },
    {
        match bearer_token(header) {
            Ok(token) => Outcome::Success(Self { token }),
            Err(error) => Outcome::Failure(error),
        }
    }
}

impl CookieAuthToken {
    /// The guard on the `Authorization` cookie, which passes a request on
    /// when it carries no token.
    pub fn from_request(cookie: Option<&str>) -> (outcome: Outcome<Self>)
        ensures
            match cookie_token_spec(text_of(cookie)) {
                Some(token) => outcome matches Outcome::Success(held) && held.token == token,
                None => outcome is Forward,
            },
    {
        match cookie_token(cookie) {
            Some(token) => Outcome::Success(Self { token }),
            None => Outcome::Forward,
        }
    }
}

impl<T: IntoToken> AuthenticatedUser<T> {
    /// The guard for an authenticated user: the token that the guard `T`
    /// obtained must be live.  The request is passed on if it is not; what
    /// `T` made of a request without a token stands.  The cache is only
    /// read.
    pub fn from_request(extracted: Outcome<T>, state: &ApiState) -> (outcome: Outcome<Self>)
        requires
            state.inv(),
        ensures
            match extracted {
                Outcome::Success(held) => match resolved(state@, held.held_token()) {
                    Some(info) => outcome matches Outcome::Success(user) && user.info == info,
                    None => outcome is Forward,
                },
                Outcome::Failure(error) => outcome matches Outcome::Failure(reason) && reason
                    == error,
                Outcome::Forward => outcome is Forward,
                Outcome::Forbidden => outcome is Forbidden,
            },
    {
        let access_token = match extracted {
            Outcome::Success(held) => held.into_token(),
            Outcome::Failure(error) => {
                return Outcome::Failure(error);
            },
            Outcome::Forward => {
                return Outcome::Forward;
            },
            Outcome::Forbidden => {
                return Outcome::Forbidden;
            },
        };
        let access_token_info = match state.find_session(&access_token) {
            Some(info) => info,
            None => {
                return Outcome::Forward;
            },
        };
        Outcome::Success(
            AuthenticatedUser {
                info: AuthenticatedUserInfo {
                    session_id: access_token_info.session_id,
                    user_id: access_token_info.user_id,
                    access_token,
                },
                _ph: PhantomData,
            },
        )
    }
}

/// The name on a user's record, if the record has the administrator flag.
pub fn admin_name(user_info: &UserInfo) -> (name: Option<String>)
    ensures
        name is Some <==> user_info@.admin,
        name matches Some(n) ==> n@ == user_info@.username,
{
    if !user_info.is_admin() {
        None
    } else {
        Some(user_info.username().clone())
    }
}

impl<T: IntoToken> AuthenticatedAdmin<T> {
    /// The guard for an administrator: the authenticated user must be on
    /// record with the administrator flag.  A user who is not is refused as
    /// forbidden, which is not how a request without a live token ends;
    /// what the guard for the user made of such a request stands.  The
    /// cache is only read.
    pub fn from_request(user: Outcome<AuthenticatedUser<T>>, state: &ApiState) -> (outcome: Outcome<
        Self,
    >)
        ensures
            match user {
                Outcome::Success(user) => match escalated(state@, user.info) {
                    Some(name) => outcome matches Outcome::Success(admin) && admin.info
                        == user.info && admin.username@ == name,
                    None => outcome is Forbidden,
                },
                Outcome::Failure(error) => outcome matches Outcome::Failure(reason) && reason
                    == error,
                Outcome::Forward => outcome is Forward,
                Outcome::Forbidden => outcome is Forbidden,
            },
    {
        let user = match user {
            Outcome::Success(user) => user,
            Outcome::Failure(error) => {
                return Outcome::Failure(error);
            },
            Outcome::Forward => {
                return Outcome::Forward;
            },
            Outcome::Forbidden => {
                return Outcome::Forbidden;
            },
        };
        let name = state.with_user_info(&user.info.user_id, admin_name);
        proof {
            if state@.users.contains_key(user.info.user_id) {
                state.lemma_user_record(user.info.user_id);
            }
        }
        match name {
            Some(Some(username)) => Outcome::Success(
                AuthenticatedAdmin { info: user.info, username, _ph: PhantomData },
            ),
            _ => Outcome::Forbidden,
        }
    }
}

} // verus!
