use vstd::prelude::*;
use crate::state::AccessTokenInfo;
use crate::tokens::Token;
use crate::types::{SessionId, UserId};

verus! {

/// The interval, in seconds, that must pass between two maintenance sweeps.
pub const MAINTENANCE_INTERVAL_IN_SECS: u64 = 60;

/// What the cache knows of a user with at least one live session.
pub struct UserView {
    /// Number of live sessions.
    pub sessions_count: nat,
    /// Name under which the user logged in first.
    pub username: Seq<char>,
    /// Administrator flag, as the store gave it at that login.
    pub admin: bool,
}

/// A cached address book.
pub struct AddressBookView {
    /// The content may differ from the last value known to be in the store.
    pub modified: bool,
    /// The user's last session has ended.  The mark is kept up to date, but
    /// nothing is evicted on its account: a sweep leaves marked entries in
    /// the cache, where they serve the user's next login without a read of
    /// the store.
    pub remove_after_flush: bool,
    /// The blob itself.
    pub content: Seq<char>,
}

/// The cache as a mathematical value: four tables, the session counter and
/// the time of the last maintenance sweep.
#[verifier::ext_equal]
pub struct Cache {
    /// Live tokens.
    pub tokens: Map<Token, AccessTokenInfo>,
    /// Live sessions, with the user each belongs to.
    pub sessions: Map<SessionId, UserId>,
    /// Users with a live session.
    pub users: Map<UserId, UserView>,
    /// Cached address books.
    pub address_books: Map<UserId, AddressBookView>,
    /// The last session identifier handed out.
    pub counter: nat,
    /// Seconds since the epoch at the last sweep.
    pub last_maintenance_time: nat,
}

/// One entry of a write batch: a user and the blob to persist for them.
pub type BatchEntry = (UserId, Seq<char>);

impl Cache {
    /// The cache of a process that has just started.
    pub open spec fn empty() -> Cache {
        Cache {
            tokens: Map::empty(),
            sessions: Map::empty(),
            users: Map::empty(),
            address_books: Map::empty(),
            counter: 0,
            last_maintenance_time: 0,
        }
    }

    /// The session that a token stands for, if it is live.
    pub open spec fn find_session(self, token: Token) -> Option<AccessTokenInfo> {
        if self.tokens.contains_key(token) {
            Some(self.tokens[token])
        } else {
            None
        }
    }

    /// The live tokens of one user.
    pub open spec fn tokens_of(self, user_id: UserId) -> Set<Token> {
        self.tokens.dom().filter(|t: Token| self.tokens[t].user_id == user_id)
    }

    /// The identity `(session_id, user_id, token)` is the one the token stands for.
    pub open spec fn is_live(self, session_id: SessionId, user_id: UserId, token: Token) -> bool {
        self.tokens.contains_key(token) && self.tokens[token] == (AccessTokenInfo {
            session_id,
            user_id,
        })
    }

    /// The user record after one more login of `user_id`.
    pub open spec fn user_after_login(self, user_id: UserId, username: Seq<char>, admin: bool)
        -> UserView {
        if self.users.contains_key(user_id) {
            UserView {
                sessions_count: self.users[user_id].sessions_count + 1,
                ..self.users[user_id]
            }
        } else {
            UserView { sessions_count: 1, username, admin }
        }
    }

    /// The address books with the eviction mark of `user_id` set to `mark`,
    /// if the user has an entry.
    pub open spec fn address_books_marked(self, user_id: UserId, mark: bool) -> Map<
        UserId,
        AddressBookView,
    > {
        if self.address_books.contains_key(user_id) {
            self.address_books.insert(
                user_id,
                AddressBookView { remove_after_flush: mark, ..self.address_books[user_id] },
            )
        } else {
            self.address_books
        }
    }

    /// The cache after a session was opened for `user_id` under `token`.
    ///
    /// The session gets the next identifier.  A user without a live session
    /// gets a record with the given name and flag; a user with one keeps the
    /// record and counts one session more.  The user's address book, if
    /// cached, is no longer marked for eviction.
    pub open spec fn open_session(
        self,
        user_id: UserId,
        username: Seq<char>,
        admin: bool,
        token: Token,
    ) -> Cache {
        let session_id = (self.counter + 1) as SessionId;
        Cache {
            tokens: self.tokens.insert(token, AccessTokenInfo { session_id, user_id }),
            sessions: self.sessions.insert(session_id, user_id),
            users: self.users.insert(user_id, self.user_after_login(user_id, username, admin)),
            address_books: self.address_books_marked(user_id, false),
            counter: self.counter + 1,
            last_maintenance_time: self.last_maintenance_time,
        }
    }

    /// Room is left to open a session for `user_id`: neither the session
    /// counter nor the user's session count is at its machine limit.
    pub open spec fn has_room(self, user_id: UserId) -> bool {
        &&& self.counter < u64::MAX
        &&& self.users.contains_key(user_id) ==> self.users[user_id].sessions_count < usize::MAX
    }

    /// The cache after the logout of the identity `(session_id, user_id, token)`.
    ///
    /// Nothing changes if the user has no live session.  Otherwise the user
    /// counts one session less; at zero the user's record is removed and the
    /// address book, if cached, is marked for eviction.  The session and the
    /// token are removed in any case.
    pub open spec fn logout(self, session_id: SessionId, user_id: UserId, token: Token) -> Cache {
        if !self.users.contains_key(user_id) {
            self
        } else {
            let user = self.users[user_id];
            let last = user.sessions_count <= 1;
            Cache {
                tokens: self.tokens.remove(token),
                sessions: self.sessions.remove(session_id),
                users: if last {
                    self.users.remove(user_id)
                } else {
                    self.users.insert(
                        user_id,
                        UserView { sessions_count: (user.sessions_count - 1) as nat, ..user },
                    )
                },
                address_books: if last {
                    self.address_books_marked(user_id, true)
                } else {
                    self.address_books
                },
                counter: self.counter,
                last_maintenance_time: self.last_maintenance_time,
            }
        }
    }

    /// The cached address book of a user, if there is one.
    pub open spec fn get_address_book(self, user_id: UserId) -> Option<Seq<char>> {
        if self.address_books.contains_key(user_id) {
            Some(self.address_books[user_id].content)
        } else {
            None
        }
    }

    /// The cache after the store's answer for a user's address book was
    /// received.  An entry that is cached by then stays as it is, so that no
    /// write made in the meantime is lost; otherwise a stored blob is cached
    /// as clean.
    pub open spec fn load_address_book(self, user_id: UserId, stored: Option<Seq<char>>) -> Cache {
        if self.address_books.contains_key(user_id) {
            self
        } else {
            match stored {
                Some(content) => Cache {
                    address_books: self.address_books.insert(
                        user_id,
                        AddressBookView { modified: false, remove_after_flush: false, content },
                    ),
                    ..self
                },
                None => self,
            }
        }
    }

    /// The address book that a read ends with once the store has answered:
    /// the cached one if there is one by then, else the stored one.
    pub open spec fn loaded_address_book(self, user_id: UserId, stored: Option<Seq<char>>)
        -> Option<Seq<char>> {
        if self.address_books.contains_key(user_id) {
            Some(self.address_books[user_id].content)
        } else {
            stored
        }
    }

    /// The cache after a user wrote an address book.
    ///
    /// A first entry is cached as clean.  An existing entry with another
    /// content takes the new one and becomes dirty; with the same content
    /// nothing changes.
    pub open spec fn set_address_book(self, user_id: UserId, content: Seq<char>) -> Cache {
        if !self.address_books.contains_key(user_id) {
            Cache {
                address_books: self.address_books.insert(
                    user_id,
                    AddressBookView { modified: false, remove_after_flush: false, content },
                ),
                ..self
            }
        } else if self.address_books[user_id].content != content {
            Cache {
                address_books: self.address_books.insert(
                    user_id,
                    AddressBookView { modified: true, content, ..self.address_books[user_id] },
                ),
                ..self
            }
        } else {
            self
        }
    }

    /// The users whose cached address book is dirty.
    pub open spec fn dirty(self) -> Set<UserId> {
        self.address_books.dom().filter(|u: UserId| self.address_books[u].modified)
    }

    /// `batch` lists every dirty address book once, with its cached content,
    /// and nothing else.
    pub open spec fn is_dirty_batch(self, batch: Seq<BatchEntry>) -> bool {
        &&& forall|i: int|
            0 <= i < batch.len() ==> {
                &&& self.dirty().contains((#[trigger] batch[i]).0)
                &&& self.address_books[batch[i].0].content == batch[i].1
            }
        &&& forall|i: int, j: int|
            0 <= i < j < batch.len() ==> (#[trigger] batch[i]).0 != (#[trigger] batch[j]).0
        &&& forall|u: UserId|
            self.dirty().contains(u) ==> exists|i: int|
                0 <= i < batch.len() && (#[trigger] batch[i]).0 == u
    }

    /// `batch` holds the cached content of `user_id`.
    pub open spec fn written(self, batch: Seq<BatchEntry>, user_id: UserId) -> bool {
        &&& self.address_books.contains_key(user_id)
        &&& batch.contains((user_id, self.address_books[user_id].content))
    }

    /// The cache after the store answered a batch write.
    ///
    /// A confirmed write makes clean every entry whose cached content is the
    /// one the batch held for that user.  An unconfirmed write changes
    /// nothing, so that the next sweep tries again.  No entry is removed,
    /// marked for eviction or not.
    pub open spec fn flushed(self, batch: Seq<BatchEntry>, confirmed: bool) -> Cache {
        if confirmed {
            Cache {
                address_books: Map::new(
                    |u: UserId| self.address_books.contains_key(u),
                    |u: UserId|
                        if self.written(batch, u) {
                            AddressBookView { modified: false, ..self.address_books[u] }
                        } else {
                            self.address_books[u]
                        },
                ),
                ..self
            }
        } else {
            self
        }
    }

    /// At `now` seconds since the epoch a sweep is due: at least the
    /// maintenance interval has passed since the last one.
    pub open spec fn sweep_due(self, now: nat) -> bool {
        now >= self.last_maintenance_time + MAINTENANCE_INTERVAL_IN_SECS
    }

    /// The cache after the maintenance gate was asked at `now`.
    pub open spec fn gate(self, now: nat) -> Cache {
        if self.sweep_due(now) {
            Cache { last_maintenance_time: now, ..self }
        } else {
            self
        }
    }

    /// The session tables agree with each other.
    ///
    /// Every live token has its session and its user on record, every
    /// session has exactly one token and an identifier that the counter has
    /// passed, and every user on record counts as many sessions as there
    /// are live tokens for them, at least one.
    pub open spec fn consistent(self) -> bool {
        &&& self.tokens.dom().finite()
        &&& forall|t: Token| #[trigger]
            self.tokens.contains_key(t) ==> {
                &&& self.sessions.contains_key(self.tokens[t].session_id)
                &&& self.sessions[self.tokens[t].session_id] == self.tokens[t].user_id
                &&& self.users.contains_key(self.tokens[t].user_id)
            }
        &&& forall|s: SessionId| #[trigger]
            self.sessions.contains_key(s) ==> {
                &&& 1 <= s <= self.counter
                &&& exists|t: Token| #[trigger]
                    self.tokens.contains_key(t) && self.tokens[t].session_id == s
            }
        &&& forall|t1: Token, t2: Token|
            #[trigger] self.tokens.contains_key(t1) && #[trigger] self.tokens.contains_key(t2)
                && t1 != t2 ==> self.tokens[t1].session_id != self.tokens[t2].session_id
        &&& forall|u: UserId| #[trigger]
            self.users.contains_key(u) ==> {
                &&& self.users[u].sessions_count >= 1
                &&& self.users[u].sessions_count == self.tokens_of(u).len()
            }
    }
}

} // verus!
