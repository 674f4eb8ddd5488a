use std::collections::HashMap;
use vstd::prelude::*;
use vstd::std_specs::iter::IteratorSpec;
use crate::address_book::AddressBook;
use crate::bearer::AuthenticatedUserInfo;
use crate::clock::secs_from_epoch;
use crate::database::{DatabaseUserInfo, DatabaseUserPasswordInfo};
use crate::laws::{
    batch_length_is_dirty_count, logout_keeps_consistency, open_session_keeps_consistency,
};
use crate::model::{AddressBookView, BatchEntry, Cache, UserView, MAINTENANCE_INTERVAL_IN_SECS};
use crate::password::UserPasswordInfo;
use crate::token_table::TokenTable;
use crate::tokens::Token;
use crate::types::{SessionId, UserId};

verus! {

broadcast use vstd::std_specs::hash::group_hash_axioms;

/// What a live token stands for: one session of one user.
#[derive(Debug, Clone, Copy, PartialEq, Eq, Structural)]
pub struct AccessTokenInfo {
    pub session_id: SessionId,
    pub user_id: UserId,
}

/// What the cache keeps of a user with at least one live session.
#[derive(Debug)]
pub struct UserInfo {
    sessions_count: usize,
    pub username: String,
    pub admin: bool,
}

/// What the cache keeps of a live session.
#[derive(Debug)]
struct SessionInfo {
    user_id: UserId,
}

/// The session counter and the live sessions.
#[derive(Debug)]
struct SessionsState {
    counter: SessionId,
    sessions: HashMap<SessionId, SessionInfo>,
}

/// A cached address book with its write-back flags.
#[derive(Debug)]
pub struct AddressBookInfo {
    modified: bool,
    remove_after_flush: bool,
    pub address_book: AddressBook,
}

/// The cache of live sessions and address books.
pub struct ApiState {
    last_maintenance_time: u64,
    access_tokens: TokenTable,
    sessions: SessionsState,
    users: HashMap<UserId, UserInfo>,
    address_books: HashMap<UserId, AddressBookInfo>,
}

impl View for UserInfo {
    type V = UserView;

    closed spec fn view(&self) -> UserView {
        UserView {
            sessions_count: self.sessions_count as nat,
            username: self.username@,
            admin: self.admin,
        }
    }
}

impl UserInfo {
    /// Number of live sessions of the user.
    pub fn sessions_count(&self) -> (count: usize)
        ensures
            count == self@.sessions_count,
    {
        self.sessions_count
    }

    /// Name under which the user logged in first.
    pub fn username(&self) -> (name: &String)
        ensures
            name@ == self@.username,
    {
        &self.username
    }

    /// Administrator flag, as the store gave it at that login.
    pub fn is_admin(&self) -> (admin: bool)
        ensures
            admin == self@.admin,
    {
        self.admin
    }
}

impl View for AddressBookInfo {
    type V = AddressBookView;

    closed spec fn view(&self) -> AddressBookView {
        AddressBookView {
            modified: self.modified,
            remove_after_flush: self.remove_after_flush,
            content: self.address_book@,
        }
    }
}

impl AddressBookInfo {
    /// The cached blob.
    pub fn address_book(&self) -> (book: &AddressBook)
        ensures
            book@ == self@.content,
    {
        &self.address_book
    }

    /// Whether the content may differ from what the store holds.
    pub fn is_modified(&self) -> (modified: bool)
        ensures
            modified == self@.modified,
    {
        self.modified
    }

    /// Whether the entry is marked for eviction after its next flush.
    pub fn is_remove_after_flush(&self) -> (marked: bool)
        ensures
            marked == self@.remove_after_flush,
    {
        self.remove_after_flush
    }
}

/// The content of an address book that may be absent.
pub open spec fn content_of(book: Option<AddressBook>) -> Option<Seq<char>> {
    match book {
        Some(book) => Some(book@),
        None => None,
    }
}

/// A write batch as the model sees it: users and contents.
pub open spec fn batch_view(batch: Seq<(UserId, AddressBook)>) -> Seq<BatchEntry> {
    batch.map_values(|entry: (UserId, AddressBook)| (entry.0, entry.1@))
}

/// The store's two answers let the user in: the user exists and is active,
/// and the stored secret is the supplied one.
pub open spec fn credentials_accepted(
    supplied: Seq<char>,
    user_record: Option<(UserId, DatabaseUserInfo)>,
    password_record: Option<DatabaseUserPasswordInfo>,
) -> bool {
    &&& user_record matches Some(found) && found.1.active
    &&& password_record matches Some(record) && record.password@ == supplied
}

impl View for ApiState {
    type V = Cache;

    closed spec fn view(&self) -> Cache {
        Cache {
            tokens: self.access_tokens@,
            sessions: self.sessions.sessions@.map_values(|s: SessionInfo| s.user_id),
            users: self.users@.map_values(|u: UserInfo| u@),
            address_books: self.address_books@.map_values(|a: AddressBookInfo| a@),
            counter: self.sessions.counter as nat,
            last_maintenance_time: self.last_maintenance_time as nat,
        }
    }
}

impl ApiState {
    /// The representation is sound: the token table is well formed and no
    /// user is on record without a session.
    pub closed spec fn inv(&self) -> bool {
        &&& self.access_tokens.wf()
        &&& forall|u: UserId| #[trigger]
            self.users@.contains_key(u) ==> self.users@[u].sessions_count >= 1
    }

    /// The record that the cache keeps of a user.
    pub closed spec fn user_record(&self, user_id: UserId) -> UserInfo {
        self.users@[user_id]
    }

    /// The record of a user is the one that the view shows.
    pub proof fn lemma_user_record(&self, user_id: UserId)
        requires
            self@.users.contains_key(user_id),
        ensures
            self.user_record(user_id)@ == self@.users[user_id],
    {
    }

    /// The tables of a sound cache are finite.
    pub proof fn lemma_finite(&self)
        ensures
            self@.tokens.dom().finite(),
            self@.address_books.dom().finite(),
    {
        self.access_tokens.lemma_finite();
        assert(self@.address_books.dom() =~= self.address_books@.dom());
    }

    /// The cache of a process that has just started.
    pub fn new() -> (state: Self)
        ensures
            state.inv(),
            state@ == Cache::empty(),
            state@.consistent(),
    {
        let state = ApiState {
            last_maintenance_time: 0,
            access_tokens: TokenTable::new(),
            sessions: SessionsState { counter: 0, sessions: HashMap::new() },
            users: HashMap::new(),
            address_books: HashMap::new(),
        };
        proof {
            assert(state@ =~= Cache::empty());
            crate::laws::empty_is_consistent();
        }
        state
    }

    /// Whether a session can still be opened for `user_id`.
    pub fn has_room(&self, user_id: UserId) -> (room: bool)
        ensures
            room == self@.has_room(user_id),
    {
        if self.sessions.counter == u64::MAX {
            return false;
        }
        match self.users.get(&user_id) {
            Some(info) => info.sessions_count < usize::MAX,
            None => true,
        }
    }

    /// Opens a session for `user_id` under `token`.
    ///
    /// If the session tables were consistent and the token was not live,
    /// they are consistent afterwards.
    pub fn open_session(&mut self, user_id: UserId, username: &String, admin: bool, token: Token)
        -> (info: AccessTokenInfo)
        requires
            old(self).inv(),
            old(self)@.has_room(user_id),
        ensures
            final(self).inv(),
            final(self)@ == old(self)@.open_session(user_id, username@, admin, token),
            info == (AccessTokenInfo {
                session_id: (old(self)@.counter + 1) as SessionId,
                user_id,
            }),
            old(self)@.consistent() && !old(self)@.tokens.contains_key(token) ==> final(self)@.consistent(),
    {
        self.sessions.counter = self.sessions.counter + 1;
        let session_id = self.sessions.counter;
        let user_info = match self.users.remove(&user_id) {
            Some(known) => UserInfo {
                sessions_count: known.sessions_count + 1,
                username: known.username,
                admin: known.admin,
            },
            None => UserInfo { sessions_count: 1, username: username.clone(), admin },
        };
        self.users.insert(user_id, user_info);
        if let Some(book) = self.address_books.remove(&user_id) {
            self.address_books.insert(
                user_id,
                AddressBookInfo {
                    modified: book.modified,
                    remove_after_flush: false,
                    address_book: book.address_book,
                },
            );
        }
        self.sessions.sessions.insert(session_id, SessionInfo { user_id });
        let info = AccessTokenInfo { session_id, user_id };
        self.access_tokens.insert(token, info);
        proof {
            let after = old(self)@.open_session(user_id, username@, admin, token);
            assert(self@.users =~= after.users);
            assert(self@.address_books =~= after.address_books);
            assert(self@.sessions =~= after.sessions);
            assert(self@ =~= after);
            if old(self)@.consistent() && !old(self)@.tokens.contains_key(token) {
                open_session_keeps_consistency(old(self)@, user_id, username@, admin, token);
            }
        }
        info
    }

    /// The user whose password record the login needs next: the user that
    /// the store found, if active.
    pub fn password_lookup(user_record: &Option<(UserId, DatabaseUserInfo)>) -> (user_id: Option<
        UserId,
    >)
        ensures
            user_id == (match *user_record {
                Some(found) => if found.1.active {
                    Some(found.0)
                } else {
                    None
                },
                None => None,
            }),
    {
        match user_record {
            Some(found) => if found.1.active {
                Some(found.0)
            } else {
                None
            },
            None => None,
        }
    }

    /// Whether the store's two answers let the user in.
    pub fn login_accepted(
        password_info: &UserPasswordInfo,
        user_record: &Option<(UserId, DatabaseUserInfo)>,
        password_record: &Option<DatabaseUserPasswordInfo>,
    ) -> (accepted: bool)
        ensures
            accepted == credentials_accepted(
                password_info.secret(),
                *user_record,
                *password_record,
            ),
    {
        match user_record {
            Some(found) => match password_record {
                Some(record) => found.1.active && password_info.agrees_with(record),
                None => false,
            },
            None => false,
        }
    }

    /// Logs a user in, given the store's answers: the user found under
    /// `username`, and that user's password record.
    ///
    /// The login is refused, and nothing changes, unless the user exists, is
    /// active and the stored secret is the supplied one.  Otherwise a session
    /// is opened under a fresh random token, which is returned with the name.
    pub fn user_login(
        &mut self,
        username: &String,
        password_info: UserPasswordInfo,
        user_record: Option<(UserId, DatabaseUserInfo)>,
        password_record: Option<DatabaseUserPasswordInfo>,
    ) -> (reply: Option<(String, Token)>)
        requires
            old(self).inv(),
            credentials_accepted(password_info.secret(), user_record, password_record) ==> old(self)@.has_room(user_record.unwrap().0),
        ensures
            final(self).inv(),
            reply is Some <==> credentials_accepted(
                password_info.secret(),
                user_record,
                password_record,
            ),
            reply is None ==> final(self)@ == old(self)@,
            reply matches Some(granted) ==> {
                &&& granted.0@ == username@
                &&& final(self)@ == old(self)@.open_session(
                    user_record.unwrap().0,
                    username@,
                    user_record.unwrap().1.admin,
                    granted.1,
                )
                &&& old(self)@.consistent() && !old(self)@.tokens.contains_key(granted.1)
                    ==> final(self)@.consistent()
            },
    {
        let (user_id, db_user_info) = match user_record {
            Some(found) => found,
            None => {
                return None;
            },
        };
        if !db_user_info.active {
            return None;
        }
        let db_password_info = match password_record {
            Some(record) => record,
            None => {
                return None;
            },
        };
        if !password_info.check(db_password_info) {
            return None;
        }
        let access_token = Token::new_random();
        self.open_session(user_id, username, db_user_info.admin, access_token);
        Some((username.clone(), access_token))
    }

    /// The session that a token stands for, if it is live.
    pub fn find_session(&self, access_token: &Token) -> (info: Option<AccessTokenInfo>)
        requires
            self.inv(),
        ensures
            info == self@.find_session(*access_token),
    {
        self.access_tokens.get(access_token)
    }

    /// The cached address book of a user, if there is one.  On `None` the
    /// caller asks the store and hands the answer to
    /// [`ApiState::cache_user_address_book`].
    pub fn get_user_address_book(&self, user_id: UserId) -> (book: Option<AddressBook>)
        ensures
            content_of(book) == self@.get_address_book(user_id),
    {
        match self.address_books.get(&user_id) {
            Some(info) => Some(info.address_book.clone()),
            None => None,
        }
    }

    /// Takes the store's answer for a user's address book after a cache
    /// miss.  If the user has an entry by now, it stays as it is and its
    /// book is returned; otherwise a stored book is cached as clean and
    /// returned.
    pub fn cache_user_address_book(&mut self, user_id: UserId, stored: Option<AddressBook>) -> (book:
        Option<AddressBook>)
        requires
            old(self).inv(),
        ensures
            final(self).inv(),
            final(self)@ == old(self)@.load_address_book(user_id, content_of(stored)),
            content_of(book) == old(self)@.loaded_address_book(user_id, content_of(stored)),
            content_of(book) == final(self)@.get_address_book(user_id),
    {
        if let Some(info) = self.address_books.get(&user_id) {
            return Some(info.address_book.clone());
        }
        match stored {
            Some(ab) => {
                let abi = AddressBookInfo {
                    modified: false,
                    remove_after_flush: false,
                    address_book: ab.clone(),
                };
                self.address_books.insert(user_id, abi);
                proof {
                    let after = old(self)@.load_address_book(user_id, content_of(stored));
                    assert(self@.address_books =~= after.address_books);
                    assert(self@ =~= after);
                }
                Some(ab)
            },
            None => None,
        }
    }

    /// Caches an address book that a user wrote.  The store is not touched:
    /// a changed entry becomes dirty and waits for the next sweep.
    pub fn set_user_address_book(&mut self, user_id: UserId, address_book: AddressBook) -> (done:
        Option<()>)
        requires
            old(self).inv(),
        ensures
            final(self).inv(),
            done == Some(()),
            final(self)@ == old(self)@.set_address_book(user_id, address_book@),
    {
        let ghost after = old(self)@.set_address_book(user_id, address_book@);
        match self.address_books.remove(&user_id) {
            Some(abi) => {
                let entry = if abi.address_book != address_book {
                    AddressBookInfo {
                        modified: true,
                        remove_after_flush: abi.remove_after_flush,
                        address_book,
                    }
                } else {
                    abi
                };
                self.address_books.insert(user_id, entry);
            },
            None => {
                let abi = AddressBookInfo {
                    modified: false,
                    remove_after_flush: false,
                    address_book,
                };
                self.address_books.insert(user_id, abi);
            },
        }
        proof {
            assert(self@.address_books =~= after.address_books);
            assert(self@ =~= after);
        }
        Some(())
    }

    /// Ends the session of an identity.
    ///
    /// Fails, and changes nothing, if the user has no live session.  If the
    /// session tables were consistent and the identity was live, they are
    /// consistent afterwards.
    pub fn user_logout(&mut self, user: &AuthenticatedUserInfo) -> (done: Option<()>)
        requires
            old(self).inv(),
        ensures
            final(self).inv(),
            done is Some <==> old(self)@.users.contains_key(user.user_id),
            final(self)@ == old(self)@.logout(user.session_id, user.user_id, user.access_token),
            old(self)@.consistent() && old(self)@.is_live(
                user.session_id,
                user.user_id,
                user.access_token,
            ) ==> done is Some && final(self)@.consistent(),
    {
        let ghost after = old(self)@.logout(user.session_id, user.user_id, user.access_token);
        proof {
            if old(self)@.consistent() && old(self)@.is_live(
                user.session_id,
                user.user_id,
                user.access_token,
            ) {
                logout_keeps_consistency(
                    old(self)@,
                    user.session_id,
                    user.user_id,
                    user.access_token,
                );
            }
        }
        let user_info = match self.users.remove(&user.user_id) {
            Some(known) => known,
            None => {
                proof {
                    assert(self@.users =~= after.users);
                    assert(self@ =~= after);
                }
                return None;
            },
        };
        if user_info.sessions_count > 1 {
            self.users.insert(
                user.user_id,
                UserInfo {
                    sessions_count: user_info.sessions_count - 1,
                    username: user_info.username,
                    admin: user_info.admin,
                },
            );
        } else {
            if let Some(book) = self.address_books.remove(&user.user_id) {
                self.address_books.insert(
                    user.user_id,
                    AddressBookInfo {
                        modified: book.modified,
                        remove_after_flush: true,
                        address_book: book.address_book,
                    },
                );
            }
        }
        self.sessions.sessions.remove(&user.session_id);
        self.access_tokens.remove(&user.access_token);
        proof {
            assert(self@.users =~= after.users);
            assert(self@.address_books =~= after.address_books);
            assert(self@.sessions =~= after.sessions);
            assert(self@ =~= after);
        }
        Some(())
    }

    /// The name under which the user of an identity logged in, if the user
    /// has a live session.
    pub fn get_current_user_name(&self, user: &AuthenticatedUserInfo) -> (name: Option<String>)
        ensures
            name is Some <==> self@.users.contains_key(user.user_id),
            name matches Some(n) ==> n@ == self@.users[user.user_id].username,
    {
        match self.users.get(&user.user_id) {
            Some(info) => Some(info.username.clone()),
            None => None,
        }
    }

    /// Applies `f` to the record of a user, if the user has a live session.
    pub fn with_user_info<R, F: FnOnce(&UserInfo) -> R>(&self, user_id: &UserId, f: F) -> (result:
        Option<R>)
        requires
            forall|info: &UserInfo| f.requires((info,)),
        ensures
            result is Some <==> self@.users.contains_key(*user_id),
            result matches Some(r) ==> f.ensures((&self.user_record(*user_id),), r),
    {
        match self.users.get(user_id) {
            Some(user_info) => Some(f(user_info)),
            None => None,
        }
    }

    /// The users with a cached address book, each once.
    fn address_book_users(&self) -> (users: Vec<UserId>)
        ensures
            users@.no_duplicates(),
            users@.to_set() == self.address_books@.dom(),
    {
        let mut users: Vec<UserId> = Vec::new();
        for user_id in it: self.address_books.keys()
            invariant
                users@.len() == it.index(),
                forall|j: int| 0 <= j < users@.len() ==> users@[j] == *it.seq()[j],
        {
            users.push(*user_id);
        }
        proof {
            assert(users@ =~= self.address_books.keys().remaining().unref());
        }
        users
    }

    /// Collects every dirty address book, each once and with its cached
    /// content, in no particular order.
    pub fn dirty_address_books(&self) -> (batch: Vec<(UserId, AddressBook)>)
        ensures
            self@.is_dirty_batch(batch_view(batch@)),
            batch@.len() == self@.dirty().len(),
    {
        let users = self.address_book_users();
        let mut batch: Vec<(UserId, AddressBook)> = Vec::new();
        let mut i: usize = 0;
        while i < users.len()
            invariant
                i <= users@.len(),
                users@.no_duplicates(),
                users@.to_set() == self.address_books@.dom(),
                forall|k: int|
                    0 <= k < batch@.len() ==> {
                        &&& self@.dirty().contains((#[trigger] batch@[k]).0)
                        &&& self@.address_books[batch@[k].0].content == batch@[k].1@
                        &&& exists|j: int| 0 <= j < i && users@[j] == batch@[k].0
                    },
                forall|k: int, l: int|
                    0 <= k < l < batch@.len() ==> (#[trigger] batch@[k]).0 != (
                    #[trigger] batch@[l]).0,
                forall|j: int|
                    0 <= j < i && self@.dirty().contains(#[trigger] users@[j]) ==> exists|k: int|
                        0 <= k < batch@.len() && (#[trigger] batch@[k]).0 == users@[j],
            decreases users@.len() - i,
        {
            let user_id = users[i];
            let ghost before = batch@;
            if let Some(info) = self.address_books.get(&user_id) {
                if info.modified {
                    batch.push((user_id, info.address_book.clone()));
                    proof {
                        let last = batch@.len() - 1;
                        assert(batch@[last].0 == user_id);
                        assert forall|k: int, l: int| 0 <= k < l < batch@.len() implies (
                        #[trigger] batch@[k]).0 != (#[trigger] batch@[l]).0 by {
                            if l == last {
                                assert(batch@[k] == before[k]);
                                let j = choose|j: int| 0 <= j < i && users@[j] == before[k].0;
                                assert(users@[j] != users@[i as int]);
                            } else {
                                assert(batch@[k] == before[k]);
                                assert(batch@[l] == before[l]);
                            }
                        }
                        assert forall|k: int| 0 <= k < batch@.len() implies {
                            &&& self@.dirty().contains((#[trigger] batch@[k]).0)
                            &&& self@.address_books[batch@[k].0].content == batch@[k].1@
                            &&& exists|j: int| 0 <= j < i + 1 && users@[j] == batch@[k].0
                        } by {
                            if k < last {
                                assert(batch@[k] == before[k]);
                                let j = choose|j: int| 0 <= j < i && users@[j] == before[k].0;
                                assert(0 <= j < i + 1 && users@[j] == batch@[k].0);
                            } else {
                                assert(users@[i as int] == batch@[k].0);
                            }
                        }
                    }
                }
            }
            proof {
                assert forall|j: int|
                    0 <= j < i + 1 && self@.dirty().contains(
                        #[trigger] users@[j],
                    ) implies exists|k: int|
                    0 <= k < batch@.len() && (#[trigger] batch@[k]).0 == users@[j] by {
                    if j < i {
                        let k = choose|k: int|
                            0 <= k < before.len() && (#[trigger] before[k]).0 == users@[j];
                        assert(batch@[k] == before[k]);
                    } else {
                        let last = batch@.len() - 1;
                        assert(batch@[last].0 == users@[j]);
                    }
                }
            }
            i += 1;
        }
        proof {
            let entries = batch_view(batch@);
            assert forall|u: UserId| self@.dirty().contains(u) implies exists|k: int|
                0 <= k < entries.len() && (#[trigger] entries[k]).0 == u by {
                assert(users@.to_set().contains(u));
                let j = choose|j: int| 0 <= j < users@.len() && users@[j] == u;
                assert(self@.dirty().contains(users@[j]));
                let k = choose|k: int|
                    0 <= k < batch@.len() && (#[trigger] batch@[k]).0 == users@[j];
                assert(entries[k].0 == u);
            }
            assert forall|k: int| 0 <= k < entries.len() implies {
                &&& self@.dirty().contains((#[trigger] entries[k]).0)
                &&& self@.address_books[entries[k].0].content == entries[k].1
            } by {
                assert(entries[k].0 == batch@[k].0);
            }
            assert forall|k: int, l: int| 0 <= k < l < entries.len() implies (
            #[trigger] entries[k]).0 != (#[trigger] entries[l]).0 by {
                assert(entries[k].0 == batch@[k].0);
                assert(entries[l].0 == batch@[l].0);
            }
            self.lemma_finite();
            batch_length_is_dirty_count(self@, entries);
        }
        batch
    }

    /// Starts a sweep: gives the batch that the caller has to write to the
    /// store, or `None` where no address book is dirty.  No flag is cleared:
    /// that is left to [`ApiState::complete_flush`], once the store has
    /// answered.
    pub fn maintenance_flush_address_books(&self) -> (sweep: Option<Vec<(UserId, AddressBook)>>)
        ensures
            match sweep {
                Some(batch) => batch@.len() > 0 && self@.is_dirty_batch(batch_view(batch@)),
                None => self@.is_dirty_batch(Seq::empty()),
            },
    {
        let values = self.dirty_address_books();
        if !values.is_empty() {
            Some(values)
        } else {
            proof {
                assert(batch_view(values@) =~= Seq::<BatchEntry>::empty());
            }
            None
        }
    }

    /// Runs the maintenance work: starts a sweep of the dirty address books.
    pub fn maintenance(&self) -> (sweep: Option<Vec<(UserId, AddressBook)>>)
        ensures
            match sweep {
                Some(batch) => batch@.len() > 0 && self@.is_dirty_batch(batch_view(batch@)),
                None => self@.is_dirty_batch(Seq::empty()),
            },
    {
        self.maintenance_flush_address_books()
    }

    /// Ends a sweep with the store's answer to the write of `batch`.
    ///
    /// If the write was confirmed, every entry whose cached content is still
    /// the one that was written becomes clean.  If not, nothing changes and
    /// the entries stay dirty for the next sweep.  Entries of users without
    /// a session are kept, not evicted.
    pub fn complete_flush(&mut self, batch: &Vec<(UserId, AddressBook)>, confirmed: bool)
        requires
            old(self).inv(),
        ensures
            final(self).inv(),
            final(self)@ == old(self)@.flushed(batch_view(batch@), confirmed),
    {
        if !confirmed {
            return ;
        }
        let ghost entries = batch_view(batch@);
        let mut i: usize = 0;
        proof {
            assert(entries.take(0) =~= Seq::<BatchEntry>::empty());
            assert(self@.address_books =~= old(self)@.flushed(entries.take(0), true).address_books);
            assert(self@ =~= old(self)@.flushed(entries.take(0), true));
        }
        while i < batch.len()
            invariant
                i <= batch@.len(),
                entries == batch_view(batch@),
                self.inv(),
                self@ == old(self)@.flushed(entries.take(i as int), true),
            decreases batch@.len() - i,
        {
            let ghost before = self@;
            let user_id = batch[i].0;
            let mut clean = false;
            if let Some(info) = self.address_books.get(&user_id) {
                if info.address_book == batch[i].1 {
                    clean = true;
                }
            }
            if clean {
                if let Some(info) = self.address_books.remove(&user_id) {
                    self.address_books.insert(
                        user_id,
                        AddressBookInfo {
                            modified: false,
                            remove_after_flush: info.remove_after_flush,
                            address_book: info.address_book,
                        },
                    );
                }
            }
            proof {
                let start = old(self)@;
                let shorter = entries.take(i as int);
                let longer = entries.take(i + 1);
                let after = start.flushed(longer, true);
                assert(entries[i as int] == (user_id, batch@[i as int].1@));
                assert(longer =~= shorter.push(entries[i as int]));
                assert forall|u: UserId| #[trigger]
                    start.address_books.contains_key(u) implies (start.written(longer, u)
                    <==> start.written(shorter, u) || (u == user_id
                    && start.address_books[u].content == entries[i as int].1)) by {
                    let wanted = (u, start.address_books[u].content);
                    if start.written(longer, u) {
                        let k = choose|k: int| 0 <= k < longer.len() && longer[k] == wanted;
                        if k < i {
                            assert(shorter[k] == wanted);
                        }
                    }
                    if start.written(shorter, u) {
                        let k = choose|k: int| 0 <= k < shorter.len() && shorter[k] == wanted;
                        assert(longer[k] == wanted);
                    }
                    if u == user_id && start.address_books[u].content == entries[i as int].1 {
                        assert(longer[i as int] == wanted);
                    }
                }
                assert(self@.address_books.dom() =~= after.address_books.dom()) by {
                    assert(before.address_books.dom() =~= start.address_books.dom());
                    assert(self.address_books@.dom() =~= before.address_books.dom());
                }
                assert forall|u: UserId| #[trigger]
                    self@.address_books.dom().contains(u) implies self@.address_books[u]
                    == after.address_books[u] by {
                    assert(start.address_books.contains_key(u));
                    assert(before.address_books[u].content == start.address_books[u].content);
                    if u == user_id {
                        assert(clean <==> start.address_books[u].content == entries[i as int].1);
                    }
                }
                assert(self@.address_books =~= after.address_books);
                assert(self@ =~= after);
            }
            i += 1;
        }
        proof {
            assert(entries.take(batch@.len() as int) =~= entries);
        }
    }

    /// Asks the maintenance gate at `now` seconds since the epoch.
    ///
    /// If at least the maintenance interval has passed since the last sweep,
    /// the time is noted and a sweep is started: its batch is returned, if
    /// any address book is dirty.  Otherwise nothing changes and `None` is
    /// returned.
    pub fn check_maintenance_at(&mut self, now: u64) -> (sweep: Option<Vec<(UserId, AddressBook)>>)
        requires
            old(self).inv(),
        ensures
            final(self).inv(),
            final(self)@ == old(self)@.gate(now as nat),
            match sweep {
                Some(batch) => {
                    &&& old(self)@.sweep_due(now as nat)
                    &&& batch@.len() > 0
                    &&& final(self)@.is_dirty_batch(batch_view(batch@))
                },
                None => !old(self)@.sweep_due(now as nat) || final(self)@.is_dirty_batch(
                    Seq::empty(),
                ),
            },
    {
        let last_mt = self.last_maintenance_time;
        if now >= last_mt && now - last_mt >= MAINTENANCE_INTERVAL_IN_SECS {
            self.last_maintenance_time = now;
            proof {
                assert(self@ =~= old(self)@.gate(now as nat));
            }
            self.maintenance()
        } else {
            None
        }
    }

    /// Asks the maintenance gate at the time that the clock shows.
    ///
    /// Whatever the clock shows, the outcome is that of
    /// [`ApiState::check_maintenance_at`] for that time.
    pub fn check_maintenance(&mut self) -> (sweep: Option<Vec<(UserId, AddressBook)>>)
        requires
            old(self).inv(),
        ensures
            final(self).inv(),
            exists|now: u64|
                {
                    &&& final(self)@ == #[trigger] old(self)@.gate(now as nat)
                    &&& sweep is Some ==> old(self)@.sweep_due(now as nat)
                    &&& sweep is None ==> !old(self)@.sweep_due(now as nat) || final(self)@.is_dirty_batch(Seq::empty())
                },
            sweep matches Some(batch) ==> batch@.len() > 0 && final(self)@.is_dirty_batch(
                batch_view(batch@),
            ),
    {
        let now = secs_from_epoch();
        self.check_maintenance_at(now)
    }

    /// The session count of a user, if the user has a live session.
    pub fn sessions_count(&self, user_id: UserId) -> (count: Option<usize>)
        ensures
            count is Some <==> self@.users.contains_key(user_id),
            count matches Some(n) ==> n == self@.users[user_id].sessions_count,
    {
        match self.users.get(&user_id) {
            Some(info) => Some(info.sessions_count),
            None => None,
        }
    }

    /// The write-back flags `(modified, remove_after_flush)` of a user's
    /// cached address book, if there is one.
    pub fn address_book_flags(&self, user_id: UserId) -> (flags: Option<(bool, bool)>)
        ensures
            flags is Some <==> self@.address_books.contains_key(user_id),
            flags matches Some(f) ==> f.0 == self@.address_books[user_id].modified && f.1
                == self@.address_books[user_id].remove_after_flush,
    {
        match self.address_books.get(&user_id) {
            Some(info) => Some((info.modified, info.remove_after_flush)),
            None => None,
        }
    }
}

} // verus!
