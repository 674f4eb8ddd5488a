use vstd::prelude::*;
use crate::model::{AddressBookView, BatchEntry, Cache};
use crate::state::AccessTokenInfo;
use crate::tokens::Token;
use crate::types::{SessionId, UserId};

verus! {

/// A cache without sessions is consistent.
pub proof fn empty_is_consistent()
    ensures
        Cache::empty().consistent(),
{
    let c = Cache::empty();
    assert forall|u: UserId| #[trigger] c.users.contains_key(u) implies false by {}
}

/// Opening a session under a token that is not live keeps the session tables
/// consistent: in particular each user's session count stays the number of
/// live tokens that stand for that user.
pub proof fn open_session_keeps_consistency(
    c: Cache,
    user_id: UserId,
    username: Seq<char>,
    admin: bool,
    token: Token,
)
    requires
        c.consistent(),
        c.counter < u64::MAX,
        !c.tokens.contains_key(token),
    ensures
        c.open_session(user_id, username, admin, token).consistent(),
        c.open_session(user_id, username, admin, token).users[user_id].sessions_count
            == c.open_session(user_id, username, admin, token).tokens_of(user_id).len(),
        c.open_session(user_id, username, admin, token).tokens_of(user_id).len()
            == c.tokens_of(user_id).len() + 1,
        forall|u: UserId|
            u != user_id ==> #[trigger] c.open_session(user_id, username, admin, token).tokens_of(
                u,
            ) == c.tokens_of(u),
{
    let d = c.open_session(user_id, username, admin, token);
    let session_id = (c.counter + 1) as SessionId;
    assert(!c.sessions.contains_key(session_id));
    assert forall|t: Token| #[trigger] d.tokens.contains_key(t) implies {
        &&& d.sessions.contains_key(d.tokens[t].session_id)
        &&& d.sessions[d.tokens[t].session_id] == d.tokens[t].user_id
        &&& d.users.contains_key(d.tokens[t].user_id)
    } by {
        if t != token {
            assert(c.tokens.contains_key(t));
        }
    }
    assert forall|s: SessionId| #[trigger] d.sessions.contains_key(s) implies {
        &&& 1 <= s <= d.counter
        &&& exists|t: Token| #[trigger] d.tokens.contains_key(t) && d.tokens[t].session_id == s
    } by {
        if s == session_id {
            assert(d.tokens.contains_key(token) && d.tokens[token].session_id == s);
        } else {
            assert(c.sessions.contains_key(s));
            let t = choose|t: Token| #[trigger]
                c.tokens.contains_key(t) && c.tokens[t].session_id == s;
            assert(d.tokens.contains_key(t) && d.tokens[t].session_id == s);
        }
    }
    assert forall|t1: Token, t2: Token|
        #[trigger] d.tokens.contains_key(t1) && #[trigger] d.tokens.contains_key(t2) && t1
            != t2 implies d.tokens[t1].session_id != d.tokens[t2].session_id by {
        if t1 != token {
            assert(c.tokens.contains_key(t1));
        }
        if t2 != token {
            assert(c.tokens.contains_key(t2));
        }
    }
    assert forall|u: UserId| #[trigger] d.users.contains_key(u) implies {
        &&& d.users[u].sessions_count >= 1
        &&& d.users[u].sessions_count == d.tokens_of(u).len()
    } by {
        if u == user_id {
            assert(d.tokens_of(u) =~= c.tokens_of(u).insert(token));
            c.tokens.dom().lemma_len_filter(|t: Token| c.tokens[t].user_id == u);
            if !c.users.contains_key(u) {
                assert(c.tokens_of(u) =~= Set::<Token>::empty()) by {
                    assert forall|t: Token| !c.tokens_of(u).contains(t) by {
                        if c.tokens.contains_key(t) && c.tokens[t].user_id == u {
                            assert(c.users.contains_key(c.tokens[t].user_id));
                        }
                    }
                }
            }
        } else {
            assert(c.users.contains_key(u));
            assert(d.tokens_of(u) =~= c.tokens_of(u));
        }
    }
    assert(d.users.contains_key(user_id));
    assert(d.tokens_of(user_id) =~= c.tokens_of(user_id).insert(token));
    c.tokens.dom().lemma_len_filter(|t: Token| c.tokens[t].user_id == user_id);
    assert forall|u: UserId| u != user_id implies #[trigger] d.tokens_of(u) == c.tokens_of(u) by {
        assert(d.tokens_of(u) =~= c.tokens_of(u));
    }
}

/// Logging out a live identity keeps the session tables consistent.
pub proof fn logout_keeps_consistency(
    c: Cache,
    session_id: SessionId,
    user_id: UserId,
    token: Token,
)
    requires
        c.consistent(),
        c.is_live(session_id, user_id, token),
    ensures
        c.users.contains_key(user_id),
        c.logout(session_id, user_id, token).consistent(),
{
    let d = c.logout(session_id, user_id, token);
    assert(c.tokens.contains_key(token));
    assert(c.users.contains_key(user_id));
    c.tokens.dom().lemma_len_filter(|t: Token| c.tokens[t].user_id == user_id);
    assert(c.tokens_of(user_id).contains(token));
    assert(d.tokens_of(user_id) =~= c.tokens_of(user_id).remove(token));
    let last = c.users[user_id].sessions_count <= 1;
    assert forall|t: Token| #[trigger] d.tokens.contains_key(t) implies {
        &&& d.sessions.contains_key(d.tokens[t].session_id)
        &&& d.sessions[d.tokens[t].session_id] == d.tokens[t].user_id
        &&& d.users.contains_key(d.tokens[t].user_id)
    } by {
        assert(c.tokens.contains_key(t));
        assert(t != token);
        if c.tokens[t].user_id == user_id && last {
            assert(d.tokens_of(user_id).contains(t));
            d.tokens_of(user_id).lemma_len0_is_empty();
        }
    }
    assert forall|s: SessionId| #[trigger] d.sessions.contains_key(s) implies {
        &&& 1 <= s <= d.counter
        &&& exists|t: Token| #[trigger] d.tokens.contains_key(t) && d.tokens[t].session_id == s
    } by {
        assert(c.sessions.contains_key(s));
        let t = choose|t: Token| #[trigger]
            c.tokens.contains_key(t) && c.tokens[t].session_id == s;
        assert(t != token);
        assert(d.tokens.contains_key(t) && d.tokens[t].session_id == s);
    }
    assert forall|t1: Token, t2: Token|
        #[trigger] d.tokens.contains_key(t1) && #[trigger] d.tokens.contains_key(t2) && t1
            != t2 implies d.tokens[t1].session_id != d.tokens[t2].session_id by {
        assert(c.tokens.contains_key(t1));
        assert(c.tokens.contains_key(t2));
    }
    assert forall|u: UserId| #[trigger] d.users.contains_key(u) implies {
        &&& d.users[u].sessions_count >= 1
        &&& d.users[u].sessions_count == d.tokens_of(u).len()
    } by {
        assert(c.users.contains_key(u));
        if u != user_id {
            assert(d.tokens_of(u) =~= c.tokens_of(u));
        }
    }
}

/// In a consistent cache the session count of every user on record is the
/// number of live tokens that stand for that user, and no other user has a
/// live token.
pub proof fn count_is_number_of_tokens(c: Cache, user_id: UserId)
    requires
        c.consistent(),
    ensures
        c.tokens_of(user_id).finite(),
        c.users.contains_key(user_id) ==> c.users[user_id].sessions_count == c.tokens_of(
            user_id,
        ).len(),
        !c.users.contains_key(user_id) ==> c.tokens_of(user_id).len() == 0,
{
    c.tokens.dom().lemma_len_filter(|t: Token| c.tokens[t].user_id == user_id);
    if !c.users.contains_key(user_id) {
        assert(c.tokens_of(user_id) =~= Set::<Token>::empty()) by {
            assert forall|t: Token| !c.tokens_of(user_id).contains(t) by {
                if c.tokens.contains_key(t) && c.tokens[t].user_id == user_id {
                    assert(c.users.contains_key(c.tokens[t].user_id));
                }
            }
        }
    }
}

/// Logging out the last session of a user removes the user's record and
/// leaves neither a token nor a session that refers to the user.
pub proof fn last_logout_forgets_user(
    c: Cache,
    session_id: SessionId,
    user_id: UserId,
    token: Token,
)
    requires
        c.consistent(),
        c.is_live(session_id, user_id, token),
        c.users[user_id].sessions_count == 1,
    ensures
        !c.logout(session_id, user_id, token).users.contains_key(user_id),
        forall|t: Token| #[trigger]
            c.logout(session_id, user_id, token).tokens.contains_key(t) ==> c.logout(
                session_id,
                user_id,
                token,
            ).tokens[t].user_id != user_id,
        forall|s: SessionId| #[trigger]
            c.logout(session_id, user_id, token).sessions.contains_key(s) ==> c.logout(
                session_id,
                user_id,
                token,
            ).sessions[s] != user_id,
{
    let d = c.logout(session_id, user_id, token);
    logout_keeps_consistency(c, session_id, user_id, token);
    assert forall|t: Token| #[trigger] d.tokens.contains_key(t) implies d.tokens[t].user_id
        != user_id by {
        assert(d.users.contains_key(d.tokens[t].user_id));
    }
    assert forall|s: SessionId| #[trigger] d.sessions.contains_key(s) implies d.sessions[s]
        != user_id by {
        let t = choose|t: Token| #[trigger]
            d.tokens.contains_key(t) && d.tokens[t].session_id == s;
        assert(d.sessions[d.tokens[t].session_id] == d.tokens[t].user_id);
    }
}

/// An address book that was written is the one that is read next, without
/// any flush in between.
pub proof fn write_then_read(c: Cache, user_id: UserId, content: Seq<char>)
    ensures
        c.set_address_book(user_id, content).get_address_book(user_id) == Some(content),
{
}

/// The store's answer to a read never replaces an entry that is cached by
/// the time it arrives: a write that is waiting for the sweep is not lost,
/// and the read ends with the cached book.
pub proof fn load_keeps_cached_entries(c: Cache, user_id: UserId, stored: Option<Seq<char>>)
    requires
        c.address_books.contains_key(user_id),
    ensures
        c.load_address_book(user_id, stored) == c,
        c.loaded_address_book(user_id, stored) == c.get_address_book(user_id),
{
}

/// After the store's answer to a read was taken, reading the cache gives
/// what that read ended with.
pub proof fn load_then_read(c: Cache, user_id: UserId, stored: Option<Seq<char>>)
    ensures
        c.load_address_book(user_id, stored).get_address_book(user_id) == c.loaded_address_book(
            user_id,
            stored,
        ),
{
}

/// Writing the same address book a second time changes nothing: the entry
/// is exactly as dirty as the first write left it.
pub proof fn second_write_changes_nothing(c: Cache, user_id: UserId, content: Seq<char>)
    ensures
        c.set_address_book(user_id, content).set_address_book(user_id, content)
            == c.set_address_book(user_id, content),
{
}

/// Writing an address book twice for a user whose entry is absent, or is
/// clean and already holds that content, leaves the entry clean.
pub proof fn repeated_write_stays_clean(c: Cache, user_id: UserId, content: Seq<char>)
    requires
        c.address_books.contains_key(user_id) ==> !c.address_books[user_id].modified
            && c.address_books[user_id].content == content,
    ensures
        !c.set_address_book(user_id, content).set_address_book(
            user_id,
            content,
        ).address_books[user_id].modified,
{
}

/// A confirmed sweep over the dirty entries makes exactly those entries
/// clean, as many as the batch is long, and changes nothing else; an
/// unconfirmed sweep changes nothing at all.
pub proof fn sweep_clears_exactly_the_dirty(c: Cache, batch: Seq<BatchEntry>)
    requires
        c.is_dirty_batch(batch),
        c.address_books.dom().finite(),
    ensures
        c.flushed(batch, false) == c,
        c.dirty().len() == batch.len(),
        c.flushed(batch, true).dirty() == Set::<UserId>::empty(),
        forall|u: UserId| #[trigger]
            c.address_books.contains_key(u) ==> c.flushed(batch, true).address_books[u] == (
            AddressBookView { modified: false, ..c.address_books[u] }),
        forall|u: UserId|
            c.flushed(batch, true).address_books.contains_key(u) == c.address_books.contains_key(
                u,
            ),
        forall|u: UserId|
            c.address_books.contains_key(u) && c.flushed(batch, true).address_books[u]
                != c.address_books[u] <==> #[trigger] c.dirty().contains(u),
{
    let d = c.flushed(batch, true);
    assert forall|u: UserId| #[trigger] c.address_books.contains_key(u) implies d.address_books[u]
        == (AddressBookView { modified: false, ..c.address_books[u] }) by {
        if c.address_books[u].modified {
            assert(c.dirty().contains(u));
            let i = choose|i: int| 0 <= i < batch.len() && (#[trigger] batch[i]).0 == u;
            assert(c.dirty().contains(batch[i].0));
            assert(batch[i] == (u, c.address_books[u].content));
            assert(c.written(batch, u));
        }
    }
    assert(d.dirty() =~= Set::<UserId>::empty());
    batch_length_is_dirty_count(c, batch);
}

/// A batch that lists the dirty entries once each is as long as there are
/// dirty entries.
pub proof fn batch_length_is_dirty_count(c: Cache, batch: Seq<BatchEntry>)
    requires
        c.is_dirty_batch(batch),
        c.address_books.dom().finite(),
    ensures
        c.dirty().len() == batch.len(),
{
    let users = batch.map_values(|e: BatchEntry| e.0);
    assert(users.no_duplicates());
    assert(users.to_set() =~= c.dirty()) by {
        assert forall|u: UserId| users.to_set().contains(u) <==> c.dirty().contains(u) by {
            if users.to_set().contains(u) {
                let i = choose|i: int| 0 <= i < users.len() && users[i] == u;
                assert(c.dirty().contains(batch[i].0));
            }
            if c.dirty().contains(u) {
                let i = choose|i: int| 0 <= i < batch.len() && (#[trigger] batch[i]).0 == u;
                assert(users[i] == u);
            }
        }
    }
    users.unique_seq_to_set();
}

/// After a sweep was due and its time noted, no sweep is due again before
/// the maintenance interval has passed.
pub proof fn one_sweep_per_interval(c: Cache, first: nat, second: nat)
    requires
        c.sweep_due(first),
        first <= second < first + crate::model::MAINTENANCE_INTERVAL_IN_SECS,
    ensures
        !c.gate(first).sweep_due(second),
        c.gate(first).gate(second) == c.gate(first),
{
}

} // verus!
