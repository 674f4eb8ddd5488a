use vstd::prelude::*;
use crate::state::AccessTokenInfo;
use crate::tokens::Token;

verus! {

/// One live token with the session it stands for.
pub struct TokenEntry {
    pub token: Token,
    pub info: AccessTokenInfo,
}

/// The table of live tokens: a list of entries in which no token occurs
/// twice, read as a map from token to session.
///
/// A hash map keyed by the token would need its hashing and equality to be
/// known to agree, which is known of the integer types only; a list needs
/// equality alone, which is proved.  Lookup walks the list.
pub struct TokenTable {
    entries: Vec<TokenEntry>,
}

/// Position of `token` in `entries`, if it occurs.
pub open spec fn position(entries: Seq<TokenEntry>, token: Token) -> Option<int> {
    if exists|i: int| 0 <= i < entries.len() && (#[trigger] entries[i]).token == token {
        Some(choose|i: int| 0 <= i < entries.len() && (#[trigger] entries[i]).token == token)
    } else {
        None
    }
}

/// No token occurs twice in `entries`.
pub open spec fn distinct(entries: Seq<TokenEntry>) -> bool {
    forall|i: int, j: int|
        0 <= i < j < entries.len() ==> (#[trigger] entries[i]).token != (
        #[trigger] entries[j]).token
}

/// The map that a list of entries stands for.
pub open spec fn as_map(entries: Seq<TokenEntry>) -> Map<Token, AccessTokenInfo> {
    Map::new(
        |t: Token| position(entries, t) is Some,
        |t: Token| entries[position(entries, t).unwrap()].info,
    )
}

/// In a list without repetition, the entry at `i` is the one that the map
/// holds for its token.
pub proof fn lemma_entry_in_map(entries: Seq<TokenEntry>, i: int)
    requires
        distinct(entries),
        0 <= i < entries.len(),
    ensures
        as_map(entries).contains_key(entries[i].token),
        as_map(entries)[entries[i].token] == entries[i].info,
        position(entries, entries[i].token) == Some(i),
{
    let t = entries[i].token;
    let p = position(entries, t).unwrap();
    assert(entries[p].token == t);
    if p < i {
        assert(entries[p].token != entries[i].token);
    } else if i < p {
        assert(entries[i].token != entries[p].token);
    }
}

/// The map of a list of entries has a finite domain.
pub proof fn lemma_map_is_finite(entries: Seq<TokenEntry>)
    ensures
        as_map(entries).dom().finite(),
{
    let tokens = entries.map_values(|e: TokenEntry| e.token);
    assert(as_map(entries).dom() =~= tokens.to_set()) by {
        assert forall|t: Token| as_map(entries).dom().contains(t) <==> tokens.to_set().contains(
            t,
        ) by {
            if as_map(entries).dom().contains(t) {
                let p = position(entries, t).unwrap();
                assert(tokens[p] == t);
            }
            if tokens.to_set().contains(t) {
                let i = choose|i: int| 0 <= i < tokens.len() && tokens[i] == t;
                assert(entries[i].token == t);
            }
        }
    }
    vstd::seq_lib::seq_to_set_is_finite(tokens);
}

impl View for TokenTable {
    type V = Map<Token, AccessTokenInfo>;

    closed spec fn view(&self) -> Map<Token, AccessTokenInfo> {
        as_map(self.entries@)
    }
}

impl TokenTable {
    /// The table is well formed: no token occurs twice in its list.
    pub closed spec fn wf(&self) -> bool {
        distinct(self.entries@)
    }

    /// The table holds finitely many tokens.
    pub proof fn lemma_finite(&self)
        ensures
            self@.dom().finite(),
    {
        lemma_map_is_finite(self.entries@);
    }

    /// An empty table.
    pub fn new() -> (table: Self)
        ensures
            table.wf(),
            table@ == Map::<Token, AccessTokenInfo>::empty(),
    {
        let table = TokenTable { entries: Vec::new() };
        assert(table@ =~= Map::<Token, AccessTokenInfo>::empty());
        table
    }

    /// Where `token` stands in the list, if it is live.
    fn find(&self, token: &Token) -> (found: Option<usize>)
        ensures
            match found {
                Some(i) => i < self.entries@.len() && self.entries@[i as int].token == *token,
                None => !self@.contains_key(*token),
            },
    {
        let mut i: usize = 0;
        while i < self.entries.len()
            invariant
                i <= self.entries@.len(),
                forall|j: int| 0 <= j < i ==> (#[trigger] self.entries@[j]).token != *token,
            decreases self.entries@.len() - i,
        {
            if self.entries[i].token == *token {
                return Some(i);
            }
            i += 1;
        }
        None
    }

    /// The session that `token` stands for, if it is live.
    pub fn get(&self, token: &Token) -> (info: Option<AccessTokenInfo>)
        requires
            self.wf(),
        ensures
            info == (if self@.contains_key(*token) {
                Some(self@[*token])
            } else {
                None
            }),
    {
        match self.find(token) {
            Some(i) => {
                proof {
                    lemma_entry_in_map(self.entries@, i as int);
                }
                Some(self.entries[i].info)
            },
            None => None,
        }
    }

    /// Makes `token` stand for `info`, whether or not it was live before.
    pub fn insert(&mut self, token: Token, info: AccessTokenInfo)
        requires
            old(self).wf(),
        ensures
            final(self).wf(),
            final(self)@ == old(self)@.insert(token, info),
    {
        let ghost before = self.entries@;
        match self.find(&token) {
            Some(i) => {
                self.entries[i] = TokenEntry { token, info };
            },
            None => {
                self.entries.push(TokenEntry { token, info });
            },
        }
        proof {
            let after = self.entries@;
            assert(distinct(after));
            assert forall|t: Token| #[trigger]
                as_map(after).contains_key(t) == as_map(before).insert(token, info).contains_key(
                    t,
                ) by {
                if as_map(after).contains_key(t) {
                    let p = position(after, t).unwrap();
                    if t != token {
                        assert(before[p].token == t);
                    }
                }
                if as_map(before).contains_key(t) {
                    let p = position(before, t).unwrap();
                    assert(after[p].token == t || t == token);
                }
                if t == token {
                    assert(exists|i: int|
                        0 <= i < after.len() && (#[trigger] after[i]).token == token && after[i].info
                            == info) by {
                        if before.len() < after.len() {
                            assert(after[after.len() - 1].token == token);
                        } else {
                            let i = choose|i: int|
                                0 <= i < before.len() && (#[trigger] before[i]).token == token;
                            assert(after[i].token == token);
                        }
                    }
                }
            }
            assert forall|t: Token| #[trigger] as_map(after).contains_key(t) implies as_map(
                after,
            )[t] == as_map(before).insert(token, info)[t] by {
                let p = position(after, t).unwrap();
                lemma_entry_in_map(after, p);
                if t != token {
                    assert(before[p].token == t);
                    lemma_entry_in_map(before, p);
                } else {
                    assert(after[p].info == info);
                }
            }
            assert(as_map(after) =~= as_map(before).insert(token, info));
        }
    }

    /// Makes `token` stand for nothing.
    pub fn remove(&mut self, token: &Token)
        requires
            old(self).wf(),
        ensures
            final(self).wf(),
            final(self)@ == old(self)@.remove(*token),
    {
        let ghost before = self.entries@;
        match self.find(token) {
            Some(i) => {
                self.entries.remove(i);
                proof {
                    let after = self.entries@;
                    let k = i as int;
                    assert(distinct(after)) by {
                        assert forall|a: int, b: int| 0 <= a < b < after.len() implies (
                        #[trigger] after[a]).token != (#[trigger] after[b]).token by {
                            let a0 = if a < k { a } else { a + 1 };
                            let b0 = if b < k { b } else { b + 1 };
                            assert(after[a] == before[a0]);
                            assert(after[b] == before[b0]);
                        }
                    }
                    assert forall|t: Token| #[trigger]
                        as_map(after).contains_key(t) == as_map(before).remove(
                            *token,
                        ).contains_key(t) by {
                        if as_map(after).contains_key(t) {
                            let p = position(after, t).unwrap();
                            let p0 = if p < k { p } else { p + 1 };
                            assert(before[p0].token == t);
                            if t == *token {
                                if p0 < k {
                                    assert(before[p0].token != before[k].token);
                                } else {
                                    assert(before[k].token != before[p0].token);
                                }
                            }
                        }
                        if as_map(before).contains_key(t) && t != *token {
                            let p = position(before, t).unwrap();
                            let p1 = if p < k { p } else { p - 1 };
                            assert(after[p1].token == t);
                        }
                    }
                    assert forall|t: Token| #[trigger]
                        as_map(after).contains_key(t) implies as_map(after)[t] == as_map(
                        before,
                    ).remove(*token)[t] by {
                        let p = position(after, t).unwrap();
                        let p0 = if p < k { p } else { p + 1 };
                        lemma_entry_in_map(after, p);
                        assert(after[p] == before[p0]);
                        lemma_entry_in_map(before, p0);
                    }
                    assert(as_map(after) =~= as_map(before).remove(*token));
                }
            },
            None => {
                assert(self@ =~= old(self)@.remove(*token));
            },
        }
    }
}

} // verus!
