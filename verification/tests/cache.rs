use session_cache::address_book::AddressBook;
use session_cache::bearer::AuthenticatedUserInfo;
use session_cache::database::{batch_applied, DatabaseUserInfo, DatabaseUserPasswordInfo};
use session_cache::password::UserPasswordInfo;
use session_cache::clock::{elapsed_secs, secs_from_epoch};
use session_cache::state::{AccessTokenInfo, ApiState};
use session_cache::tokens::Token;

fn book(text: &str) -> AddressBook {
    AddressBook { ab: text.to_string() }
}

fn token(n: u8) -> Token {
    Token::from_bytes(&[n; 32]).unwrap()
}

fn active(admin: bool) -> DatabaseUserInfo {
    DatabaseUserInfo { active: true, admin }
}

fn stored(secret: &str) -> Option<DatabaseUserPasswordInfo> {
    Some(DatabaseUserPasswordInfo { password: secret.to_string() })
}

fn login(state: &mut ApiState, user_id: i64, name: &str) -> Token {
    assert!(state.has_room(user_id));
    let granted = state.user_login(
        &name.to_string(),
        UserPasswordInfo::from_password("secret"),
        Some((user_id, active(false))),
        stored("secret"),
    );
    let (display, token) = granted.expect("login granted");
    assert_eq!(display, name);
    token
}

fn identity(state: &ApiState, token: &Token) -> AuthenticatedUserInfo {
    let info = state.find_session(token).expect("live token");
    AuthenticatedUserInfo {
        session_id: info.session_id,
        user_id: info.user_id,
        access_token: *token,
    }
}

fn sorted(mut batch: Vec<(i64, AddressBook)>) -> Vec<(i64, String)> {
    batch.sort_by_key(|entry| entry.0);
    batch.into_iter().map(|(user, book)| (user, book.ab)).collect()
}

#[test]
fn new_cache_is_empty() {
    let state = ApiState::new();
    assert_eq!(state.find_session(&token(1)), None);
    assert_eq!(state.sessions_count(1), None);
    assert_eq!(state.get_user_address_book(1), None);
    assert_eq!(state.address_book_flags(1), None);
    assert!(state.dirty_address_books().is_empty());
    assert!(state.maintenance_flush_address_books().is_none());
    assert!(state.has_room(1));
}

#[test]
fn password_is_compared_as_it_is() {
    let supplied = UserPasswordInfo::from_password("secret");
    assert!(supplied.check(DatabaseUserPasswordInfo { password: "secret".to_string() }));
    assert!(!supplied.check(DatabaseUserPasswordInfo { password: "Secret".to_string() }));
    assert!(!supplied.check(DatabaseUserPasswordInfo { password: "secret ".to_string() }));
    assert!(!supplied.check(DatabaseUserPasswordInfo { password: String::new() }));
    let empty = UserPasswordInfo::from_password("");
    assert!(empty.check(DatabaseUserPasswordInfo { password: String::new() }));
}

#[test]
fn password_is_looked_up_for_active_users_only() {
    assert_eq!(ApiState::password_lookup(&Some((7, active(false)))), Some(7));
    assert_eq!(ApiState::password_lookup(&Some((8, active(true)))), Some(8));
    assert_eq!(
        ApiState::password_lookup(&Some((7, DatabaseUserInfo { active: false, admin: true }))),
        None
    );
    assert_eq!(ApiState::password_lookup(&None), None);
}

#[test]
fn login_opens_the_first_session() {
    let mut state = ApiState::new();
    let granted = state.user_login(
        &"alice".to_string(),
        UserPasswordInfo::from_password("secret"),
        Some((11, active(false))),
        stored("secret"),
    );
    let (name, token) = granted.expect("login granted");
    assert_eq!(name, "alice");
    assert_eq!(state.find_session(&token), Some(AccessTokenInfo { session_id: 1, user_id: 11 }));
    assert_eq!(state.sessions_count(11), Some(1));
    assert_eq!(
        state.get_current_user_name(&identity(&state, &token)),
        Some("alice".to_string())
    );
}

#[test]
fn login_is_refused_for_an_unknown_user() {
    let mut state = ApiState::new();
    let granted = state.user_login(
        &"nobody".to_string(),
        UserPasswordInfo::from_password("secret"),
        None,
        stored("secret"),
    );
    assert_eq!(granted, None);
    assert_eq!(state.sessions_count(11), None);
}

#[test]
fn login_is_refused_for_an_inactive_user() {
    let mut state = ApiState::new();
    let granted = state.user_login(
        &"alice".to_string(),
        UserPasswordInfo::from_password("secret"),
        Some((11, DatabaseUserInfo { active: false, admin: false })),
        stored("secret"),
    );
    assert_eq!(granted, None);
    assert_eq!(state.sessions_count(11), None);
}

#[test]
fn login_is_refused_without_a_password_record() {
    let mut state = ApiState::new();
    let granted = state.user_login(
        &"alice".to_string(),
        UserPasswordInfo::from_password("secret"),
        Some((11, active(false))),
        None,
    );
    assert_eq!(granted, None);
    assert_eq!(state.sessions_count(11), None);
}

#[test]
fn login_is_refused_for_a_wrong_password() {
    let mut state = ApiState::new();
    let first = login(&mut state, 11, "alice");
    let granted = state.user_login(
        &"alice".to_string(),
        UserPasswordInfo::from_password("guess"),
        Some((11, active(false))),
        stored("secret"),
    );
    assert_eq!(granted, None);
    // nothing was committed
    assert_eq!(state.sessions_count(11), Some(1));
    assert_eq!(state.find_session(&first), Some(AccessTokenInfo { session_id: 1, user_id: 11 }));
    let next = login(&mut state, 11, "alice");
    assert_eq!(state.find_session(&next).map(|info| info.session_id), Some(2));
}

#[test]
fn session_identifiers_count_up_from_one() {
    let mut state = ApiState::new();
    assert_eq!(
        state.open_session(3, &"carol".to_string(), false, token(1)),
        AccessTokenInfo { session_id: 1, user_id: 3 }
    );
    assert_eq!(
        state.open_session(4, &"dave".to_string(), false, token(2)),
        AccessTokenInfo { session_id: 2, user_id: 4 }
    );
    let gone = AuthenticatedUserInfo { session_id: 1, user_id: 3, access_token: token(1) };
    assert_eq!(state.user_logout(&gone), Some(()));
    // an identifier is never handed out twice
    assert_eq!(
        state.open_session(3, &"carol".to_string(), false, token(3)),
        AccessTokenInfo { session_id: 3, user_id: 3 }
    );
}

#[test]
fn session_count_is_the_number_of_live_tokens() {
    let mut state = ApiState::new();
    let mut tokens = Vec::new();
    for round in 1..=5usize {
        tokens.push(login(&mut state, 9, "alice"));
        assert_eq!(state.sessions_count(9), Some(round));
        let live = tokens.iter().filter(|t| state.find_session(t).is_some()).count();
        assert_eq!(live, round);
    }
    for round in (0..5usize).rev() {
        let token = tokens.pop().unwrap();
        let who = identity(&state, &token);
        assert_eq!(state.user_logout(&who), Some(()));
        assert_eq!(state.find_session(&token), None);
        let live = tokens.iter().filter(|t| state.find_session(t).is_some()).count();
        assert_eq!(live, round);
        assert_eq!(state.sessions_count(9), if round == 0 { None } else { Some(round) });
    }
}

#[test]
fn last_logout_forgets_the_user() {
    let mut state = ApiState::new();
    let first = login(&mut state, 9, "alice");
    let second = login(&mut state, 9, "alice");
    let other = login(&mut state, 10, "bob");
    let who = identity(&state, &first);
    assert_eq!(state.user_logout(&who), Some(()));
    assert_eq!(state.sessions_count(9), Some(1));
    let who = identity(&state, &second);
    assert_eq!(state.user_logout(&who), Some(()));
    assert_eq!(state.sessions_count(9), None);
    assert_eq!(state.find_session(&first), None);
    assert_eq!(state.find_session(&second), None);
    assert_eq!(state.get_current_user_name(&who), None);
    // the other user is untouched
    assert_eq!(state.sessions_count(10), Some(1));
    assert_eq!(state.find_session(&other).map(|info| info.user_id), Some(10));
}

#[test]
fn logout_fails_for_a_user_without_sessions() {
    let mut state = ApiState::new();
    let token = login(&mut state, 9, "alice");
    let who = identity(&state, &token);
    assert_eq!(state.user_logout(&who), Some(()));
    assert_eq!(state.user_logout(&who), None);
    let stranger = AuthenticatedUserInfo { session_id: 77, user_id: 12, access_token: token };
    assert_eq!(state.user_logout(&stranger), None);
}

#[test]
fn two_users_alternate() {
    let mut state = ApiState::new();
    let mut alice: Vec<Token> = Vec::new();
    let mut bob: Vec<Token> = Vec::new();
    let check = |state: &ApiState, alice: &Vec<Token>, bob: &Vec<Token>| {
        let live_a = alice.iter().filter(|t| state.find_session(t).is_some()).count();
        let live_b = bob.iter().filter(|t| state.find_session(t).is_some()).count();
        assert_eq!(live_a, alice.len());
        assert_eq!(live_b, bob.len());
        assert_eq!(state.sessions_count(1).unwrap_or(0), live_a);
        assert_eq!(state.sessions_count(2).unwrap_or(0), live_b);
    };
    alice.push(login(&mut state, 1, "alice"));
    check(&state, &alice, &bob);
    bob.push(login(&mut state, 2, "bob"));
    check(&state, &alice, &bob);
    alice.push(login(&mut state, 1, "alice"));
    check(&state, &alice, &bob);
    let who = identity(&state, &bob.pop().unwrap());
    assert_eq!(state.user_logout(&who), Some(()));
    check(&state, &alice, &bob);
    let who = identity(&state, &alice.pop().unwrap());
    assert_eq!(state.user_logout(&who), Some(()));
    check(&state, &alice, &bob);
    bob.push(login(&mut state, 2, "bob"));
    check(&state, &alice, &bob);
    let who = identity(&state, &alice.pop().unwrap());
    assert_eq!(state.user_logout(&who), Some(()));
    check(&state, &alice, &bob);
    let who = identity(&state, &bob.pop().unwrap());
    assert_eq!(state.user_logout(&who), Some(()));
    check(&state, &alice, &bob);
    assert_eq!(state.sessions_count(1), None);
    assert_eq!(state.sessions_count(2), None);
}

#[test]
fn user_record_is_a_snapshot_of_the_first_login() {
    let mut state = ApiState::new();
    state.open_session(5, &"alice".to_string(), true, token(1));
    state.open_session(5, &"alicia".to_string(), false, token(2));
    let seen = state.with_user_info(&5, |info| {
        (info.sessions_count(), info.username().clone(), info.is_admin())
    });
    assert_eq!(seen, Some((2, "alice".to_string(), true)));
    assert_eq!(state.with_user_info(&6, |info| info.is_admin()), None);
}

#[test]
fn empty_address_book_is_two_braces() {
    assert_eq!(AddressBook::empty().ab, "{}");
    assert_eq!(AddressBook::empty(), book("{}"));
    assert_eq!(book("x").clone(), book("x"));
    assert!(book("x") != book("y"));
}

#[test]
fn write_then_read() {
    let mut state = ApiState::new();
    assert_eq!(state.set_user_address_book(4, book("one")), Some(()));
    assert_eq!(state.get_user_address_book(4), Some(book("one")));
    assert_eq!(state.set_user_address_book(4, book("two")), Some(()));
    assert_eq!(state.get_user_address_book(4), Some(book("two")));
    assert_eq!(state.get_user_address_book(5), None);
}

#[test]
fn first_write_is_clean_and_a_change_is_dirty() {
    let mut state = ApiState::new();
    state.set_user_address_book(4, book("one"));
    assert_eq!(state.address_book_flags(4), Some((false, false)));
    state.set_user_address_book(4, book("two"));
    assert_eq!(state.address_book_flags(4), Some((true, false)));
}

#[test]
fn writing_the_same_value_twice_stays_clean() {
    let mut state = ApiState::new();
    state.set_user_address_book(4, book("one"));
    state.set_user_address_book(4, book("one"));
    assert_eq!(state.address_book_flags(4), Some((false, false)));
    assert!(state.dirty_address_books().is_empty());
    // after a load from the store as well
    assert_eq!(state.cache_user_address_book(6, Some(book("kept"))), Some(book("kept")));
    state.set_user_address_book(6, book("kept"));
    state.set_user_address_book(6, book("kept"));
    assert_eq!(state.address_book_flags(6), Some((false, false)));
}

#[test]
fn a_repeated_write_does_not_clean_a_dirty_entry() {
    let mut state = ApiState::new();
    state.set_user_address_book(4, book("one"));
    state.set_user_address_book(4, book("two"));
    state.set_user_address_book(4, book("two"));
    assert_eq!(state.address_book_flags(4), Some((true, false)));
    assert_eq!(sorted(state.dirty_address_books()), vec![(4, "two".to_string())]);
}

#[test]
fn store_answer_is_cached_as_clean() {
    let mut state = ApiState::new();
    assert_eq!(state.get_user_address_book(4), None);
    assert_eq!(state.cache_user_address_book(4, None), None);
    assert_eq!(state.get_user_address_book(4), None);
    assert_eq!(state.cache_user_address_book(4, Some(book("stored"))), Some(book("stored")));
    assert_eq!(state.get_user_address_book(4), Some(book("stored")));
    assert_eq!(state.address_book_flags(4), Some((false, false)));
}

#[test]
fn store_answer_never_replaces_a_cached_entry() {
    let mut state = ApiState::new();
    state.set_user_address_book(4, book("first"));
    state.set_user_address_book(4, book("local"));
    assert_eq!(state.address_book_flags(4), Some((true, false)));
    // the store's older answer arrives late: the pending write stays
    assert_eq!(state.cache_user_address_book(4, Some(book("stored"))), Some(book("local")));
    assert_eq!(state.address_book_flags(4), Some((true, false)));
    assert_eq!(state.get_user_address_book(4), Some(book("local")));
    assert_eq!(sorted(state.dirty_address_books()), vec![(4, "local".to_string())]);
    // so does a clean entry, and a store without an answer changes nothing
    state.set_user_address_book(5, book("kept"));
    assert_eq!(state.cache_user_address_book(5, Some(book("stored"))), Some(book("kept")));
    assert_eq!(state.cache_user_address_book(5, None), Some(book("kept")));
    assert_eq!(state.address_book_flags(5), Some((false, false)));
}

#[test]
fn last_logout_marks_the_address_book_and_login_reclaims_it() {
    let mut state = ApiState::new();
    let first = login(&mut state, 9, "alice");
    let second = login(&mut state, 9, "alice");
    state.set_user_address_book(9, book("one"));
    let who = identity(&state, &first);
    state.user_logout(&who);
    assert_eq!(state.address_book_flags(9), Some((false, false)));
    let who = identity(&state, &second);
    state.user_logout(&who);
    assert_eq!(state.address_book_flags(9), Some((false, true)));
    assert_eq!(state.get_user_address_book(9), Some(book("one")));
    login(&mut state, 9, "alice");
    assert_eq!(state.address_book_flags(9), Some((false, false)));
}

#[test]
fn logout_without_address_book_succeeds() {
    let mut state = ApiState::new();
    let token = login(&mut state, 9, "alice");
    let who = identity(&state, &token);
    assert_eq!(state.user_logout(&who), Some(()));
    assert_eq!(state.address_book_flags(9), None);
}

#[test]
fn sweep_collects_the_dirty_entries() {
    let mut state = ApiState::new();
    for user in 1..=6i64 {
        state.set_user_address_book(user, book("old"));
    }
    state.set_user_address_book(2, book("new two"));
    state.set_user_address_book(5, book("new five"));
    state.set_user_address_book(3, book("old"));
    let batch = state.maintenance_flush_address_books().expect("something is dirty");
    assert_eq!(
        sorted(batch),
        vec![(2, "new two".to_string()), (5, "new five".to_string())]
    );
    // collecting clears nothing
    assert_eq!(state.address_book_flags(2), Some((true, false)));
    assert_eq!(state.address_book_flags(5), Some((true, false)));
    assert_eq!(state.maintenance().map(|batch| batch.len()), Some(2));
}

#[test]
fn confirmed_sweep_clears_exactly_the_dirty_flags() {
    let mut state = ApiState::new();
    for user in 1..=4i64 {
        state.set_user_address_book(user, book("old"));
    }
    state.set_user_address_book(1, book("a"));
    state.set_user_address_book(3, book("c"));
    let batch = state.dirty_address_books();
    assert_eq!(batch.len(), 2);
    state.complete_flush(&batch, true);
    for user in 1..=4i64 {
        assert_eq!(state.address_book_flags(user), Some((false, false)));
    }
    assert_eq!(state.get_user_address_book(1), Some(book("a")));
    assert_eq!(state.get_user_address_book(2), Some(book("old")));
    assert_eq!(state.get_user_address_book(3), Some(book("c")));
    assert!(state.dirty_address_books().is_empty());
    assert!(state.maintenance_flush_address_books().is_none());
}

#[test]
fn failed_sweep_clears_nothing() {
    let mut state = ApiState::new();
    state.set_user_address_book(1, book("old"));
    state.set_user_address_book(2, book("old"));
    state.set_user_address_book(1, book("a"));
    state.set_user_address_book(2, book("b"));
    let batch = state.dirty_address_books();
    state.complete_flush(&batch, false);
    assert_eq!(state.address_book_flags(1), Some((true, false)));
    assert_eq!(state.address_book_flags(2), Some((true, false)));
    // the next sweep tries again
    assert_eq!(sorted(state.dirty_address_books()), vec![(1, "a".to_string()), (2, "b".to_string())]);
}

#[test]
fn a_write_during_the_sweep_stays_dirty() {
    let mut state = ApiState::new();
    state.set_user_address_book(1, book("old"));
    state.set_user_address_book(2, book("old"));
    state.set_user_address_book(1, book("a"));
    state.set_user_address_book(2, book("b"));
    let batch = state.dirty_address_books();
    // while the store is busy, one user writes again
    state.set_user_address_book(2, book("b2"));
    state.complete_flush(&batch, true);
    assert_eq!(state.address_book_flags(1), Some((false, false)));
    assert_eq!(state.address_book_flags(2), Some((true, false)));
    assert_eq!(sorted(state.dirty_address_books()), vec![(2, "b2".to_string())]);
}

#[test]
fn sweep_keeps_the_eviction_mark() {
    let mut state = ApiState::new();
    let token = login(&mut state, 9, "alice");
    state.set_user_address_book(9, book("one"));
    state.set_user_address_book(9, book("two"));
    let who = identity(&state, &token);
    state.user_logout(&who);
    assert_eq!(state.address_book_flags(9), Some((true, true)));
    let batch = state.dirty_address_books();
    state.complete_flush(&batch, true);
    assert_eq!(state.address_book_flags(9), Some((false, true)));
    assert_eq!(state.get_user_address_book(9), Some(book("two")));
}

#[test]
fn completing_with_foreign_entries_changes_nothing() {
    let mut state = ApiState::new();
    state.set_user_address_book(1, book("old"));
    state.set_user_address_book(1, book("a"));
    let batch = vec![(7, book("a")), (1, book("other"))];
    state.complete_flush(&batch, true);
    assert_eq!(state.address_book_flags(1), Some((true, false)));
    assert_eq!(state.address_book_flags(7), None);
}

#[test]
fn batch_write_must_affect_every_row() {
    assert!(batch_applied(3, Some(3)));
    assert!(batch_applied(0, Some(0)));
    assert!(!batch_applied(3, Some(2)));
    assert!(!batch_applied(3, Some(4)));
    assert!(!batch_applied(3, None));
    assert!(!batch_applied(0, None));
}

#[test]
fn maintenance_runs_once_per_minute() {
    let mut state = ApiState::new();
    state.set_user_address_book(1, book("old"));
    state.set_user_address_book(1, book("a"));
    // the first sweep is due a minute after the epoch
    assert!(state.check_maintenance_at(59).is_none());
    let batch = state.check_maintenance_at(60).expect("sweep due");
    assert_eq!(sorted(batch), vec![(1, "a".to_string())]);
    // the entry is still dirty, yet no second sweep within the minute
    assert!(state.check_maintenance_at(60).is_none());
    assert!(state.check_maintenance_at(119).is_none());
    assert_eq!(state.check_maintenance_at(120).map(|batch| batch.len()), Some(1));
    // an unsuccessful ask does not move the time
    assert!(state.check_maintenance_at(179).is_none());
    assert!(state.check_maintenance_at(100).is_none());
    assert_eq!(state.check_maintenance_at(180).map(|batch| batch.len()), Some(1));
}

#[test]
fn maintenance_with_nothing_dirty_still_notes_the_time() {
    let mut state = ApiState::new();
    assert!(state.check_maintenance_at(1_000).is_none());
    state.set_user_address_book(1, book("old"));
    state.set_user_address_book(1, book("a"));
    assert!(state.check_maintenance_at(1_059).is_none());
    assert!(state.check_maintenance_at(1_060).is_some());
}

#[test]
fn maintenance_at_the_end_of_time() {
    let mut state = ApiState::new();
    state.set_user_address_book(1, book("old"));
    state.set_user_address_book(1, book("a"));
    assert!(state.check_maintenance_at(u64::MAX).is_some());
    assert!(state.check_maintenance_at(u64::MAX).is_none());
    assert!(state.check_maintenance_at(0).is_none());
}

#[test]
fn maintenance_by_the_clock() {
    let mut state = ApiState::new();
    state.set_user_address_book(1, book("old"));
    state.set_user_address_book(1, book("a"));
    assert!(secs_from_epoch() > 1_600_000_000);
    // the clock is far more than a minute past the epoch
    assert_eq!(state.check_maintenance().map(|batch| batch.len()), Some(1));
    assert!(state.check_maintenance().is_none());
}

#[test]
fn alice_scenario() {
    let mut state = ApiState::new();
    let lookup = Some((1, active(false)));
    assert_eq!(ApiState::password_lookup(&lookup), Some(1));
    let granted = state.user_login(
        &"alice".to_string(),
        UserPasswordInfo::from_password("wonderland"),
        lookup,
        stored("wonderland"),
    );
    let (name, token) = granted.expect("login granted");
    assert_eq!(name, "alice");
    assert_eq!(state.find_session(&token), Some(AccessTokenInfo { session_id: 1, user_id: 1 }));
    // the first read misses the cache, so the store is asked: once
    let mut store_reads = 0;
    let mut read = |state: &mut ApiState| match state.get_user_address_book(1) {
        Some(found) => Some(found),
        None => {
            store_reads += 1;
            state.cache_user_address_book(1, Some(book("stored")))
        }
    };
    assert_eq!(read(&mut state), Some(book("stored")));
    assert_eq!(read(&mut state), Some(book("stored")));
    assert_eq!(store_reads, 1);
    assert_eq!(state.address_book_flags(1), Some((false, false)));
    state.set_user_address_book(1, book("new content"));
    assert_eq!(state.address_book_flags(1), Some((true, false)));
    let mut flushes = 0;
    for now in [1_700_000_000u64, 1_700_000_059] {
        if let Some(batch) = state.check_maintenance_at(now) {
            flushes += 1;
            state.complete_flush(&batch, batch_applied(batch.len(), Some(1)));
        }
    }
    assert_eq!(flushes, 1);
    assert_eq!(state.address_book_flags(1), Some((false, false)));
}

#[test]
fn a_clock_before_the_epoch_reads_as_the_epoch() {
    assert_eq!(elapsed_secs(None), 0);
    assert_eq!(elapsed_secs(Some(0)), 0);
    assert_eq!(elapsed_secs(Some(1_700_000_000)), 1_700_000_000);
    assert_eq!(elapsed_secs(Some(u64::MAX)), u64::MAX);
}

#[test]
fn login_acceptance_follows_the_two_answers() {
    let supplied = UserPasswordInfo::from_password("secret");
    assert!(ApiState::login_accepted(&supplied, &Some((1, active(false))), &stored("secret")));
    assert!(ApiState::login_accepted(&supplied, &Some((1, active(true))), &stored("secret")));
    assert!(!ApiState::login_accepted(&supplied, &Some((1, active(false))), &stored("other")));
    assert!(!ApiState::login_accepted(&supplied, &Some((1, active(false))), &None));
    assert!(!ApiState::login_accepted(&supplied, &None, &stored("secret")));
    assert!(!ApiState::login_accepted(
        &supplied,
        &Some((1, DatabaseUserInfo { active: false, admin: true })),
        &stored("secret")
    ));
    assert!(supplied.agrees_with(&DatabaseUserPasswordInfo { password: "secret".to_string() }));
    assert!(!supplied.agrees_with(&DatabaseUserPasswordInfo { password: "secret2".to_string() }));
}
