use session_cache::address_book::AddressBook;
use session_cache::api::{
    Ab, AbGetResponse, AbPeer, AbRequest, AuditRequest, CurrentUserRequest, CurrentUserResponse,
    LoginReply, LoginRequest, LogoutReply,
};
use session_cache::database::DatabaseUserPasswordInfo;
use session_cache::tokens::Token;
use session_cache::ui::{listed_users, UserInfo};

#[test]
fn login_request_supplies_its_password() {
    let request = LoginRequest {
        username: "alice".to_string(),
        password: "secret".to_string(),
        id: "device".to_string(),
        uuid: "0000".to_string(),
    };
    let info = request.password_info();
    assert!(info.check(DatabaseUserPasswordInfo { password: "secret".to_string() }));
    assert!(!info.check(DatabaseUserPasswordInfo { password: "alice".to_string() }));
}

#[test]
fn login_reply_names_user_and_token() {
    let reply = LoginReply::from_login(Some(("alice".to_string(), Token::from_bytes(&[3u8; 32]).unwrap())));
    let reply = reply.expect("granted");
    assert_eq!(reply.user.name, "alice");
    assert_eq!(reply.access_token, Token::from_bytes(&[3u8; 32]).unwrap());
    assert!(LoginReply::from_login(None).is_none());
}

#[test]
fn logout_reply_is_empty() {
    assert_eq!(LogoutReply::from_logout(Some(())).map(|reply| reply.data), Some(String::new()));
    assert!(LogoutReply::from_logout(None).is_none());
}

#[test]
fn current_user_reply() {
    let reply = CurrentUserResponse::from_name(Some("alice".to_string())).expect("known");
    assert!(!reply.error);
    assert_eq!(reply.data.name, "alice");
    assert!(CurrentUserResponse::from_name(None).is_none());
}

#[test]
fn address_book_request_and_reply() {
    let request = AbRequest { data: "{\"peers\":[]}".to_string() };
    assert_eq!(request.address_book(), AddressBook { ab: "{\"peers\":[]}".to_string() });
    let reply = AbGetResponse::from_address_book(Some(request.address_book()));
    assert!(!reply.error);
    assert_eq!(reply.updated_at, "now");
    assert_eq!(reply.data, "{\"peers\":[]}");
    let reply = AbGetResponse::from_address_book(None);
    assert!(!reply.error);
    assert_eq!(reply.updated_at, "now");
    assert_eq!(reply.data, "{}");
}

#[test]
fn plain_records_hold_their_fields() {
    let audit = AuditRequest {
        id_: 1,
        action: "new".to_string(),
        id: "device".to_string(),
        ip: "::1".to_string(),
        uuid: "0000".to_string(),
    };
    assert_eq!(audit.id_, 1);
    assert_eq!(audit.action, "new");
    let request = CurrentUserRequest { id: "device".to_string(), uuid: "0000".to_string() };
    assert_eq!(request.id, "device");
    let ab = Ab { tags: vec!["home".to_string()], peers: vec![AbPeer { id: "abcd".to_string() }] };
    assert_eq!(ab.tags.len(), 1);
    assert_eq!(ab.peers[0].id, "abcd");
}

#[test]
fn listing_is_empty_where_the_store_failed() {
    assert!(listed_users(None).is_empty());
    let one = UserInfo {
        id: 1,
        active: true,
        admin: false,
        username: "alice".to_string(),
        password: "secret".to_string(),
        address_book: "{}".to_string(),
    };
    let listed = listed_users(Some(vec![one]));
    assert_eq!(listed.len(), 1);
    assert_eq!(listed[0].username, "alice");
}
