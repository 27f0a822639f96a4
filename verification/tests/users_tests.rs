use blog_api::crud::{author_created_message, rejection_reply};
use blog_api::hashing::hash_string;
use blog_api::middleware::authorize;
use blog_api::users::{
    claims_for, find_login, login_rejection, new_user_record, session_cookie, token_subject,
    user_created_message, user_record_with_salt, LoginError, StoredUser, TOKEN_LIFETIME_SECS,
};
use blog_api::validations::{DatabaseError, NoMatchingUser, Rejection};

fn stored(id: i16, username: &str, password: &str, salt: &str) -> StoredUser {
    let r = user_record_with_salt(username, password, salt);
    StoredUser { id, username: r.username, password: r.password, salt: r.salt }
}

#[test]
fn record_holds_salted_hashes() {
    let r = user_record_with_salt("alice", "secret", "ABCDEFGHabcdefgh");
    assert_eq!(r.password, "36d8db9f25031486ba25bc727facba6cd574ae15b38e9af9eb191015e96dd549");
    assert_eq!(r.username, hash_string("alice", "ABCDEFGHabcdefgh"));
    assert_eq!(r.salt, "ABCDEFGHabcdefgh");
}

#[test]
fn created_user_logs_in_with_same_credentials() {
    let r = new_user_record("alice", "secret1");
    let users = vec![
        stored(1, "bob", "hunter22", "saltsaltsaltsalt"),
        StoredUser { id: 2, username: r.username, password: r.password, salt: r.salt },
    ];
    assert_eq!(find_login(&users, "alice", "secret1"), Some(1));
    assert_eq!(find_login(&users, "bob", "hunter22"), Some(0));
}

#[test]
fn login_fails_on_wrong_credentials() {
    let users = vec![stored(1, "bob", "hunter22", "saltsaltsaltsalt")];
    assert_eq!(find_login(&users, "bob", "hunter23"), None);
    assert_eq!(find_login(&users, "bobb", "hunter22"), None);
    assert_eq!(find_login(&users, "hunter22", "bob"), None);
    assert_eq!(find_login(&Vec::new(), "bob", "hunter22"), None);
}

#[test]
fn login_picks_first_matching_user() {
    let users = vec![
        stored(5, "carol", "pw123456", "aaaaaaaaaaaaaaaa"),
        stored(6, "carol", "pw123456", "bbbbbbbbbbbbbbbb"),
    ];
    assert_eq!(find_login(&users, "carol", "pw123456"), Some(0));
}

#[test]
fn token_claims_and_lifetime() {
    let c = claims_for("42", 1_000_000);
    assert_eq!(c.sub, "42");
    assert_eq!(c.exp, 1_001_200);
    assert_eq!(TOKEN_LIFETIME_SECS, 1200);
    assert_eq!(authorize(Some(c.exp), 1_001_200), Ok(()));
    assert!(authorize(Some(c.exp), 1_001_201).is_err());
    assert_eq!(token_subject(42), "42");
    assert_eq!(token_subject(-7), "-7");
}

#[test]
fn user_texts() {
    assert_eq!(user_created_message("alice"), "User created with username: alice");
    assert_eq!(author_created_message("Tolkien"), "User created with name: Tolkien");
    assert_eq!(session_cookie("abc.def"), "jwt=abc.def; HttpOnly");
}

#[test]
fn login_failures_map_to_refusals() {
    assert_eq!(login_rejection(LoginError::NoMatch), Rejection::NoMatchingUser(NoMatchingUser));
    assert_eq!(login_rejection(LoginError::Database), Rejection::Database(DatabaseError));
}

#[test]
fn rejection_replies() {
    assert_eq!(rejection_reply(true, true), (404, "Not Found".to_string()));
    assert_eq!(rejection_reply(false, true), (400, "Payload too large".to_string()));
    assert_eq!(rejection_reply(false, false), (500, "Internal Server Error".to_string()));
}
