//! Users: what is stored when one is created, how a login finds its user,
//! and the claims of the token it receives.
use vstd::prelude::*;
use vstd::string::*;

use crate::hashing::{generate_salt, hash_hex, hash_string, is_salt, verifies, verify_string};
use crate::middleware::token_admitted;
use crate::text::{concat_str, decimal, decimal_string};

verus! {

/// The claims of a session token: the user's id as text, and the second at
/// which the token expires.
pub struct Claims {
    pub sub: String,
    pub exp: usize,
}

/// How long a session token stays valid: twenty minutes, in seconds.
pub const TOKEN_LIFETIME_SECS: i64 = 1200;

/// The claims of a token issued at `now_secs` (seconds since the epoch) for
/// the user with id `id`.
pub fn claims_for(id: &str, now_secs: i64) -> (claims: Claims)
    requires
        now_secs <= i64::MAX - TOKEN_LIFETIME_SECS,
    ensures
        claims.sub@ == id@,
        claims.exp == (now_secs + TOKEN_LIFETIME_SECS) as usize,
{
    let expiry: i64 = now_secs + TOKEN_LIFETIME_SECS;
    Claims { sub: String::from_str(id), exp: expiry as usize }
}

/// A token issued at `issued` passes the guard of a route set up at `guard_time`
/// exactly when the guard time is not past the end of the token's lifetime.
pub proof fn lemma_token_lifetime(issued: i64, guard_time: usize)
    requires
        0 <= issued,
        issued + TOKEN_LIFETIME_SECS <= usize::MAX,
    ensures
        token_admitted(Some((issued + TOKEN_LIFETIME_SECS) as usize), guard_time) <==> guard_time
            <= issued + TOKEN_LIFETIME_SECS,
{
}

/// The subject of a user's token: the decimal id.
pub fn token_subject(id: i16) -> (sub: String)
    ensures
        sub@ == decimal(id as int),
{
    decimal_string(id as i64)
}

/// The `Set-Cookie` value that carries a session token.
pub fn session_cookie(token: &str) -> (cookie: String)
    ensures
        cookie@ == "jwt="@ + token@ + "; HttpOnly"@,
{
    let mut cookie = String::from_str("jwt=");
    cookie.append(token);
    cookie.append("; HttpOnly");
    cookie
}

// ---------------------------------------------------------------------------
// Stored users
// ---------------------------------------------------------------------------

/// A user as stored: the hashes of the username and of the password, both
/// salted with the user's salt, and the salt.
pub struct UserRecord {
    pub username: String,
    pub password: String,
    pub salt: String,
}

/// The record stored for `username` and `password` with `salt`.
pub open spec fn record_of(username: Seq<char>, password: Seq<char>, salt: Seq<char>) -> (
    Seq<char>,
    Seq<char>,
    Seq<char>,
) {
    (hash_hex(username, salt), hash_hex(password, salt), salt)
}

/// The record stored for a user with the given salt.
pub fn user_record_with_salt(username: &str, password: &str, salt: &str) -> (record: UserRecord)
    ensures
        (record.username@, record.password@, record.salt@) == record_of(username@, password@, salt@),
{
    let hashed_password = hash_string(password, salt);
    let hashed_username = hash_string(username, salt);
    UserRecord { username: hashed_username, password: hashed_password, salt: String::from_str(salt) }
}

/// The record stored for a new user, under a fresh random salt.
pub fn new_user_record(username: &str, password: &str) -> (record: UserRecord)
    ensures
        is_salt(record.salt@),
        (record.username@, record.password@, record.salt@) == record_of(
            username@,
            password@,
            record.salt@,
        ),
{
    let salt = generate_salt();
    user_record_with_salt(username, password, salt.as_str())
}

/// The answer to creating a user.
pub fn user_created_message(username: &str) -> (text: String)
    ensures
        text@ == "User created with username: "@ + username@,
{
    concat_str("User created with username: ", username)
}

/// A stored user as read back for a login.
pub struct StoredUser {
    pub id: i16,
    pub username: String,
    pub password: String,
    pub salt: String,
}

/// A stored user matches credentials when both the password and the
/// username hash, with the user's salt, to what is stored.
pub open spec fn credentials_match(user: StoredUser, username: Seq<char>, password: Seq<char>) -> bool {
    &&& verifies(user.password@, password, user.salt@)
    &&& verifies(user.username@, username, user.salt@)
}

/// The position of the first stored user matching the credentials.
pub open spec fn first_match(users: Seq<StoredUser>, username: Seq<char>, password: Seq<char>) -> Option<
    int,
>
    decreases users.len(),
{
    if users.len() == 0 {
        None
    } else {
        match first_match(users.drop_last(), username, password) {
            Some(i) => Some(i),
            None => if credentials_match(users.last(), username, password) {
                Some(users.len() - 1)
            } else {
                None
            },
        }
    }
}

/// Whether `user` matches the credentials.
pub fn matches_credentials(user: &StoredUser, username: &str, password: &str) -> (ok: bool)
    ensures
        ok == credentials_match(*user, username@, password@),
{
    verify_string(user.password.as_str(), password, user.salt.as_str()) && verify_string(
        user.username.as_str(),
        username,
        user.salt.as_str(),
    )
}

/// The position of the first stored user whose hashes match the
/// credentials; none when no user does.
pub fn find_login(users: &Vec<StoredUser>, username: &str, password: &str) -> (found: Option<usize>)
    ensures
        match found {
            Some(i) => first_match(users@, username@, password@) == Some(i as int),
            None => first_match(users@, username@, password@) is None,
        },
{
    let n = users.len();
    let mut i: usize = 0;
    while i < n
        invariant
            n == users@.len(),
            0 <= i <= n,
            first_match(users@.take(i as int), username@, password@) is None,
        decreases n - i,
    {
        let ghost next = users@.take(i + 1);
        assert(next.drop_last() =~= users@.take(i as int));
        assert(next.last() == users@[i as int]);
        if matches_credentials(&users[i], username, password) {
            proof {
                lemma_first_match_prefix(users@, i as int + 1, username@, password@);
            }
            return Some(i);
        }
        i = i + 1;
    }
    assert(users@.take(n as int) =~= users@);
    None
}

/// A match found in a prefix is the match of the whole list.
proof fn lemma_first_match_prefix(
    users: Seq<StoredUser>,
    k: int,
    username: Seq<char>,
    password: Seq<char>,
)
    requires
        0 <= k <= users.len(),
        first_match(users.take(k), username, password) is Some,
    ensures
        first_match(users, username, password) == first_match(users.take(k), username, password),
    decreases users.len() - k,
{
    if k < users.len() {
        let next = users.take(k + 1);
        assert(next.drop_last() =~= users.take(k));
        lemma_first_match_prefix(users, k + 1, username, password);
    } else {
        assert(users.take(k) =~= users);
    }
}

/// The match found is a matching user, and no user before it matches.
pub proof fn lemma_first_match_is_first(
    users: Seq<StoredUser>,
    username: Seq<char>,
    password: Seq<char>,
)
    ensures
        match first_match(users, username, password) {
            Some(i) => 0 <= i < users.len() && credentials_match(users[i], username, password) && (
            forall|j: int| 0 <= j < i ==> !credentials_match(#[trigger] users[j], username, password)),
            None => forall|j: int|
                0 <= j < users.len() ==> !credentials_match(#[trigger] users[j], username, password),
        },
    decreases users.len(),
{
    if users.len() > 0 {
        let init = users.drop_last();
        lemma_first_match_is_first(init, username, password);
        assert forall|j: int| 0 <= j < init.len() implies #[trigger] init[j] == users[j] by {}
        match first_match(init, username, password) {
            Some(i) => {
                assert(init[i] == users[i]);
                assert forall|j: int| 0 <= j < i implies !credentials_match(
                    #[trigger] users[j],
                    username,
                    password,
                ) by {
                    assert(init[j] == users[j]);
                }
            },
            None => {
                assert forall|j: int| 0 <= j < users.len() - 1 implies !credentials_match(
                    #[trigger] users[j],
                    username,
                    password,
                ) by {
                    assert(init[j] == users[j]);
                }
            },
        }
    }
}

/// A user stored from a username and password is found again by a login
/// with the same username and password: the login succeeds, at that user or
/// at an earlier matching one.
pub proof fn lemma_created_user_logs_in(
    users: Seq<StoredUser>,
    k: int,
    username: Seq<char>,
    password: Seq<char>,
)
    requires
        0 <= k < users.len(),
        (users[k].username@, users[k].password@, users[k].salt@) == record_of(
            username,
            password,
            users[k].salt@,
        ),
    ensures
        first_match(users, username, password) matches Some(i) && i <= k,
{
    lemma_first_match_is_first(users, username, password);
}

/// Why a login produced no token.
#[derive(Debug, PartialEq, Eq, Structural, Clone, Copy)]
pub enum LoginError {
    /// No stored user matches the credentials.
    NoMatch,
    /// The users could not be read.
    Database,
}

/// The refusal of a failed login.
pub fn login_rejection(e: LoginError) -> (r: crate::validations::Rejection)
    ensures
        r == match e {
            LoginError::NoMatch => crate::validations::Rejection::NoMatchingUser(
                crate::validations::NoMatchingUser,
            ),
            LoginError::Database => crate::validations::Rejection::Database(
                crate::validations::DatabaseError,
            ),
        },
{
    match e {
        LoginError::NoMatch => crate::validations::Rejection::NoMatchingUser(
            crate::validations::NoMatchingUser,
        ),
        LoginError::Database => crate::validations::Rejection::Database(
            crate::validations::DatabaseError,
        ),
    }
}

} // verus!
