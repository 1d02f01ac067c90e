//! Passwords, tokens and roles.
//!
//! A password is stored as a salt of 32 characters followed by the SHA-256
//! digest of salt and password, in upper-case hexadecimal. Session tokens and
//! team codes are random bytes in upper-case hexadecimal. Who may do what is
//! decided by the roles of a session.

use vstd::prelude::*;
use vstd::string::{StrSliceExecFns, StringExecFns};
use vstd::utf8::encode_utf8;
use rand::distr::Alphanumeric;
use rand::Rng;
use sha2::{Digest, Sha256};
use crate::errors::AppError;
use crate::text::{digit_char, same_str};
use crate::types::{SessionInfo, UserCreateInfo, UserType, UsersTypes};

verus! {

/// The SHA-256 digest of a sequence of bytes.
pub uninterp spec fn sha256(data: Seq<u8>) -> Seq<u8>;

/// The upper-case hexadecimal digit for a value from 0 to 15.
pub open spec fn hex_digit_upper(v: int) -> char
    recommends
        0 <= v < 16,
{
    if v < 10 {
        digit_char(v)
    } else if v == 10 {
        'A'
    } else if v == 11 {
        'B'
    } else if v == 12 {
        'C'
    } else if v == 13 {
        'D'
    } else if v == 14 {
        'E'
    } else {
        'F'
    }
}

/// Bytes in upper-case hexadecimal: two digits for each byte, the high half
/// first.
pub open spec fn hex_upper(bytes: Seq<u8>) -> Seq<char> {
    Seq::new(
        2 * bytes.len(),
        |i: int|
            hex_digit_upper(
                if i % 2 == 0 {
                    bytes[i / 2] as int / 16
                } else {
                    bytes[i / 2] as int % 16
                },
            ),
    )
}

/// Whether the character is an ASCII letter or digit.
pub open spec fn is_alphanumeric(c: char) -> bool {
    ('A' <= c && c <= 'Z') || ('a' <= c && c <= 'z') || ('0' <= c && c <= '9')
}

/// `Sha256::digest` of the `sha2` crate: the digest of `data`. The contract
/// only names the digest; that it is SHA-256 is taken on trust.
#[verifier::external_body]
fn sha256_digest(data: &[u8]) -> (r: Vec<u8>)
    ensures
        r@ == sha256(data@),
{
    Sha256::digest(data).to_vec()
}

/// `hex::encode_upper`: each byte of `data` as two upper-case hexadecimal
/// digits, the high half first, in the order of the bytes.
#[verifier::external_body]
fn hex_encode_upper(data: &[u8]) -> (r: String)
    ensures
        r@ == hex_upper(data@),
{
    hex::encode_upper(data)
}

/// `rand::rng()` sampled with `rand::distr::Alphanumeric`: `len` characters,
/// each an ASCII letter or digit. Which ones is left open.
#[verifier::external_body]
fn random_alphanumeric(len: usize) -> (r: String)
    ensures
        r@.len() == len,
        forall|i: int| 0 <= i < r@.len() ==> is_alphanumeric(#[trigger] r@[i]),
{
    rand::rng().sample_iter(&Alphanumeric).take(len).map(char::from).collect()
}

/// `rand::random` for an array of `N` bytes: `N` bytes, whichever.
#[verifier::external_body]
fn random_bytes<const N: usize>() -> (r: Vec<u8>)
    ensures
        r@.len() == N,
{
    rand::random::<[u8; N]>().to_vec()
}

/// The stored form of the password `pw` under the salt `salt`: the salt, then
/// the digest of salt and password in upper-case hexadecimal.
pub open spec fn salted_hash(salt: Seq<char>, pw: Seq<char>) -> Seq<char> {
    salt + hex_upper(sha256(encode_utf8(salt + pw)))
}

/// The length of the salt of a stored password.
pub const SALT_LEN: usize = 32;

/// The salt of a stored password: its first 32 characters, or all of it where
/// it is shorter.
pub open spec fn salt_of(stored: Seq<char>) -> Seq<char> {
    if stored.len() < SALT_LEN {
        stored
    } else {
        stored.take(SALT_LEN as int)
    }
}

/// The stored form of a password under a given salt.
pub fn hash_with_salt(salt: &str, pw: &str) -> (r: String)
    ensures
        r@ == salted_hash(salt@, pw@),
{
    let mut salted = String::from_str(salt);
    salted.append(pw);
    let digest = sha256_digest(salted.as_str().as_bytes());
    let hex = hex_encode_upper(digest.as_slice());
    String::from_str(salt).concat(hex.as_str())
}

/// Hashes a password for storage, under a fresh random salt of 32 letters
/// and digits.
pub fn hash_password(pw: String) -> (r: String)
    ensures
        r@.len() >= SALT_LEN,
        r@ == salted_hash(r@.take(SALT_LEN as int), pw@),
        forall|i: int| 0 <= i < SALT_LEN ==> is_alphanumeric(#[trigger] r@[i]),
{
    let salt = random_alphanumeric(SALT_LEN);
    let r = hash_with_salt(salt.as_str(), pw.as_str());
    assert(r@.take(SALT_LEN as int) =~= salt@);
    r
}

/// Whether `pw_post` is the password that was stored as `pw_db`: hashed under
/// the salt of `pw_db`, it gives `pw_db` again.
pub fn compare_pw_to_db(pw_post: String, pw_db: String) -> (r: bool)
    ensures
        r == (salted_hash(salt_of(pw_db@), pw_post@) == pw_db@),
{
    let len = pw_db.as_str().unicode_len();
    let salt = if len < SALT_LEN {
        pw_db.as_str()
    } else {
        pw_db.as_str().substring_char(0, SALT_LEN)
    };
    let pw_hash = hash_with_salt(salt, pw_post.as_str());
    pw_hash == pw_db
}

/// A password is accepted against its own stored form, whatever the salt of
/// 32 characters was, and so against whatever `hash_password` returned for
/// it.
pub proof fn lemma_stored_password_is_accepted(salt: Seq<char>, pw: Seq<char>)
    requires
        salt.len() == SALT_LEN,
    ensures
        salt_of(salted_hash(salt, pw)) == salt,
        salted_hash(salt_of(salted_hash(salt, pw)), pw) == salted_hash(salt, pw),
{
    assert(salted_hash(salt, pw).take(SALT_LEN as int) =~= salt);
}

/// Whether the text is bytes in upper-case hexadecimal, `bytes` of them.
pub open spec fn is_token(token: Seq<char>, bytes: nat) -> bool {
    exists|b: Seq<u8>| b.len() == bytes && token == hex_upper(b)
}

/// A fresh session token: 32 random bytes in upper-case hexadecimal.
pub fn new_session_hash() -> (r: String)
    ensures
        is_token(r@, 32),
        r@.len() == 64,
{
    let bytes = random_bytes::<32>();
    hex_encode_upper(bytes.as_slice())
}

/// A fresh team code: 16 random bytes in upper-case hexadecimal.
pub fn new_team_hash() -> (r: String)
    ensures
        is_token(r@, 16),
        r@.len() == 32,
{
    let bytes = random_bytes::<16>();
    hex_encode_upper(bytes.as_slice())
}

/// The role that connects on the socket namespace `ns`.
pub open spec fn spec_namespace_role(ns: Seq<char>) -> Option<UserType> {
    if ns == "/admin"@ {
        Some(UserType::Admin)
    } else if ns == "/referee"@ {
        Some(UserType::Referee)
    } else if ns == "/secretary"@ {
        Some(UserType::Secretary)
    } else if ns == "/ie"@ {
        Some(UserType::Ie)
    } else {
        None
    }
}

/// The role that connects on a socket namespace, if the namespace is one of
/// the four that exist.
pub fn namespace_role(ns: &str) -> (r: Option<UserType>)
    ensures
        r == spec_namespace_role(ns@),
{
    if same_str(ns, "/admin") {
        Some(UserType::Admin)
    } else if same_str(ns, "/referee") {
        Some(UserType::Referee)
    } else if same_str(ns, "/secretary") {
        Some(UserType::Secretary)
    } else if same_str(ns, "/ie") {
        Some(UserType::Ie)
    } else {
        None
    }
}

/// Whether a session may act in the role: it holds it.
pub fn session_allows(session: &SessionInfo, user_type: UserType) -> (r: bool)
    ensures
        r == session.user_types@.contains(user_type),
{
    session.user_types.contains(user_type)
}

/// Why a user may not be created, if they may not.
pub enum CreationRefusal {
    /// Name, e-mail address or password is empty.
    Missing,
    /// There are users already, and nobody is logged in.
    NoSession,
    /// The session does not hold the role that the new user is to have.
    RoleNotHeld,
}

/// Why the user may not be created, if they may not. The first user of all
/// is created without a session; every later one by a session that holds
/// the role that the new user is to have.
pub open spec fn creation_refusal(
    any_users: bool,
    session: Option<SessionInfo>,
    user_info: UserCreateInfo,
) -> Option<CreationRefusal> {
    if user_info.password@.len() == 0 || user_info.username@.len() == 0 || user_info.email@.len()
        == 0 {
        Some(CreationRefusal::Missing)
    } else if !any_users {
        None
    } else if session is None {
        Some(CreationRefusal::NoSession)
    } else if !session->Some_0.user_types@.contains(user_info.user_type) {
        Some(CreationRefusal::RoleNotHeld)
    } else {
        None
    }
}

/// Whether `e` is the error for the reason `why` not to create the user.
pub open spec fn is_creation_refusal(e: AppError, why: CreationRefusal, user_type: UserType)
    -> bool {
    match why {
        CreationRefusal::Missing => e is Validation && e.message() == "missing parameters"@,
        CreationRefusal::NoSession => e is Unauthorized && e.message()
            == "You are not authorized to perform this!"@,
        CreationRefusal::RoleNotHeld => e is Unauthorized && e.message()
            == "You are not authorized to create user with type "@ + user_type.name() + "!"@,
    }
}

/// Decides whether a user may be created. `any_users` says whether any user
/// exists yet, `session` is the session of whoever asks, if they are logged
/// in.
pub fn authorize_user_creation(
    any_users: bool,
    session: Option<&SessionInfo>,
    user_info: &UserCreateInfo,
) -> (r: Result<(), AppError>)
    ensures
        match creation_refusal(
            any_users,
            match session {
                Some(s) => Some(*s),
                None => None,
            },
            *user_info,
        ) {
            Some(why) => r is Err && is_creation_refusal(r->Err_0, why, user_info.user_type),
            None => r is Ok,
        },
{
    if user_info.password.as_str().is_empty() || user_info.username.as_str().is_empty()
        || user_info.email.as_str().is_empty() {
        return Err(AppError::Validation(String::from_str("missing parameters")));
    }
    if !any_users {
        return Ok(());
    }
    let session = match session {
        Some(s) => s,
        None => {
            return Err(
                AppError::Unauthorized(String::from_str("You are not authorized to perform this!")),
            );
        },
    };
    if !session.user_types.contains(user_info.user_type) {
        let mut m = String::from_str("You are not authorized to create user with type ");
        m.append(user_info.user_type.as_str());
        m.append("!");
        return Err(AppError::Unauthorized(m));
    }
    Ok(())
}

/// The roles among the rows of a user: each row that holds a role gives it,
/// in the order of the rows.
pub open spec fn roles_of(rows: Seq<Option<UserType>>) -> Seq<UserType> {
    rows.filter_map(|row: Option<UserType>| row)
}

/// Collects the roles of a user from the rows that the user's record was
/// read in: a row without a role is passed over.
pub fn collect_roles(rows: &Vec<Option<UserType>>) -> (r: UsersTypes)
    ensures
        r@ == roles_of(rows@),
{
    let ghost pick = |row: Option<UserType>| row;
    let mut roles = UsersTypes::new();
    let mut i: usize = 0;
    assert(rows@.take(0) =~= Seq::<Option<UserType>>::empty());
    while i < rows.len()
        invariant
            0 <= i <= rows.len(),
            pick == |row: Option<UserType>| row,
            roles@ == rows@.take(i as int).filter_map(pick),
        decreases rows.len() - i,
    {
        proof {
            assert(rows@.take(i + 1).drop_last() =~= rows@.take(i as int));
            assert(rows@.take(i + 1).last() == rows@[i as int]);
        }
        if let Some(role) = rows[i] {
            roles.push(role);
            assert(roles@ =~= rows@.take(i as int).filter_map(pick) + seq![role]);
        }
        i += 1;
    }
    assert(rows@.take(i as int) =~= rows@);
    roles
}

/// The message of the error for a login that is refused. It does not say
/// whether the name or the password was wrong.
pub open spec fn login_refused_message() -> Seq<char> {
    "Invalid username or password"@
}

/// Whether a login with the password `password` is accepted for a user whose
/// password is stored as `stored`; `None` stands for a name that no user
/// has.
pub open spec fn login_accepted(stored: Option<Seq<char>>, password: Seq<char>) -> bool {
    stored matches Some(db) && salted_hash(salt_of(db), password) == db
}

/// Decides a login: it is accepted where a user has the name and the
/// password is theirs, and refused with one and the same message
/// otherwise.
pub fn check_login(stored: Option<String>, password: String) -> (r: Result<(), AppError>)
    ensures
        login_accepted(
            match stored {
                Some(db) => Some(db@),
                None => None,
            },
            password@,
        ) ==> r is Ok,
        !login_accepted(
            match stored {
                Some(db) => Some(db@),
                None => None,
            },
            password@,
        ) ==> r is Err && r->Err_0 is Unauthorized && r->Err_0.message()
            == login_refused_message(),
{
    let accepted = match stored {
        Some(db) => compare_pw_to_db(password, db),
        None => false,
    };
    if accepted {
        Ok(())
    } else {
        Err(AppError::Unauthorized(String::from_str("Invalid username or password")))
    }
}

/// The message of the error for deleting a user without being an
/// administrator.
pub open spec fn admins_only_message() -> Seq<char> {
    "Only admins can delete users"@
}

/// Decides whether a session may delete a user: only an administrator may.
pub fn authorize_user_deletion(session: &SessionInfo) -> (r: Result<(), AppError>)
    ensures
        session.user_types@.contains(UserType::Admin) ==> r is Ok,
        !session.user_types@.contains(UserType::Admin) ==> r is Err && r->Err_0 is Unauthorized
            && r->Err_0.message() == admins_only_message(),
{
    if session.user_types.contains(UserType::Admin) {
        Ok(())
    } else {
        Err(AppError::Unauthorized(String::from_str("Only admins can delete users")))
    }
}

} // verus!
