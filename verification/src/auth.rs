//! Who somebody is: stored credentials, logging in, and the identity behind a
//! connection.
//!
//! Passwords are hashed and checked by `argon2`. Reading and writing the
//! account table and the cookie session is left to the caller; what is decided
//! here is what their content means.

use crate::sessions::{Heartbeat, WsChatSession};
use vstd::prelude::*;
use vstd::string::*;

verus! {

/// The key under which the cookie session keeps the identity of its owner.
pub const USER_ID_KEY: &'static str = "user_id";

/// An account, as it is stored: the name, and the password as a hash in PHC
/// string format.
#[derive(Debug, PartialEq, Eq)]
pub struct User {
    username: String,
    password: String,
}

/// Why somebody is turned away.
#[derive(Clone, Copy, Debug, PartialEq, Eq, Structural)]
pub enum AuthError {
    /// The session names no identity.
    Unauthorized,
    /// There is no account of that name.
    UnknownUser,
    /// The stored password is no PHC string.
    BadStoredPassword,
    /// The password is not the one that was stored.
    WrongPassword,
    /// The password could not be hashed.
    HashingFailed,
}

impl AuthError {
    /// The text that the requester is shown.
    pub fn message(&self) -> (text: &'static str)
        ensures
            text@ == (match *self {
                AuthError::Unauthorized => "Unathorized"@,
                AuthError::UnknownUser => "Couldn't login user"@,
                AuthError::BadStoredPassword => "Bad password in database"@,
                AuthError::WrongPassword => "Wrong password"@,
                AuthError::HashingFailed => "Couldn't hash the password"@,
            }),
    {
        match self {
            AuthError::Unauthorized => "Unathorized",
            AuthError::UnknownUser => "Couldn't login user",
            AuthError::BadStoredPassword => "Bad password in database",
            AuthError::WrongPassword => "Wrong password",
            AuthError::HashingFailed => "Couldn't hash the password",
        }
    }
}

// ---------------------------------------------------------------------------
// What is taken on trust from argon2
// ---------------------------------------------------------------------------

/// Whether `PasswordHash::new` accepts `stored` as a PHC string.
pub uninterp spec fn phc_well_formed(stored: Seq<char>) -> bool;

/// Whether `verify_password` of `Argon2::default()` accepts `password` for the
/// PHC string `stored`: whether Argon2, with the variant, the parameters and
/// the salt that `stored` holds, hashes `password` to the hash that `stored`
/// holds. False where `stored` is no PHC string, names another algorithm or
/// holds no hash.
pub uninterp spec fn argon2_accepts(password: Seq<char>, stored: Seq<char>) -> bool;

/// Calls `PasswordHash::new` and tells whether it succeeded. The contract
/// gives the outcome its name.
#[verifier::external_body]
fn phc_parses(stored: &str) -> (ok: bool)
    ensures
        ok == phc_well_formed(stored@),
{
    argon2::password_hash::PasswordHash::new(stored).is_ok()
}

/// Calls `PasswordHash::new` and, on the hash it gives, `verify_password` of
/// `Argon2::default()`, and tells whether both succeeded. The outcome is a
/// function of the two texts alone; the contract gives it its name.
#[verifier::external_body]
fn argon2_verifies(password: &str, stored: &str) -> (ok: bool)
    ensures
        ok == argon2_accepts(password@, stored@),
{
    match argon2::password_hash::PasswordHash::new(stored) {
        Ok(hash) => argon2::password_hash::PasswordVerifier::verify_password(
            &argon2::Argon2::default(),
            password.as_bytes(),
            &hash,
        ).is_ok(),
        Err(_) => false,
    }
}

/// Calls `SaltString::generate` on the operating system's random numbers and
/// `hash_password` of `Argon2::default()` with that salt, and hands back the
/// PHC string. The salt is random, so nothing is promised of the result.
#[verifier::external_body]
fn argon2_hashes(password: &str) -> (hashed: Option<String>) {
    let salt = argon2::password_hash::SaltString::generate(
        &mut argon2::password_hash::rand_core::OsRng,
    );
    argon2::password_hash::PasswordHasher::hash_password(
        &argon2::Argon2::default(),
        password.as_bytes(),
        &salt,
    ).ok().map(|hash| hash.to_string())
}

// ---------------------------------------------------------------------------
// Accounts
// ---------------------------------------------------------------------------

/// What a [`User`] holds, as mathematical values.
pub struct UserView {
    pub username: Seq<char>,
    pub password: Seq<char>,
}

impl View for User {
    type V = UserView;

    closed spec fn view(&self) -> UserView {
        UserView { username: self.username@, password: self.password@ }
    }
}

impl User {
    /// The account `username` with the stored password `password`.
    pub fn new(username: String, password: String) -> (user: Self)
        ensures
            user@ == (UserView { username: username@, password: password@ }),
    {
        User { username, password }
    }

    /// The name of the account.
    pub fn username(&self) -> (name: &String)
        ensures
            name@ == self@.username,
    {
        &self.username
    }

    /// The stored password of the account.
    pub fn password(&self) -> (stored: &String)
        ensures
            stored@ == self@.password,
    {
        &self.password
    }
}

/// What is stored when somebody signs up: the account, the time at which it
/// was last seen, and the line with which it introduces itself.
#[derive(Debug, PartialEq, Eq)]
pub struct Registration {
    pub user: User,
    pub last_time: u64,
    pub bio: String,
}

/// The line with which a new account introduces itself.
pub open spec fn first_bio(username: Seq<char>) -> Seq<char> {
    "Good morning, I'm "@ + username
}

/// What is stored when `username` signs up at the time `now`, given what
/// hashing the password gave: nothing where the password could not be
/// hashed, and otherwise the account with that hash, last seen at `now`.
pub fn register(username: String, hashed: Option<String>, now: u64) -> (outcome: Result<
    Registration,
    AuthError,
>)
    ensures
        (match hashed {
            Some(stored) => outcome is Ok && outcome->Ok_0.user@ == (UserView {
                username: username@,
                password: stored@,
            }) && outcome->Ok_0.last_time == now && outcome->Ok_0.bio@ == first_bio(username@),
            None => outcome is Err && outcome->Err_0 == AuthError::HashingFailed,
        }),
{
    match hashed {
        Some(password) => {
            let mut bio = String::from_str("Good morning, I'm ");
            bio.append(username.as_str());
            Ok(Registration { user: User { username, password }, last_time: now, bio })
        },
        None => Err(AuthError::HashingFailed),
    }
}

/// Signs `username` up with `password` at the time `now`. The password is
/// hashed with a random salt, so of the stored password nothing is known
/// beforehand; signing up fails only where hashing does.
pub fn signup(username: String, password: &str, now: u64) -> (outcome: Result<
    Registration,
    AuthError,
>)
    ensures
        (match outcome {
            Ok(registration) => registration.user@.username == username@ && registration.last_time
                == now && registration.bio@ == first_bio(username@),
            Err(error) => error == AuthError::HashingFailed,
        }),
{
    register(username, argon2_hashes(password), now)
}

/// Who is logged in after an attempt, from what was found and checked: the
/// account that the store holds under the name given, whether its stored
/// password is a PHC string, and whether the password given matches it.
pub open spec fn login_outcome(
    found: Option<User>,
    well_formed: bool,
    accepted: bool,
) -> Result<Seq<char>, AuthError> {
    match found {
        None => Err(AuthError::UnknownUser),
        Some(user) => if !well_formed {
            Err(AuthError::BadStoredPassword)
        } else if accepted {
            Ok(user@.username)
        } else {
            Err(AuthError::WrongPassword)
        },
    }
}

/// `Ok` of the view of a name, `Err` of an error.
pub open spec fn identity_view(outcome: Result<String, AuthError>) -> Result<
    Seq<char>,
    AuthError,
> {
    match outcome {
        Ok(name) => Ok(name@),
        Err(error) => Err(error),
    }
}

/// Decides a login, from what was found and checked.
pub fn decide_login(found: Option<User>, well_formed: bool, accepted: bool) -> (outcome: Result<
    String,
    AuthError,
>)
    ensures
        identity_view(outcome) == login_outcome(found, well_formed, accepted),
{
    match found {
        None => Err(AuthError::UnknownUser),
        Some(user) => if !well_formed {
            Err(AuthError::BadStoredPassword)
        } else if accepted {
            Ok(user.username)
        } else {
            Err(AuthError::WrongPassword)
        },
    }
}

/// Logs in with `password` against `found`, the account that the store holds
/// under the name given, if it holds one. On success the result is the
/// identity to put into the session.
pub fn login(found: Option<User>, password: &str) -> (outcome: Result<String, AuthError>)
    ensures
        identity_view(outcome) == login_outcome(
            found,
            found is Some && phc_well_formed(found->0@.password),
            found is Some && argon2_accepts(password@, found->0@.password),
        ),
{
    match found {
        None => Err(AuthError::UnknownUser),
        Some(user) => {
            let well_formed = phc_parses(user.password.as_str());
            let accepted = well_formed && argon2_verifies(password, user.password.as_str());
            decide_login(Some(user), well_formed, accepted)
        },
    }
}

/// Resolves the identity behind a cookie session from what the session holds
/// under [`USER_ID_KEY`]. A session that holds nothing there, or nothing
/// readable, belongs to nobody.
pub fn validate_session(stored: Option<String>) -> (outcome: Result<String, AuthError>)
    ensures
        (match stored {
            Some(id) => outcome == Ok::<String, AuthError>(id),
            None => outcome == Err::<String, AuthError>(AuthError::Unauthorized),
        }),
{
    match stored {
        Some(id) => Ok(id),
        None => Err(AuthError::Unauthorized),
    }
}

/// Opens the live connection of a cookie session, at the time `now`: the
/// handler of the identity that the session holds, not yet started and with
/// the default heartbeat, or a refusal where the session belongs to nobody.
pub fn chat_route(stored: Option<String>, now: u64) -> (outcome: Result<WsChatSession, AuthError>)
    ensures
        (match stored {
            Some(id) => outcome is Ok && outcome->Ok_0@ == (crate::sessions::SessionView {
                name: id@,
                hb: now,
                phase: crate::sessions::Phase::Starting,
                heartbeat: Heartbeat {
                    interval: crate::sessions::HEARTBEAT_INTERVAL,
                    timeout: crate::sessions::CLIENT_TIMEOUT,
                },
            }),
            None => outcome is Err && outcome->Err_0 == AuthError::Unauthorized,
        }),
{
    match validate_session(stored) {
        Ok(id) => Ok(WsChatSession::new(id, now, Heartbeat::default())),
        Err(error) => Err(error),
    }
}

} // verus!
