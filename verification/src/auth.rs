//! Registration, login, password change and logout.
//!
//! These operations combine the password primitive with the credential
//! store and are the only place a `SlimUser` principal is constructed from
//! a verified credential. Session issuance is composed at the boundary by
//! the caller (see `session`), keeping these flows independent of any
//! cookie layer.

use vstd::prelude::*;

use crate::errors::AuthError;
use crate::models::{CredentialStore, SlimUser, User};
use crate::utils::{hash, hash_matches, parseable_hash, verify, AuthConfig};

verus! {

/// The request body of a password change. It is scoped to the principal
/// carried by the caller's session token and never carries a username.
#[derive(Debug)]
pub struct UpdatePassword {
    pub old_password: String,
    pub new_password: String,
}

/// Exactly when a login attempt succeeds against the given credentials:
/// the username is present, its stored hash parses, and the password
/// matches it under the key.
pub open spec fn login_succeeds(
    creds: Map<Seq<char>, Seq<char>>,
    username: Seq<char>,
    password: Seq<char>,
    key: Seq<u8>,
) -> bool {
    &&& creds.contains_key(username)
    &&& parseable_hash(creds[username])
    &&& hash_matches(password, creds[username], key)
}

/// Exactly when a login attempt is turned away as a credential mismatch.
/// An unknown username and a wrong password for a known username fall under
/// the one condition, and so under the one error.
pub open spec fn login_rejected(
    creds: Map<Seq<char>, Seq<char>>,
    username: Seq<char>,
    password: Seq<char>,
    key: Seq<u8>,
) -> bool {
    ||| !creds.contains_key(username)
    ||| (parseable_hash(creds[username]) && !hash_matches(password, creds[username], key))
}

/// Registers a username: rejects a duplicate, otherwise stores the hashed
/// password and returns the fresh principal. The plaintext password is
/// never persisted.
pub fn create_user(
    store: &mut CredentialStore,
    config: &AuthConfig,
    username: &str,
    password: &str,
) -> (r: Result<SlimUser, AuthError>)
    requires
        config.wf(),
    ensures
        r is Ok <==> !old(store)@.contains_key(username@),
        r matches Ok(u) ==> u.username@ == username@,
        r is Ok ==> final(store)@ == old(store)@.insert(username@, final(store)@[username@]),
        r is Ok ==> login_succeeds(final(store)@, username@, password@, config.secret@),
        r is Err ==> final(store)@ == old(store)@ && r == Err::<SlimUser, AuthError>(
            AuthError::DuplicateUsername,
        ),
{
    let existing = store.find_by_username(username);
    if existing.is_some() {
        return Err(AuthError::DuplicateUsername);
    }
    let hashed = match hash(password, config.secret.as_slice(), config.cost) {
        Ok(h) => h,
        Err(e) => {
            return Err(e);
        },
    };
    let row = User { username: username.to_owned(), password: hashed };
    match store.insert(row) {
        Ok(()) => Ok(SlimUser { username: username.to_owned() }),
        Err(e) => Err(e),
    }
}

/// Authenticates a username and password. An unknown username and a wrong
/// password yield the one error, `InvalidCredentials`, so the response
/// never reveals whether a username exists; a stored hash that does not
/// parse is an infrastructure failure, `VerificationError`.
pub fn login(store: &CredentialStore, config: &AuthConfig, username: &str, password: &str) -> (r:
    Result<SlimUser, AuthError>)
    ensures
        r is Ok <==> login_succeeds(store@, username@, password@, config.secret@),
        r matches Ok(u) ==> u.username@ == username@,
        r == Err::<SlimUser, AuthError>(AuthError::InvalidCredentials) <==> login_rejected(
            store@,
            username@,
            password@,
            config.secret@,
        ),
        r == Err::<SlimUser, AuthError>(AuthError::VerificationError) <==> store@.contains_key(
            username@,
        ) && !parseable_hash(store@[username@]),
{
    let found = match store.find_by_username(username) {
        Some(u) => u,
        None => {
            return Err(AuthError::InvalidCredentials);
        },
    };
    match verify(found.password.as_str(), password, config.secret.as_slice()) {
        Ok(matching) => {
            if matching {
                Ok(SlimUser { username: username.to_owned() })
            } else {
                Err(AuthError::InvalidCredentials)
            }
        },
        Err(e) => Err(e),
    }
}

/// Changes the password of the principal carried by the caller's session.
/// The credential is re-loaded from the store, the old password is checked
/// against the stored hash, and only then is the new hash persisted.
pub fn update_password(
    store: &mut CredentialStore,
    config: &AuthConfig,
    user: &SlimUser,
    upwd: &UpdatePassword,
) -> (r: Result<SlimUser, AuthError>)
    requires
        config.wf(),
    ensures
        r is Ok <==> login_succeeds(
            old(store)@,
            user.username@,
            upwd.old_password@,
            config.secret@,
        ),
        r matches Ok(u) ==> u.username@ == user.username@,
        r is Ok ==> final(store)@ == old(store)@.insert(
            user.username@,
            final(store)@[user.username@],
        ),
        r is Ok ==> login_succeeds(final(store)@, user.username@, upwd.new_password@, config.secret@),
        r is Err ==> final(store)@ == old(store)@,
        r == Err::<SlimUser, AuthError>(AuthError::InvalidCredentials) <==> login_rejected(
            old(store)@,
            user.username@,
            upwd.old_password@,
            config.secret@,
        ),
        r == Err::<SlimUser, AuthError>(AuthError::VerificationError) <==> old(
            store,
        )@.contains_key(user.username@) && !parseable_hash(old(store)@[user.username@]),
{
    let found = match store.find_by_username(user.username.as_str()) {
        Some(u) => u,
        None => {
            return Err(AuthError::InvalidCredentials);
        },
    };
    let matching = match verify(
        found.password.as_str(),
        upwd.old_password.as_str(),
        config.secret.as_slice(),
    ) {
        Ok(b) => b,
        Err(e) => {
            return Err(e);
        },
    };
    if !matching {
        return Err(AuthError::InvalidCredentials);
    }
    let new_hash = match hash(upwd.new_password.as_str(), config.secret.as_slice(), config.cost) {
        Ok(h) => h,
        Err(e) => {
            return Err(e);
        },
    };
    let updated = store.update_password_hash(user.username.as_str(), new_hash);
    if updated {
        Ok(SlimUser { username: user.username.clone() })
    } else {
        Err(AuthError::StorageUnavailable)
    }
}

/// Stateless logout: the session token is discarded on the client side, and
/// the server keeps no session table to update. Exposed for symmetry with
/// the other operations.
pub fn logout(id: Option<String>) -> (r: Option<String>)
    ensures
        r is None,
{
    match id {
        _ => None,
    }
}

/// Idempotent duplicate rejection, at the level of the store model: after a
/// successful registration the store maps the username, so by the contract
/// of `create_user` a second registration of the same username returns
/// `DuplicateUsername` and leaves the store unchanged.
pub proof fn lemma_duplicate_registration(
    creds: Map<Seq<char>, Seq<char>>,
    username: Seq<char>,
    stored: Seq<char>,
)
    ensures
        creds.insert(username, stored).contains_key(username),
{
}

/// Enumeration resistance: an unknown username and a wrong password for a
/// known username both fall under `login_rejected`, so by the contract of
/// `login` both draw exactly the error `InvalidCredentials`.
pub proof fn lemma_enumeration_resistance(
    creds: Map<Seq<char>, Seq<char>>,
    unknown: Seq<char>,
    known: Seq<char>,
    password: Seq<char>,
    key: Seq<u8>,
)
    ensures
        !creds.contains_key(unknown) ==> login_rejected(creds, unknown, password, key),
        creds.contains_key(known) && parseable_hash(creds[known]) && !hash_matches(
            password,
            creds[known],
            key,
        ) ==> login_rejected(creds, known, password, key),
{
}

/// Password change invariant, at the level of the store model: once the
/// stored hash of a username is replaced by a hash of the new password, a
/// login with the new password succeeds; and a login with any password that
/// does not match the new hash — in particular the old password, unless the
/// two collide under the primitive — is rejected.
pub proof fn lemma_password_change(
    creds: Map<Seq<char>, Seq<char>>,
    username: Seq<char>,
    new_hash: Seq<char>,
    old_password: Seq<char>,
    new_password: Seq<char>,
    key: Seq<u8>,
)
    ensures
        parseable_hash(new_hash) && hash_matches(new_password, new_hash, key) ==> login_succeeds(
            creds.insert(username, new_hash),
            username,
            new_password,
            key,
        ),
        parseable_hash(new_hash) && !hash_matches(old_password, new_hash, key) ==> login_rejected(
            creds.insert(username, new_hash),
            username,
            old_password,
            key,
        ),
{
}

/// Password change invariant, end to end: whenever a password change goes
/// through, a login with the new password succeeds. Verus proves the result
/// is `true` for every store, principal and request, from the contracts of
/// `update_password` and `login` alone.
pub fn change_then_login_round_trip(
    store: &mut CredentialStore,
    config: &AuthConfig,
    user: &SlimUser,
    upwd: &UpdatePassword,
) -> (r: bool)
    requires
        config.wf(),
    ensures
        r,
{
    match update_password(store, config, user, upwd) {
        Ok(_) => match login(store, config, user.username.as_str(), upwd.new_password.as_str()) {
            Ok(u) => u.username == user.username,
            Err(_) => false,
        },
        Err(_) => true,
    }
}

} // verus!
