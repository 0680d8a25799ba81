//! Credentials: password hashes and signed, time-bounded session tokens.
//!
//! Hashing and signing are done by the `argon2` and `jsonwebtoken` crates. The calls
//! into them stand in small functions at the end of this file whose contracts are
//! taken on trust; everything that is decided about their results is verified.

use vstd::prelude::*;
use vstd::string::*;

verus! {

/// How long a session lasts, in seconds: thirty minutes.
pub const SESSION_SECONDS: u64 = 1800;

/// An identity assertion carried by a session token.
#[derive(Clone, Copy, Debug, PartialEq, Eq, Structural)]
pub struct Claims {
    /// The id of the user the token was issued to.
    pub sub: i32,
    /// Whether that user is an administrator.
    pub is_admin: bool,
    /// When the token was issued, in seconds since the Unix epoch.
    pub iat: u64,
    /// When the token expires, in seconds since the Unix epoch.
    pub exp: u64,
}

/// What went wrong in the credential service.
#[derive(Clone, Copy, Debug, PartialEq, Eq, Structural)]
pub enum AuthErrorKind {
    /// No signing secret was supplied.
    MissingSecret,
    /// The token is not of the right shape, is not signed with the secret,
    /// or lacks one of the claims.
    InvalidToken,
    /// The token was genuine but its time is over.
    Expired,
    /// The stored password hash cannot be read.
    CorruptHash,
    /// The password could not be hashed.
    HashingFailed,
    /// The token could not be signed.
    SigningFailed,
    /// The time is outside the range in which a session can be stated.
    ClockOutOfRange,
}

/// An error of the credential service, with a message for the log or the response.
pub struct AuthError {
    pub kind: AuthErrorKind,
    pub message: String,
}

/// The service that hashes passwords and issues and verifies session tokens.
pub struct AuthManager {
    secret: String,
}

/// The four claims as they are found in a token: each is `None` where the token
/// lacks it or holds a value of another type.
pub type RawClaims = (Option<i64>, Option<bool>, Option<u64>, Option<u64>);

/// The token that `jsonwebtoken::encode` makes, under the default header (HS256) and
/// the given secret, of the claims `sub`, `is_admin`, `iat` and `exp`; `None` where
/// it reports an error.
pub uninterp spec fn signed_token(
    secret: Seq<char>,
    sub: i32,
    is_admin: bool,
    iat: u64,
    exp: u64,
) -> Option<Seq<char>>;

/// What `jsonwebtoken::decode` finds in `token` under the given secret and the default
/// validation with the expiry check switched off: the four claims, or `None`
/// where it reports an error (wrong shape, wrong signature, no numeric `exp`).
pub uninterp spec fn token_reading(secret: Seq<char>, token: Seq<char>) -> Option<RawClaims>;

/// Whether `PasswordHash::new` reads `hash` as a password hash string. It depends on
/// the stored hash alone, not on the password that is tried against it.
pub uninterp spec fn hash_readable(hash: Seq<char>) -> bool;

/// Whether `Argon2::default().verify_password` accepts `password` for the hash that
/// `PasswordHash::new` has read out of `hash`; meaningful where `hash` is readable.
pub uninterp spec fn password_matches(password: Seq<char>, hash: Seq<char>) -> bool;

/// What verifying `password` against the stored `hash` gives: `Some(true)` for a
/// match, `Some(false)` for none, `None` where `hash` is not a password hash string.
pub open spec fn password_check(password: Seq<char>, hash: Seq<char>) -> Option<bool> {
    if hash_readable(hash) {
        Some(password_matches(password, hash))
    } else {
        None
    }
}

/// The claims that a reading holds, if all four are there and the subject is a user id.
pub open spec fn claims_of_reading(raw: RawClaims) -> Option<Claims> {
    match raw {
        (Some(sub), Some(is_admin), Some(iat), Some(exp)) => if i32::MIN <= sub <= i32::MAX {
            Some(Claims { sub: sub as i32, is_admin, iat, exp })
        } else {
            None
        },
        _ => None,
    }
}

/// The claims that a genuine token carries, whatever the time.
pub open spec fn token_claims(secret: Seq<char>, token: Seq<char>) -> Option<Claims> {
    match token_reading(secret, token) {
        Some(raw) => claims_of_reading(raw),
        None => None,
    }
}

/// Whether claims are past their time at `now`: the expiry lies before `now`.
pub open spec fn expired_at(claims: Claims, now: u64) -> bool {
    claims.exp < now
}

/// The outcome of verifying claims found in a token at the time `now`.
pub open spec fn session_of(found: Option<Claims>, now: u64) -> Result<Claims, AuthErrorKind> {
    match found {
        None => Err(AuthErrorKind::InvalidToken),
        Some(claims) => if expired_at(claims, now) {
            Err(AuthErrorKind::Expired)
        } else {
            Ok(claims)
        },
    }
}

/// The outcome of verifying `token` at the time `now`.
pub open spec fn session_at(secret: Seq<char>, token: Seq<char>, now: u64) -> Result<
    Claims,
    AuthErrorKind,
> {
    session_of(token_claims(secret, token), now)
}

/// The outcome of a credential operation, with the error reduced to its kind.
pub open spec fn outcome<T>(r: Result<T, AuthError>) -> Result<T, AuthErrorKind> {
    match r {
        Ok(v) => Ok(v),
        Err(e) => Err(e.kind),
    }
}

/// Whether an error that a credential operation gives carries the message of its
/// kind.
pub open spec fn described<T>(r: Result<T, AuthError>) -> bool {
    r matches Err(e) ==> e.described()
}

impl AuthErrorKind {
    /// The message that goes with an error of this kind.
    pub open spec fn message(self) -> Seq<char> {
        match self {
            AuthErrorKind::MissingSecret => "JWT_SECRET is not set"@,
            AuthErrorKind::InvalidToken => "Invalid token"@,
            AuthErrorKind::Expired => "Invalid token: ExpiredSignature"@,
            AuthErrorKind::CorruptHash => "Failed to verify password"@,
            AuthErrorKind::HashingFailed => "Failed to hash password"@,
            AuthErrorKind::SigningFailed => "Failed to generate JWT"@,
            AuthErrorKind::ClockOutOfRange => "Failed to generate JWT"@,
        }
    }
}

impl AuthError {
    /// Whether the error carries the message of its kind.
    pub open spec fn described(self) -> bool {
        self.message@ == self.kind.message()
    }

    /// The error of the given kind, with its message.
    pub fn of(kind: AuthErrorKind) -> (r: AuthError)
        ensures
            r.kind == kind,
            r.described(),
    {
        let message = match kind {
            AuthErrorKind::MissingSecret => String::from_str("JWT_SECRET is not set"),
            AuthErrorKind::InvalidToken => String::from_str("Invalid token"),
            AuthErrorKind::Expired => String::from_str("Invalid token: ExpiredSignature"),
            AuthErrorKind::CorruptHash => String::from_str("Failed to verify password"),
            AuthErrorKind::HashingFailed => String::from_str("Failed to hash password"),
            AuthErrorKind::SigningFailed => String::from_str("Failed to generate JWT"),
            AuthErrorKind::ClockOutOfRange => String::from_str("Failed to generate JWT"),
        };
        AuthError { kind, message }
    }
}

impl Claims {
    /// The claims of a session of `user_id` that starts at `now`.
    pub open spec fn session(user_id: i32, is_admin: bool, now: u64) -> Claims {
        Claims { sub: user_id, is_admin, iat: now, exp: (now + SESSION_SECONDS) as u64 }
    }

    /// Checks what was found in a token whose signature is good: all four claims must
    /// be there, the subject must be a user id, and the time must not be over.
    pub fn check(raw: RawClaims, now: u64) -> (r: Result<Claims, AuthError>)
        ensures
            outcome(r) == session_of(claims_of_reading(raw), now),
            described(r),
    {
        match raw {
            (Some(sub), Some(is_admin), Some(iat), Some(exp)) => {
                if sub < -2147483648 || sub > 2147483647 {
                    return Err(AuthError::of(AuthErrorKind::InvalidToken));
                }
                if exp < now {
                    Err(AuthError::of(AuthErrorKind::Expired))
                } else {
                    Ok(Claims { sub: sub as i32, is_admin, iat, exp })
                }
            },
            _ => Err(AuthError::of(AuthErrorKind::InvalidToken)),
        }
    }
}

impl AuthManager {
    /// The signing secret.
    pub closed spec fn secret(&self) -> Seq<char> {
        self.secret@
    }

    /// The service with the given signing secret; fails where there is none.
    pub fn new(secret: Option<String>) -> (r: Result<AuthManager, AuthError>)
        ensures
            match secret {
                Some(s) => (r matches Ok(manager) && manager.secret() == s@),
                None => (r matches Err(e) && e.kind == AuthErrorKind::MissingSecret),
            },
            described(r),
    {
        match secret {
            Some(s) => Ok(AuthManager { secret: s }),
            None => Err(AuthError::of(AuthErrorKind::MissingSecret)),
        }
    }

    /// Issues a token for a session of `user_id` that starts at `now` and lasts
    /// thirty minutes.
    ///
    /// A token that comes back verifies to exactly the claims of that session at every
    /// time up to its expiry, and is refused as expired at every time after it.
    pub fn generate_jwt_at(&self, user_id: i32, is_admin: bool, now: u64) -> (r: Result<
        String,
        AuthError,
    >)
        ensures
            now + SESSION_SECONDS > u64::MAX ==> (r matches Err(e) && e.kind
                == AuthErrorKind::ClockOutOfRange),
            now + SESSION_SECONDS <= u64::MAX ==> match signed_token(
                self.secret(),
                user_id,
                is_admin,
                now,
                (now + SESSION_SECONDS) as u64,
            ) {
                Some(token) => (r matches Ok(t) && t@ == token),
                None => (r matches Err(e) && e.kind == AuthErrorKind::SigningFailed),
            },
            r matches Ok(t) ==> token_claims(self.secret(), t@) == Some(
                Claims::session(user_id, is_admin, now),
            ),
            r matches Ok(t) ==> forall|later: u64|
                #[trigger] session_at(self.secret(), t@, later) == (if later <= now
                    + SESSION_SECONDS {
                    Ok(Claims::session(user_id, is_admin, now))
                } else {
                    Err(AuthErrorKind::Expired)
                }),
            described(r),
    {
        let exp: u64 = match now.checked_add(SESSION_SECONDS) {
            Some(exp) => exp,
            None => {
                return Err(AuthError::of(AuthErrorKind::ClockOutOfRange));
            },
        };
        match sign_claims(self.secret.as_str(), user_id, is_admin, now, exp) {
            Ok(token) => Ok(token),
            Err(_) => Err(AuthError::of(AuthErrorKind::SigningFailed)),
        }
    }

    /// Issues a token for a session of `user_id` that starts now.
    ///
    /// Whatever the clock says: a token that comes back carries the user's id and
    /// admin flag and a validity of thirty minutes from its issue, and the only
    /// failure is that of the signing.
    pub fn generate_jwt(&self, user_id: i32, is_admin: bool) -> (r: Result<String, AuthError>)
        ensures
            r matches Ok(t) ==> (token_claims(self.secret(), t@) matches Some(claims)
                && claims.sub == user_id && claims.is_admin == is_admin && claims.exp
                == claims.iat + SESSION_SECONDS),
            r matches Err(e) ==> e.kind == AuthErrorKind::SigningFailed,
            described(r),
    {
        let now: i64 = current_timestamp();
        self.generate_jwt_at(user_id, is_admin, now as u64)
    }

    /// Verifies `token` at the time `now`: the signature and shape, the presence of the
    /// claims, and the expiry.
    pub fn verify_jwt_at(&self, token: &str, now: u64) -> (r: Result<Claims, AuthError>)
        ensures
            outcome(r) == session_at(self.secret(), token@, now),
            described(r),
    {
        match read_token(self.secret.as_str(), token) {
            Ok(raw) => Claims::check(raw, now),
            Err(_) => Err(AuthError::of(AuthErrorKind::InvalidToken)),
        }
    }

    /// Verifies `token` against the clock.
    ///
    /// Whatever the clock says: a token that is not genuine is refused as invalid, and
    /// claims that come back are those the token carries.
    pub fn verify_jwt(&self, token: &str) -> (r: Result<Claims, AuthError>)
        ensures
            token_claims(self.secret(), token@) is None <==> (r matches Err(e) && e.kind
                == AuthErrorKind::InvalidToken),
            r matches Ok(claims) ==> token_claims(self.secret(), token@) == Some(claims),
            r matches Err(e) ==> e.kind == AuthErrorKind::InvalidToken || e.kind
                == AuthErrorKind::Expired,
            described(r),
    {
        let now: i64 = current_timestamp();
        self.verify_jwt_at(token, now as u64)
    }

    /// Verifies a password against a stored hash: `Ok(false)` on a mismatch, an error
    /// only where the stored hash cannot be read.
    pub fn verify_password(&self, password: String, password_hash: String) -> (r: Result<
        bool,
        AuthError,
    >)
        ensures
            outcome(r) == (match password_check(password@, password_hash@) {
                Some(matches) => Ok(matches),
                None => Err(AuthErrorKind::CorruptHash),
            }),
            r is Err <==> !hash_readable(password_hash@),
            described(r),
    {
        match check_password(password.as_str(), password_hash.as_str()) {
            Ok(matches) => Ok(matches),
            Err(_) => Err(AuthError::of(AuthErrorKind::CorruptHash)),
        }
    }

    /// Hashes a password under a fresh random salt. A hash that comes back verifies
    /// against the password it was made from.
    pub fn hash_password(&self, password: String) -> (r: Result<String, AuthError>)
        ensures
            r matches Ok(hash) ==> password_check(password@, hash@) == Some(true),
            r matches Err(e) ==> e.kind == AuthErrorKind::HashingFailed,
            described(r),
    {
        match hash_with_fresh_salt(password.as_str()) {
            Ok(hash) => Ok(hash),
            Err(_) => Err(AuthError::of(AuthErrorKind::HashingFailed)),
        }
    }
}

/// The error type of `jsonwebtoken`.
#[verifier::external_type_specification]
#[verifier::external_body]
pub struct ExTokenError(jsonwebtoken::errors::Error);

/// The error type of `argon2`'s password hashes.
#[verifier::external_type_specification]
#[verifier::external_body]
pub struct ExHashError(argon2::password_hash::Error);

/// Reads the clock with `chrono::Utc::now` and `DateTime::timestamp`: seconds since
/// the Unix epoch.
///
/// The contract claims only that the value is not negative: `Utc::now` takes the
/// time that has passed since the epoch and does not return where the clock stands
/// before it.
#[verifier::external_body]
fn current_timestamp() -> (r: i64)
    ensures
        r >= 0,
{
    chrono::Utc::now().timestamp()
}

/// Calls `jsonwebtoken::encode` with the default header and an HMAC key made of the
/// secret's bytes, on a JSON object that holds the four claims.
///
/// The contract names the token. It also claims, of every token that comes back,
/// that `jsonwebtoken::decode` finds the four claims in it again under the same
/// secret: `decode` checks the signature that `encode` made with the same key, and
/// parses the JSON object that `encode` wrote.
#[verifier::external_body]
fn sign_claims(secret: &str, sub: i32, is_admin: bool, iat: u64, exp: u64) -> (r: Result<
    String,
    jsonwebtoken::errors::Error,
>)
    ensures
        match r {
            Ok(token) => signed_token(secret@, sub, is_admin, iat, exp) == Some(token@),
            Err(_) => signed_token(secret@, sub, is_admin, iat, exp) is None,
        },
        r matches Ok(token) ==> token_reading(secret@, token@) == Some(
            (Some(sub as i64), Some(is_admin), Some(iat), Some(exp)),
        ),
{
    let mut claims = serde_json::Map::new();
    claims.insert("sub".to_string(), serde_json::Value::from(sub));
    claims.insert("is_admin".to_string(), serde_json::Value::from(is_admin));
    claims.insert("iat".to_string(), serde_json::Value::from(iat));
    claims.insert("exp".to_string(), serde_json::Value::from(exp));
    let key = jsonwebtoken::EncodingKey::from_secret(secret.as_bytes());
    jsonwebtoken::encode(&jsonwebtoken::Header::default(), &claims, &key)
}

/// Calls `jsonwebtoken::decode` with an HMAC key made of the secret's bytes and the
/// default validation (HS256, `exp` required) with the expiry check switched off, so
/// that the outcome does not depend on the clock, and picks the four claims out of
/// the JSON object. The contract only names the outcome.
#[verifier::external_body]
fn read_token(secret: &str, token: &str) -> (r: Result<RawClaims, jsonwebtoken::errors::Error>)
    ensures
        match r {
            Ok(raw) => token_reading(secret@, token@) == Some(raw),
            Err(_) => token_reading(secret@, token@) is None,
        },
{
    let mut validation = jsonwebtoken::Validation::default();
    validation.validate_exp = false;
    let key = jsonwebtoken::DecodingKey::from_secret(secret.as_bytes());
    let data = jsonwebtoken::decode::<serde_json::Value>(token, &key, &validation)?;
    Ok(
        (
            data.claims["sub"].as_i64(),
            data.claims["is_admin"].as_bool(),
            data.claims["iat"].as_u64(),
            data.claims["exp"].as_u64(),
        ),
    )
}

/// Draws a salt with `SaltString::generate` from the operating system's random
/// numbers and calls `Argon2::default().hash_password`.
///
/// The salt differs from call to call, so the hash has no name. The contract
/// claims of every hash that comes back that it is readable and that verifying the
/// same password against it succeeds: the verifier hashes again with the salt and
/// the parameters that the hash string holds, and compares. Where the operating
/// system has no random numbers to give, the call does not return.
#[verifier::external_body]
fn hash_with_fresh_salt(password: &str) -> (r: Result<String, argon2::password_hash::Error>)
    ensures
        r matches Ok(hash) ==> hash_readable(hash@) && password_matches(password@, hash@),
{
    let salt = argon2::password_hash::SaltString::generate(
        &mut argon2::password_hash::rand_core::OsRng,
    );
    let hasher = argon2::Argon2::default();
    match argon2::PasswordHasher::hash_password(&hasher, password.as_bytes(), &salt) {
        Ok(hash) => Ok(hash.to_string()),
        Err(e) => Err(e),
    }
}

/// Parses the stored hash with `PasswordHash::new` and calls
/// `Argon2::default().verify_password`: an unreadable hash is the error, any failure
/// of the verification itself is a mismatch. The contract only names the two
/// outcomes: whether the hash was read, and whether the password was accepted.
#[verifier::external_body]
fn check_password(password: &str, hash: &str) -> (r: Result<bool, argon2::password_hash::Error>)
    ensures
        match r {
            Ok(matches) => hash_readable(hash@) && matches == password_matches(password@, hash@),
            Err(_) => !hash_readable(hash@),
        },
{
    let parsed = argon2::PasswordHash::new(hash)?;
    let hasher = argon2::Argon2::default();
    Ok(argon2::PasswordVerifier::verify_password(&hasher, password.as_bytes(), &parsed).is_ok())
}

} // verus!
