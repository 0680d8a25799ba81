//! Access control: who may do what, given the claims of a verified session.

use crate::auth_manager::{
    outcome, session_at, token_claims, AuthError, AuthErrorKind, AuthManager, Claims,
};
use vstd::prelude::*;
use vstd::string::*;

verus! {

/// What an operation demands of its caller.
#[derive(Clone, Copy, Debug, PartialEq, Eq, Structural)]
pub enum Privilege {
    /// Anyone, with or without a session.
    Public,
    /// The owner of the resource, or an administrator.
    SelfOrAdmin,
    /// An administrator.
    AdminOnly,
}

/// Why access is refused.
#[derive(Clone, Copy, Debug, PartialEq, Eq, Structural)]
pub enum AccessError {
    /// No valid session: the token is missing, malformed, forged or expired.
    Unauthorized,
    /// A valid session that lacks the privilege or does not own the resource.
    Forbidden,
}

/// Whether the holder of `claims` is an administrator or the user `owner`.
pub open spec fn self_or_admin(claims: Claims, owner: i32) -> bool {
    claims.is_admin || claims.sub == owner
}

/// The decision on access for a caller (`None` is the anonymous caller) on a
/// resource that belongs to `owner`.
pub open spec fn decision(required: Privilege, caller: Option<Claims>, owner: i32) -> Result<
    (),
    AccessError,
> {
    match required {
        Privilege::Public => Ok(()),
        Privilege::SelfOrAdmin => match caller {
            None => Err(AccessError::Unauthorized),
            Some(claims) => if self_or_admin(claims, owner) {
                Ok(())
            } else {
                Err(AccessError::Forbidden)
            },
        },
        Privilege::AdminOnly => match caller {
            None => Err(AccessError::Unauthorized),
            Some(claims) => if claims.is_admin {
                Ok(())
            } else {
                Err(AccessError::Forbidden)
            },
        },
    }
}

/// Succeeds if and only if the holder of `claims` is an administrator or the owner.
pub fn authorize_self_or_admin(claims: &Claims, owner: i32) -> (r: Result<(), AccessError>)
    ensures
        r == (if self_or_admin(*claims, owner) {
            Ok::<(), AccessError>(())
        } else {
            Err(AccessError::Forbidden)
        }),
{
    if !claims.is_admin && claims.sub != owner {
        Err(AccessError::Forbidden)
    } else {
        Ok(())
    }
}

/// Succeeds if and only if the holder of `claims` is an administrator.
pub fn authorize_admin(claims: &Claims) -> (r: Result<(), AccessError>)
    ensures
        r == (if claims.is_admin {
            Ok::<(), AccessError>(())
        } else {
            Err(AccessError::Forbidden)
        }),
{
    if claims.is_admin {
        Ok(())
    } else {
        Err(AccessError::Forbidden)
    }
}

/// Whether `user` asks about themselves, or is an administrator who may ask about anyone.
pub fn is_self_request(user: &Claims, id: i32) -> (r: Result<(), AccessError>)
    ensures
        r == decision(Privilege::SelfOrAdmin, Some(*user), id),
{
    authorize_self_or_admin(user, id)
}

/// The single check of access: the privilege an operation requires, against the
/// caller's claims and the owner of the resource.
pub fn authorize(required: Privilege, caller: Option<Claims>, owner: i32) -> (r: Result<
    (),
    AccessError,
>)
    ensures
        r == decision(required, caller, owner),
{
    match required {
        Privilege::Public => Ok(()),
        Privilege::SelfOrAdmin => match caller {
            None => Err(AccessError::Unauthorized),
            Some(claims) => authorize_self_or_admin(&claims, owner),
        },
        Privilege::AdminOnly => match caller {
            None => Err(AccessError::Unauthorized),
            Some(claims) => authorize_admin(&claims),
        },
    }
}

/// The position of the first space of `s` at or after `from`; the length of `s`
/// where there is none.
pub open spec fn next_space(s: Seq<char>, from: int) -> int
    decreases s.len() - from,
{
    if from < 0 || from >= s.len() {
        s.len() as int
    } else if s[from] == ' ' {
        from
    } else {
        next_space(s, from + 1)
    }
}

/// The second of the words that single spaces divide `s` into: what stands between the
/// first space and the next one, or the end. `None` where `s` holds no space.
pub open spec fn second_word(s: Seq<char>) -> Option<Seq<char>> {
    let first = next_space(s, 0);
    if first >= s.len() {
        None
    } else {
        Some(s.subrange(first + 1, next_space(s, first + 1)))
    }
}

proof fn lemma_next_space_bounds(s: Seq<char>, from: int)
    requires
        0 <= from <= s.len(),
    ensures
        from <= next_space(s, from) <= s.len(),
    decreases s.len() - from,
{
    if from < s.len() && s[from] != ' ' {
        lemma_next_space_bounds(s, from + 1);
    }
}

/// Finds the first space of `text` at or after `from`.
fn find_space(text: &str, from: usize) -> (r: usize)
    requires
        from <= text@.len(),
    ensures
        r == next_space(text@, from as int),
        from <= r <= text@.len(),
{
    let n: usize = text.unicode_len();
    let mut i: usize = from;
    while i < n && text.get_char(i) != ' '
        invariant
            n == text@.len(),
            from <= i <= n,
            next_space(text@, from as int) == next_space(text@, i as int),
        decreases n - i,
    {
        i = i + 1;
    }
    i
}

/// The token of an `Authorization` header: its second word.
pub fn bearer_token<'a>(header: &'a str) -> (r: Option<&'a str>)
    ensures
        match r {
            Some(token) => second_word(header@) == Some(token@),
            None => second_word(header@) is None,
        },
{
    let n: usize = header.unicode_len();
    let first: usize = find_space(header, 0);
    if first >= n {
        return None;
    }
    let end: usize = find_space(header, first + 1);
    Some(header.substring_char(first + 1, end))
}

/// What access control makes of a verified session: with `admin_only`, claims without the
/// admin flag are forbidden; a failed verification is unauthorized.
pub open spec fn admission(session: Result<Claims, AuthErrorKind>, admin_only: bool) -> Result<
    Claims,
    AccessError,
> {
    match session {
        Ok(claims) => if admin_only && !claims.is_admin {
            Err(AccessError::Forbidden)
        } else {
            Ok(claims)
        },
        Err(_) => Err(AccessError::Unauthorized),
    }
}

/// Lets in or refuses a caller whose token has been verified with the given result.
pub fn decide_admission(session: Result<Claims, AuthError>, admin_only: bool) -> (r: Result<
    Claims,
    AccessError,
>)
    ensures
        r == admission(outcome(session), admin_only),
{
    match session {
        Ok(claims) => {
            if admin_only && !claims.is_admin {
                Err(AccessError::Forbidden)
            } else {
                Ok(claims)
            }
        },
        Err(_) => Err(AccessError::Unauthorized),
    }
}

/// The outcome of authenticating a request at the time `now`, given the value of its
/// `Authorization` header, if it has one.
pub open spec fn authentication(
    secret: Seq<char>,
    authorization: Option<Seq<char>>,
    admin_only: bool,
    now: u64,
) -> Result<Claims, AccessError> {
    match authorization {
        None => Err(AccessError::Unauthorized),
        Some(header) => match second_word(header) {
            None => Err(AccessError::Unauthorized),
            Some(token) => admission(session_at(secret, token, now), admin_only),
        },
    }
}

/// The view of an optional header value.
pub open spec fn header_view(authorization: Option<&str>) -> Option<Seq<char>> {
    match authorization {
        Some(header) => Some(header@),
        None => None,
    }
}

/// Authenticates a request at the time `now`: takes the token out of the header,
/// verifies it, and checks the admin flag where the route is for administrators.
pub fn authenticate_at(
    manager: &AuthManager,
    authorization: Option<&str>,
    admin_only: bool,
    now: u64,
) -> (r: Result<Claims, AccessError>)
    ensures
        r == authentication(manager.secret(), header_view(authorization), admin_only, now),
{
    let header = match authorization {
        Some(header) => header,
        None => {
            return Err(AccessError::Unauthorized);
        },
    };
    match bearer_token(header) {
        Some(token) => decide_admission(manager.verify_jwt_at(token, now), admin_only),
        None => Err(AccessError::Unauthorized),
    }
}

/// The claims that the token of the header carries, whatever the time: `None`
/// where there is no header, no token in it, or no genuine token.
pub open spec fn claims_in_header(secret: Seq<char>, authorization: Option<Seq<char>>) -> Option<
    Claims,
> {
    match authorization {
        None => None,
        Some(header) => match second_word(header) {
            None => None,
            Some(token) => token_claims(secret, token),
        },
    }
}

/// Authenticates a request against the clock.
///
/// Whatever the clock says: without a header, a token or genuine claims the caller
/// is unauthorized; claims without the admin flag never pass on a route for
/// administrators, and are forbidden there unless their time is over; every other
/// caller passes with the claims of the token unless their time is over.
pub fn authenticate(manager: &AuthManager, authorization: Option<&str>, admin_only: bool) -> (r:
    Result<Claims, AccessError>)
    ensures
        match claims_in_header(manager.secret(), header_view(authorization)) {
            None => r == Err::<Claims, AccessError>(AccessError::Unauthorized),
            Some(claims) => if admin_only && !claims.is_admin {
                r == Err::<Claims, AccessError>(AccessError::Forbidden) || r == Err::<
                    Claims,
                    AccessError,
                >(AccessError::Unauthorized)
            } else {
                r == Ok::<Claims, AccessError>(claims) || r == Err::<Claims, AccessError>(
                    AccessError::Unauthorized,
                )
            },
        },
{
    let header = match authorization {
        Some(header) => header,
        None => {
            return Err(AccessError::Unauthorized);
        },
    };
    match bearer_token(header) {
        Some(token) => decide_admission(manager.verify_jwt(token), admin_only),
        None => Err(AccessError::Unauthorized),
    }
}

} // verus!
