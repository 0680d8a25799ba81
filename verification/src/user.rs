//! User accounts and the penalty rule.

use crate::table::Duplicable;
use vstd::prelude::*;

verus! {

/// The largest number of penalty points a user may hold without being penalized.
pub const PENALTY_THRESHOLD: u8 = 2;

/// A user account. The id is assigned from outside, not by the store.
pub struct User {
    pub id: i32,
    pub name: String,
    pub surname: String,
    /// Unique among the stored users.
    pub email: String,
    pub password_hash: String,
    pub penalty_points: u8,
    pub is_admin: bool,
    /// The token that confirms the account, while the account is unconfirmed.
    pub confirmation_token: Option<u128>,
}

/// Whether a user holding `penalty_points` points is penalized.
pub open spec fn penalized(penalty_points: u8) -> bool {
    penalty_points > PENALTY_THRESHOLD
}

/// Whether the user found under an id, if any, is penalized. No user, no penalty.
pub open spec fn found_penalized(user: Option<User>) -> bool {
    match user {
        Some(u) => penalized(u.penalty_points),
        None => false,
    }
}

impl User {
    /// Whether this user is penalized: more points than the threshold.
    pub fn is_penalized(&self) -> (r: bool)
        ensures
            r == penalized(self.penalty_points),
    {
        self.penalty_points > PENALTY_THRESHOLD
    }

    /// Whether the account is confirmed: it awaits no token.
    pub fn is_confirmed(&self) -> (r: bool)
        ensures
            r == (self.confirmation_token is None),
    {
        self.confirmation_token.is_none()
    }

    /// A copy of this user.
    pub fn copy(&self) -> (r: User)
        ensures
            r == *self,
    {
        User {
            id: self.id,
            name: self.name.clone(),
            surname: self.surname.clone(),
            email: self.email.clone(),
            password_hash: self.password_hash.clone(),
            penalty_points: self.penalty_points,
            is_admin: self.is_admin,
            confirmation_token: self.confirmation_token,
        }
    }
}

/// The user that a reference stands for, if there is one.
pub open spec fn referred(user: Option<&User>) -> Option<User> {
    match user {
        Some(u) => Some(*u),
        None => None,
    }
}

/// Whether the user that a lookup found is penalized; a lookup that found nobody
/// is answered with `false`, not with an error.
pub fn is_penalized(user: Option<&User>) -> (r: bool)
    ensures
        r == found_penalized(referred(user)),
{
    match user {
        Some(u) => u.is_penalized(),
        None => false,
    }
}

impl Duplicable for User {
    fn duplicate(&self) -> (r: Self) {
        self.copy()
    }
}

} // verus!
