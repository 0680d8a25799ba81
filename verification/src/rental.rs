//! The life cycle of a rental: reservation, pickup, extension request, acceptance or
//! withdrawal of the request, and archival into the history.

use crate::access::{authorize_self_or_admin, self_or_admin, AccessError};
use crate::auth_manager::Claims;
use crate::date::Date;
use crate::table::{Duplicable, Linked};
use vstd::prelude::*;

verus! {

/// An active rental of one game by one user.
#[derive(Clone, Copy, Debug, PartialEq, Eq)]
pub struct Rental {
    pub id: i32,
    pub game_id: i32,
    pub user_id: i32,
    pub rental_date: Date,
    pub return_date: Date,
    /// Whether the renter has collected the game.
    pub picked_up: bool,
    /// The return date that the renter asks for, while a request is pending.
    pub extension_date: Option<Date>,
}

/// A closed rental: the record of an active rental at the moment it was archived.
#[derive(Clone, Copy, Debug, PartialEq, Eq, Structural)]
pub struct RentalHistory {
    pub id: i32,
    pub game_id: i32,
    pub user_id: i32,
    pub rental_date: Date,
    pub return_date: Date,
    pub picked_up: bool,
}

/// The mark that a user has put on a game: a pure membership, keyed by both ids.
#[derive(Clone, Copy, Debug, PartialEq, Eq, Structural)]
pub struct Favourite {
    pub user_id: i32,
    pub game_id: i32,
}

impl Linked for Rental {
    open spec fn user(&self) -> i32 {
        self.user_id
    }

    open spec fn game(&self) -> i32 {
        self.game_id
    }

    fn user_id(&self) -> (r: i32) {
        self.user_id
    }

    fn game_id(&self) -> (r: i32) {
        self.game_id
    }
}

impl Linked for RentalHistory {
    open spec fn user(&self) -> i32 {
        self.user_id
    }

    open spec fn game(&self) -> i32 {
        self.game_id
    }

    fn user_id(&self) -> (r: i32) {
        self.user_id
    }

    fn game_id(&self) -> (r: i32) {
        self.game_id
    }
}

impl Linked for Favourite {
    open spec fn user(&self) -> i32 {
        self.user_id
    }

    open spec fn game(&self) -> i32 {
        self.game_id
    }

    fn user_id(&self) -> (r: i32) {
        self.user_id
    }

    fn game_id(&self) -> (r: i32) {
        self.game_id
    }
}

impl Duplicable for Rental {
    fn duplicate(&self) -> (r: Self) {
        *self
    }
}

impl Duplicable for RentalHistory {
    fn duplicate(&self) -> (r: Self) {
        *self
    }
}

/// The base state of a rental.
#[derive(Clone, Copy, Debug, PartialEq, Eq, Structural)]
pub enum RentalState {
    /// Reserved and not yet collected.
    Reserved,
    /// Collected by the renter.
    PickedUp,
}

/// Why a transition of a rental is refused.
#[derive(Clone, Copy, Debug, PartialEq, Eq, Structural)]
pub enum RentalError {
    /// There is no extension request to accept.
    NoExtensionPending,
}

/// The history record of a rental: every field but the pending extension.
pub open spec fn history_of(rental: Rental) -> RentalHistory {
    RentalHistory {
        id: rental.id,
        game_id: rental.game_id,
        user_id: rental.user_id,
        rental_date: rental.rental_date,
        return_date: rental.return_date,
        picked_up: rental.picked_up,
    }
}

/// Whether the holder of `claims` may archive `rental`: an administrator always, a
/// user only their own rental and only before pickup.
pub open spec fn can_archive(claims: Claims, rental: Rental) -> bool {
    claims.is_admin || (rental.user_id == claims.sub && !rental.picked_up)
}

/// Whether the holder of `claims` may request or withdraw an extension of `rental`:
/// an administrator, or the renter.
pub open spec fn can_change_extension(claims: Claims, rental: Rental) -> bool {
    self_or_admin(claims, rental.user_id)
}

/// The rental with a pending request for `new_date`.
pub open spec fn requested(rental: Rental, new_date: Date) -> Rental {
    Rental { extension_date: Some(new_date), ..rental }
}

/// The rental with no pending request.
pub open spec fn withdrawn(rental: Rental) -> Rental {
    Rental { extension_date: None, ..rental }
}

/// The outcome of accepting the pending request of a rental: the requested date
/// becomes the return date and no request is pending; an error where none was.
pub open spec fn accepted(rental: Rental) -> Result<Rental, RentalError> {
    match rental.extension_date {
        Some(date) => Ok(Rental { return_date: date, extension_date: None, ..rental }),
        None => Err(RentalError::NoExtensionPending),
    }
}

impl Rental {
    /// A fresh reservation: not picked up, no extension pending.
    pub fn new(id: i32, game_id: i32, user_id: i32, rental_date: Date, return_date: Date) -> (r:
        Rental)
        ensures
            r == (Rental {
                id,
                game_id,
                user_id,
                rental_date,
                return_date,
                picked_up: false,
                extension_date: None,
            }),
    {
        Rental {
            id,
            game_id,
            user_id,
            rental_date,
            return_date,
            picked_up: false,
            extension_date: None,
        }
    }

    /// The base state of this rental.
    pub open spec fn spec_state(self) -> RentalState {
        if self.picked_up {
            RentalState::PickedUp
        } else {
            RentalState::Reserved
        }
    }

    /// The base state of this rental.
    #[verifier::when_used_as_spec(spec_state)]
    pub fn state(self) -> (r: RentalState)
        ensures
            r == self.spec_state(),
    {
        if self.picked_up {
            RentalState::PickedUp
        } else {
            RentalState::Reserved
        }
    }

    /// Whether an extension request is pending.
    pub open spec fn spec_extension_pending(self) -> bool {
        self.extension_date is Some
    }

    /// Whether an extension request is pending.
    #[verifier::when_used_as_spec(spec_extension_pending)]
    pub fn extension_pending(self) -> (r: bool)
        ensures
            r == self.spec_extension_pending(),
    {
        self.extension_date.is_some()
    }

    /// The rental after the renter has collected the game.
    pub fn pick_up(self) -> (r: Rental)
        ensures
            r == (Rental { picked_up: true, ..self }),
    {
        Rental { picked_up: true, ..self }
    }

    /// The rental with a request to extend it to `new_date`; a request that was
    /// pending is replaced.
    pub fn request_extension(self, new_date: Date) -> (r: Rental)
        ensures
            r == requested(self, new_date),
    {
        Rental { extension_date: Some(new_date), ..self }
    }

    /// The rental after its pending request was accepted: the requested date becomes
    /// the return date, and no request is pending. Fails where none was.
    pub fn accept_extension(self) -> (r: Result<Rental, RentalError>)
        ensures
            r == accepted(self),
    {
        match self.extension_date {
            Some(date) => Ok(Rental { return_date: date, extension_date: None, ..self }),
            None => Err(RentalError::NoExtensionPending),
        }
    }

    /// The rental after its request was denied or withdrawn: no request is pending,
    /// and the return date stays.
    pub fn withdraw_extension(self) -> (r: Rental)
        ensures
            r == withdrawn(self),
    {
        Rental { extension_date: None, ..self }
    }

    /// The history record that archiving this rental leaves.
    pub fn archive(self) -> (r: RentalHistory)
        ensures
            r == history_of(self),
    {
        RentalHistory {
            id: self.id,
            game_id: self.game_id,
            user_id: self.user_id,
            rental_date: self.rental_date,
            return_date: self.return_date,
            picked_up: self.picked_up,
        }
    }
}

/// Decides whether the holder of `claims` may archive `rental`: the check for the
/// renter or an administrator, and on top of it the rule that a renter may archive
/// only before pickup.
pub fn authorize_archive(claims: &Claims, rental: &Rental) -> (r: Result<(), AccessError>)
    ensures
        r == (if can_archive(*claims, *rental) {
            Ok::<(), AccessError>(())
        } else {
            Err(AccessError::Forbidden)
        }),
{
    match authorize_self_or_admin(claims, rental.user_id) {
        Err(e) => {
            return Err(e);
        },
        Ok(_) => {},
    }
    if !claims.is_admin && rental.picked_up {
        return Err(AccessError::Forbidden);
    }
    Ok(())
}

/// Decides whether the holder of `claims` may request or withdraw an extension of
/// `rental`: the check for the renter or an administrator.
pub fn authorize_extension(claims: &Claims, rental: &Rental) -> (r: Result<(), AccessError>)
    ensures
        r == (if can_change_extension(*claims, *rental) {
            Ok::<(), AccessError>(())
        } else {
            Err(AccessError::Forbidden)
        }),
{
    authorize_self_or_admin(claims, rental.user_id)
}

/// Accepting a request right after it was made sets the return date to the
/// requested date and leaves no request pending, while every other field stays;
/// and after an acceptance or a withdrawal there is nothing left to accept.
pub proof fn lemma_request_then_accept(rental: Rental, new_date: Date)
    ensures
        accepted(requested(rental, new_date)) == Ok::<Rental, RentalError>(
            Rental { return_date: new_date, extension_date: None, ..rental },
        ),
        accepted(accepted(requested(rental, new_date))->Ok_0) == Err::<Rental, RentalError>(
            RentalError::NoExtensionPending,
        ),
        accepted(withdrawn(rental)) == Err::<Rental, RentalError>(
            RentalError::NoExtensionPending,
        ),
{
}

} // verus!
