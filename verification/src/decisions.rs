//! The decisions of the service, each on the rows that a lookup has found: who may
//! do what to which row, and what the row is afterwards.
//!
//! Nothing here touches a store. The operations of [`crate::service`] look the rows
//! up, decide here, and write the outcome back; any other keeper of the rows can
//! do the same.

use crate::access::{authorize, self_or_admin, Privilege};
use crate::auth_manager::{password_check, AuthErrorKind, AuthManager, Claims};
use crate::board_game::{first_violation, BoardGame};
use crate::date::{Date, DateError};
use crate::error::ServiceError;
use crate::rental::{
    accepted, authorize_archive, authorize_extension, can_archive, can_change_extension,
    history_of, requested, withdrawn, Rental, RentalHistory,
};
use crate::user::{found_penalized, referred, User};
use vstd::prelude::*;

verus! {

/// Fails as forbidden unless the holder of `claims` is an administrator.
pub fn require_admin(claims: &Claims) -> (r: Result<(), ServiceError>)
    ensures
        r == (if claims.is_admin {
            Ok::<(), ServiceError>(())
        } else {
            Err(ServiceError::Forbidden)
        }),
{
    match authorize(Privilege::AdminOnly, Some(*claims), claims.sub) {
        Ok(_) => Ok(()),
        Err(_) => Err(ServiceError::Forbidden),
    }
}

/// Fails as forbidden unless the holder of `claims` is the user `owner` or an
/// administrator.
pub fn require_self_or_admin(claims: &Claims, owner: i32) -> (r: Result<(), ServiceError>)
    ensures
        r == (if self_or_admin(*claims, owner) {
            Ok::<(), ServiceError>(())
        } else {
            Err(ServiceError::Forbidden)
        }),
{
    match authorize(Privilege::SelfOrAdmin, Some(*claims), owner) {
        Ok(_) => Ok(()),
        Err(_) => Err(ServiceError::Forbidden),
    }
}

/// What the checks of a login find, before a token is issued: the user who logs in,
/// or why the login is refused. The user must be stored and confirmed, and the
/// password must match the stored hash.
pub open spec fn login_decision(found: Option<User>, password: Seq<char>) -> Result<
    User,
    ServiceError,
> {
    match found {
        None => Err(ServiceError::UserNotFound),
        Some(user) => if user.confirmation_token is Some {
            Err(ServiceError::UserNotConfirmed)
        } else {
            match password_check(password, user.password_hash@) {
                Some(true) => Ok(user),
                Some(false) => Err(ServiceError::InvalidPassword),
                None => Err(ServiceError::Credential(AuthErrorKind::CorruptHash)),
            }
        },
    }
}

/// The checks of a login on the user found under the id.
pub fn decide_login(auth: &AuthManager, found: Option<User>, password: String) -> (r: Result<
    User,
    ServiceError,
>)
    ensures
        r == login_decision(found, password@),
{
    let user = match found {
        Some(user) => user,
        None => {
            return Err(ServiceError::UserNotFound);
        },
    };
    if !user.is_confirmed() {
        return Err(ServiceError::UserNotConfirmed);
    }
    match auth.verify_password(password, user.password_hash.clone()) {
        Ok(true) => Ok(user),
        Ok(false) => Err(ServiceError::InvalidPassword),
        Err(e) => Err(ServiceError::Credential(e.kind)),
    }
}

/// The account that a registration creates: no penalty points, no admin flag, and
/// confirmed.
pub open spec fn new_account(
    id: i32,
    name: String,
    surname: String,
    email: String,
    password_hash: String,
) -> User {
    User {
        id,
        name,
        surname,
        email,
        password_hash,
        penalty_points: 0,
        is_admin: false,
        confirmation_token: None,
    }
}

/// Makes the account of a user who registers with the given data and the hash of
/// the chosen password.
pub fn open_account(
    id: i32,
    name: String,
    surname: String,
    email: String,
    password_hash: String,
) -> (r: User)
    ensures
        r == new_account(id, name, surname, email, password_hash),
{
    User {
        id,
        name,
        surname,
        email,
        password_hash,
        penalty_points: 0,
        is_admin: false,
        confirmation_token: None,
    }
}

/// Hashes the password of an edit, where one is supplied: an empty password
/// stands for no new password, and nothing is hashed then.
///
/// Whatever the salt: a hash that comes back verifies against the password.
pub fn hash_if_supplied(auth: &AuthManager, password: String) -> (r: Result<
    Option<String>,
    ServiceError,
>)
    ensures
        password@.len() == 0 ==> r == Ok::<Option<String>, ServiceError>(None),
        password@.len() != 0 ==> (match r {
            Ok(Some(hash)) => password_check(password@, hash@) == Some(true),
            Ok(None) => false,
            Err(e) => e == ServiceError::Credential(AuthErrorKind::HashingFailed),
        }),
{
    if password.as_str().is_empty() {
        return Ok(None);
    }
    match auth.hash_password(password) {
        Ok(hash) => Ok(Some(hash)),
        Err(e) => Err(ServiceError::Credential(e.kind)),
    }
}

/// The outcome of confirming an account with a token: the confirmed account, where
/// the token is the one that the account awaits.
pub open spec fn confirmation_decision(found: Option<User>, token: u128) -> Result<
    User,
    ServiceError,
> {
    match found {
        None => Err(ServiceError::NotFound),
        Some(user) => if user.confirmation_token != Some(token) {
            Err(ServiceError::InvalidConfirmationToken)
        } else {
            Ok(User { confirmation_token: None, ..user })
        },
    }
}

/// Confirms the account found under the id.
pub fn decide_confirmation(found: Option<User>, token: u128) -> (r: Result<User, ServiceError>)
    ensures
        r == confirmation_decision(found, token),
{
    let user = match found {
        Some(user) => user,
        None => {
            return Err(ServiceError::NotFound);
        },
    };
    let awaited: bool = match user.confirmation_token {
        Some(t) => t == token,
        None => false,
    };
    if !awaited {
        return Err(ServiceError::InvalidConfirmationToken);
    }
    Ok(User { confirmation_token: None, ..user })
}

/// The outcome of showing the user `id` to the holder of `claims`.
pub open spec fn view_decision(claims: Claims, id: i32, found: Option<User>) -> Result<
    User,
    ServiceError,
> {
    if !self_or_admin(claims, id) {
        Err(ServiceError::Forbidden)
    } else {
        match found {
            Some(user) => Ok(user),
            None => Err(ServiceError::NotFound),
        }
    }
}

/// Shows the user found under `id` to that user or an administrator.
pub fn decide_view(claims: &Claims, id: i32, found: Option<User>) -> (r: Result<
    User,
    ServiceError,
>)
    ensures
        r == view_decision(*claims, id, found),
{
    match require_self_or_admin(claims, id) {
        Err(e) => {
            return Err(e);
        },
        Ok(_) => {},
    }
    match found {
        Some(user) => Ok(user),
        None => Err(ServiceError::NotFound),
    }
}

/// The answer to the question whether the user `id` is penalized: for that user or
/// an administrator, and `false` where no user was found.
pub open spec fn penalty_decision(claims: Claims, id: i32, found: Option<User>) -> Result<
    bool,
    ServiceError,
> {
    if !self_or_admin(claims, id) {
        Err(ServiceError::Forbidden)
    } else {
        Ok(found_penalized(found))
    }
}

/// Answers whether the user found under `id` is penalized.
pub fn decide_penalty(claims: &Claims, id: i32, found: Option<&User>) -> (r: Result<
    bool,
    ServiceError,
>)
    ensures
        r == penalty_decision(*claims, id, referred(found)),
{
    match require_self_or_admin(claims, id) {
        Err(e) => {
            return Err(e);
        },
        Ok(_) => {},
    }
    Ok(crate::user::is_penalized(found))
}

/// The outcome of storing a new password hash for the user `id`.
pub open spec fn password_decision(
    claims: Claims,
    id: i32,
    found: Option<User>,
    password_hash: String,
) -> Result<User, ServiceError> {
    if !self_or_admin(claims, id) {
        Err(ServiceError::Forbidden)
    } else {
        match found {
            Some(user) => Ok(User { password_hash, ..user }),
            None => Err(ServiceError::NotFound),
        }
    }
}

/// Puts a new password hash into the user found under `id`, for that user or an
/// administrator.
pub fn decide_password(claims: &Claims, id: i32, found: Option<User>, password_hash: String) -> (r:
    Result<User, ServiceError>)
    ensures
        r == password_decision(*claims, id, found, password_hash),
{
    match require_self_or_admin(claims, id) {
        Err(e) => {
            return Err(e);
        },
        Ok(_) => {},
    }
    match found {
        Some(user) => Ok(User { password_hash, ..user }),
        None => Err(ServiceError::NotFound),
    }
}

/// The user after an administrator's edit: the password hash changes only where a
/// new one is given; the id and the confirmation stay.
pub open spec fn edited_user(
    user: User,
    name: String,
    surname: String,
    email: String,
    new_hash: Option<String>,
    penalty_points: u8,
    is_admin: bool,
) -> User {
    User {
        id: user.id,
        name,
        surname,
        email,
        password_hash: match new_hash {
            Some(hash) => hash,
            None => user.password_hash,
        },
        penalty_points,
        is_admin,
        confirmation_token: user.confirmation_token,
    }
}

/// The outcome of an edit of a user.
pub open spec fn edit_decision(
    claims: Claims,
    found: Option<User>,
    name: String,
    surname: String,
    email: String,
    new_hash: Option<String>,
    penalty_points: u8,
    is_admin: bool,
) -> Result<User, ServiceError> {
    if !claims.is_admin {
        Err(ServiceError::Forbidden)
    } else {
        match found {
            Some(user) => Ok(
                edited_user(user, name, surname, email, new_hash, penalty_points, is_admin),
            ),
            None => Err(ServiceError::NotFound),
        }
    }
}

/// Edits the user that was found, for an administrator. `new_hash` is the hash of a
/// new password, if one was supplied.
pub fn decide_edit(
    claims: &Claims,
    found: Option<User>,
    name: String,
    surname: String,
    email: String,
    new_hash: Option<String>,
    penalty_points: u8,
    is_admin: bool,
) -> (r: Result<User, ServiceError>)
    ensures
        r == edit_decision(
            *claims,
            found,
            name,
            surname,
            email,
            new_hash,
            penalty_points,
            is_admin,
        ),
{
    match require_admin(claims) {
        Err(e) => {
            return Err(e);
        },
        Ok(_) => {},
    }
    let user = match found {
        Some(user) => user,
        None => {
            return Err(ServiceError::NotFound);
        },
    };
    let password_hash = match new_hash {
        Some(hash) => hash,
        None => user.password_hash,
    };
    Ok(
        User {
            id: user.id,
            name,
            surname,
            email,
            password_hash,
            penalty_points,
            is_admin,
            confirmation_token: user.confirmation_token,
        },
    )
}

/// The optional text of a form field: an empty field stands for no text.
pub fn optional_text(text: String) -> (r: Option<String>)
    ensures
        r == (if text@.len() == 0 {
            None::<String>
        } else {
            Some(text)
        }),
{
    if text.as_str().is_empty() {
        None
    } else {
        Some(text)
    }
}

/// The board game that a catalogue form describes.
pub open spec fn game_of_form(
    id: i32,
    title: String,
    weight: u16,
    file_name: String,
    min_players: u8,
    max_players: u8,
    min_playtime: u16,
    max_playtime: u16,
    additional_info: String,
) -> BoardGame {
    BoardGame {
        id,
        title,
        weight,
        photo_filename: file_name,
        min_players,
        max_players,
        min_playtime,
        max_playtime,
        additional_info: if additional_info@.len() == 0 {
            None
        } else {
            Some(additional_info)
        },
    }
}

/// The outcome of reading a catalogue form: the checks come in the order of the
/// privilege, the file name of the photo, and the constraints of the catalogue.
pub open spec fn form_decision(
    claims: Claims,
    id: i32,
    title: String,
    weight: u16,
    file_name: Option<String>,
    min_players: u8,
    max_players: u8,
    min_playtime: u16,
    max_playtime: u16,
    additional_info: String,
) -> Result<BoardGame, ServiceError> {
    if !claims.is_admin {
        Err(ServiceError::Forbidden)
    } else if file_name is None {
        Err(ServiceError::MissingFileName)
    } else {
        match first_violation(min_players, max_players, min_playtime, max_playtime, weight) {
            Some(v) => Err(ServiceError::Invalid(v)),
            None => Ok(
                game_of_form(
                    id,
                    title,
                    weight,
                    file_name->0,
                    min_players,
                    max_players,
                    min_playtime,
                    max_playtime,
                    additional_info,
                ),
            ),
        }
    }
}

/// Reads a catalogue form into a board game that is fit to be stored, for an
/// administrator.
pub fn decide_board_game(
    claims: &Claims,
    id: i32,
    title: String,
    weight: u16,
    file_name: Option<String>,
    min_players: u8,
    max_players: u8,
    min_playtime: u16,
    max_playtime: u16,
    additional_info: String,
) -> (r: Result<BoardGame, ServiceError>)
    ensures
        r == form_decision(
            *claims,
            id,
            title,
            weight,
            file_name,
            min_players,
            max_players,
            min_playtime,
            max_playtime,
            additional_info,
        ),
        r matches Ok(game) ==> game.valid(),
{
    match require_admin(claims) {
        Err(e) => {
            return Err(e);
        },
        Ok(_) => {},
    }
    let photo_filename = match file_name {
        Some(name) => name,
        None => {
            return Err(ServiceError::MissingFileName);
        },
    };
    let game = BoardGame {
        id,
        title,
        weight,
        photo_filename,
        min_players,
        max_players,
        min_playtime,
        max_playtime,
        additional_info: optional_text(additional_info),
    };
    match game.validate() {
        Ok(_) => Ok(game),
        Err(v) => Err(ServiceError::Invalid(v)),
    }
}

/// The rental that is stored when a rental is created (`stored` is `None`) or
/// updated: an update keeps the id and the pickup, and drops a pending request.
pub open spec fn rental_to_store(
    stored: Option<Rental>,
    game_id: i32,
    user_id: i32,
    rental_date: Date,
    return_date: Date,
) -> Rental {
    Rental {
        id: match stored {
            Some(r) => r.id,
            None => 0,
        },
        game_id,
        user_id,
        rental_date,
        return_date,
        picked_up: match stored {
            Some(r) => r.picked_up,
            None => false,
        },
        extension_date: None,
    }
}

/// The outcome of a request to reserve a game (with the id 0) or to update the
/// rental `id`, for the holder of `claims`: the rental to store, of which the
/// caller is the renter, also after an update by an administrator. The checks
/// come in the order of the dates, the presence of the rental to update, and its
/// ownership.
pub open spec fn rental_decision(
    claims: Claims,
    id: i32,
    found: Option<Rental>,
    game_id: i32,
    rental_date: Result<Date, DateError>,
    return_date: Result<Date, DateError>,
) -> Result<Rental, ServiceError> {
    match (rental_date, return_date) {
        (Ok(from), Ok(until)) => if id == 0 {
            Ok(rental_to_store(None, game_id, claims.sub, from, until))
        } else {
            match found {
                None => Err(ServiceError::NotFound),
                Some(stored) => if !self_or_admin(claims, stored.user_id) {
                    Err(ServiceError::Forbidden)
                } else {
                    Ok(rental_to_store(Some(stored), game_id, claims.sub, from, until))
                },
            }
        },
        _ => Err(ServiceError::InvalidDateFormat),
    }
}

/// Decides on a request to reserve a game or to update a rental, given the dates
/// as they were read and, for an update, the rental found under the id.
pub fn decide_rental(
    claims: &Claims,
    id: i32,
    found: Option<Rental>,
    game_id: i32,
    rental_date: Result<Date, DateError>,
    return_date: Result<Date, DateError>,
) -> (r: Result<Rental, ServiceError>)
    ensures
        r == rental_decision(*claims, id, found, game_id, rental_date, return_date),
{
    let from = match rental_date {
        Ok(date) => date,
        Err(_) => {
            return Err(ServiceError::InvalidDateFormat);
        },
    };
    let until = match return_date {
        Ok(date) => date,
        Err(_) => {
            return Err(ServiceError::InvalidDateFormat);
        },
    };
    if id == 0 {
        return Ok(Rental::new(0, game_id, claims.sub, from, until));
    }
    let stored = match found {
        Some(stored) => stored,
        None => {
            return Err(ServiceError::NotFound);
        },
    };
    match require_self_or_admin(claims, stored.user_id) {
        Err(e) => {
            return Err(e);
        },
        Ok(_) => {},
    }
    Ok(
        Rental {
            id: stored.id,
            game_id,
            user_id: claims.sub,
            rental_date: from,
            return_date: until,
            picked_up: stored.picked_up,
            extension_date: None,
        },
    )
}

/// The outcome of a request to archive the rental that was found: the record
/// that goes into the history.
pub open spec fn archive_decision(claims: Claims, found: Option<Rental>) -> Result<
    RentalHistory,
    ServiceError,
> {
    match found {
        None => Err(ServiceError::NotFound),
        Some(rental) => if !can_archive(claims, rental) {
            Err(ServiceError::Forbidden)
        } else {
            Ok(history_of(rental))
        },
    }
}

/// Decides on a request to archive the rental that was found. A user may archive
/// their own rental before pickup, an administrator any rental.
pub fn decide_archive(claims: &Claims, found: Option<Rental>) -> (r: Result<
    RentalHistory,
    ServiceError,
>)
    ensures
        r == archive_decision(*claims, found),
{
    let rental = match found {
        Some(rental) => rental,
        None => {
            return Err(ServiceError::NotFound);
        },
    };
    match authorize_archive(claims, &rental) {
        Err(_) => Err(ServiceError::Forbidden),
        Ok(_) => Ok(rental.archive()),
    }
}

/// The outcome of a request to extend the rental that was found to the date that
/// was read: the rental with the request. The checks come in the order of the
/// presence of the rental, the ownership, and the date.
pub open spec fn extension_decision(
    claims: Claims,
    found: Option<Rental>,
    new_date: Result<Date, DateError>,
) -> Result<Rental, ServiceError> {
    match found {
        None => Err(ServiceError::NotFound),
        Some(rental) => if !can_change_extension(claims, rental) {
            Err(ServiceError::Forbidden)
        } else {
            match new_date {
                Err(_) => Err(ServiceError::InvalidDateFormat),
                Ok(date) => Ok(requested(rental, date)),
            }
        },
    }
}

/// Decides on a request of the renter or an administrator to extend the rental
/// that was found.
pub fn decide_extension(
    claims: &Claims,
    found: Option<Rental>,
    new_date: Result<Date, DateError>,
) -> (r: Result<Rental, ServiceError>)
    ensures
        r == extension_decision(*claims, found, new_date),
{
    let rental = match found {
        Some(rental) => rental,
        None => {
            return Err(ServiceError::NotFound);
        },
    };
    match authorize_extension(claims, &rental) {
        Err(_) => {
            return Err(ServiceError::Forbidden);
        },
        Ok(_) => {},
    }
    match new_date {
        Ok(date) => Ok(rental.request_extension(date)),
        Err(_) => Err(ServiceError::InvalidDateFormat),
    }
}

/// The outcome of accepting the pending extension of the rental that was found:
/// the rental with the requested date as its return date.
pub open spec fn acceptance_decision(claims: Claims, found: Option<Rental>) -> Result<
    Rental,
    ServiceError,
> {
    if !claims.is_admin {
        Err(ServiceError::Forbidden)
    } else {
        match found {
            None => Err(ServiceError::NotFound),
            Some(rental) => match accepted(rental) {
                Ok(changed) => Ok(changed),
                Err(_) => Err(ServiceError::NoExtensionPending),
            },
        }
    }
}

/// Decides on the acceptance of the pending extension of the rental that was
/// found, for an administrator.
pub fn decide_acceptance(claims: &Claims, found: Option<Rental>) -> (r: Result<
    Rental,
    ServiceError,
>)
    ensures
        r == acceptance_decision(*claims, found),
{
    match require_admin(claims) {
        Err(e) => {
            return Err(e);
        },
        Ok(_) => {},
    }
    let rental = match found {
        Some(rental) => rental,
        None => {
            return Err(ServiceError::NotFound);
        },
    };
    match rental.accept_extension() {
        Ok(changed) => Ok(changed),
        Err(_) => Err(ServiceError::NoExtensionPending),
    }
}

/// The outcome of withdrawing or denying the extension request of the rental that
/// was found: the rental without a request.
pub open spec fn withdrawal_decision(claims: Claims, found: Option<Rental>) -> Result<
    Rental,
    ServiceError,
> {
    match found {
        None => Err(ServiceError::NotFound),
        Some(rental) => if !can_change_extension(claims, rental) {
            Err(ServiceError::Forbidden)
        } else {
            Ok(withdrawn(rental))
        },
    }
}

/// Decides on the withdrawal or denial of the extension request of the rental that
/// was found, for the renter or an administrator.
pub fn decide_withdrawal(claims: &Claims, found: Option<Rental>) -> (r: Result<
    Rental,
    ServiceError,
>)
    ensures
        r == withdrawal_decision(*claims, found),
{
    let rental = match found {
        Some(rental) => rental,
        None => {
            return Err(ServiceError::NotFound);
        },
    };
    match authorize_extension(claims, &rental) {
        Err(_) => Err(ServiceError::Forbidden),
        Ok(_) => Ok(rental.withdraw_extension()),
    }
}

/// The outcome of recording the pickup of the rental that was found.
pub open spec fn pickup_decision(claims: Claims, found: Option<Rental>) -> Result<
    Rental,
    ServiceError,
> {
    if !claims.is_admin {
        Err(ServiceError::Forbidden)
    } else {
        match found {
            None => Err(ServiceError::NotFound),
            Some(rental) => Ok(Rental { picked_up: true, ..rental }),
        }
    }
}

/// Decides on recording that the renter has collected the game of the rental that
/// was found, for an administrator.
pub fn decide_pickup(claims: &Claims, found: Option<Rental>) -> (r: Result<Rental, ServiceError>)
    ensures
        r == pickup_decision(*claims, found),
{
    match require_admin(claims) {
        Err(e) => {
            return Err(e);
        },
        Ok(_) => {},
    }
    match found {
        Some(rental) => Ok(rental.pick_up()),
        None => Err(ServiceError::NotFound),
    }
}

/// A decision changes neither the id, nor the game, nor the renter of a rental,
/// whatever it decides on the extension or the pickup.
pub proof fn lemma_decisions_keep_identity(
    claims: Claims,
    rental: Rental,
    new_date: Result<Date, DateError>,
)
    ensures
        extension_decision(claims, Some(rental), new_date) matches Ok(r) ==> r.id == rental.id
            && r.game_id == rental.game_id && r.user_id == rental.user_id && r.return_date
            == rental.return_date && r.picked_up == rental.picked_up,
        acceptance_decision(claims, Some(rental)) matches Ok(r) ==> r.id == rental.id && r.game_id
            == rental.game_id && r.user_id == rental.user_id && Some(r.return_date)
            == rental.extension_date && r.extension_date is None && r.picked_up
            == rental.picked_up,
        withdrawal_decision(claims, Some(rental)) matches Ok(r) ==> r.id == rental.id && r.game_id
            == rental.game_id && r.user_id == rental.user_id && r.return_date
            == rental.return_date && r.extension_date is None,
        pickup_decision(claims, Some(rental)) matches Ok(r) ==> r.id == rental.id && r.game_id
            == rental.game_id && r.user_id == rental.user_id && r.picked_up,
{
}

} // verus!
