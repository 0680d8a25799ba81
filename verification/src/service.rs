//! The operations of the rental service on the store: each one looks up the rows
//! it needs, decides as [`crate::decisions`] says, and writes the outcome back.
//!
//! Every operation takes the claims of a session that access control has verified;
//! the operations that need no session take none. An operation that fails leaves
//! the store as it was.

use crate::access::self_or_admin;
use crate::auth_manager::{
    password_check, signed_token, token_claims, AuthError, AuthErrorKind, AuthManager, Claims,
    SESSION_SECONDS,
};
use crate::board_game::BoardGame;
use crate::date::{calendar_reading, date_of_reading, Date, DateError, DATE_PATTERN};
use crate::db_manager::{
    email_of_another, favourite_key, game_key, history_key, rental_game, rental_key,
    rented_by_another, user_email, user_key, DatabaseManager, DbView,
};
use crate::decisions::{
    acceptance_decision, archive_decision, confirmation_decision, decide_acceptance,
    decide_archive, decide_board_game, decide_confirmation, decide_edit, decide_extension,
    decide_login, decide_password, decide_penalty, decide_pickup, decide_rental, decide_view,
    decide_withdrawal, edit_decision, extension_decision, form_decision, hash_if_supplied,
    login_decision, new_account, open_account, password_decision, penalty_decision,
    pickup_decision, rental_decision, require_admin, require_self_or_admin, view_decision,
    withdrawal_decision,
};
use crate::error::{from_rental_store, from_store, rental_store_error, store_error, ServiceError};
use crate::listings::{
    GetBoardGamesQueryResult, GetRentalHistoryQueryResult, GetRentalsQueryResult,
    GetUserRentalHistoryAdminQueryResult, GetUserRentalHistoryQueryResult,
    GetUserRentalsAdminQueryResult, GetUserRentalsQueryResult,
};
use crate::rental::{Favourite, Rental};
use crate::table::{
    has_by, index_by, lemma_find_unique, lemma_push_distinct, lemma_push_has,
    lemma_remove_distinct, without_key, Linked,
};
use crate::user::User;
use vstd::prelude::*;

verus! {

/// The store with `user` in place of the stored user that has its id; meaningful
/// where that user is stored.
pub open spec fn with_user(db: DbView, user: User) -> DbView {
    DbView { users: db.users.update(index_by(db.users, user_key(), user.id), user), ..db }
}

/// The store with `rental` in place of the active rental that has its id;
/// meaningful where that rental is stored.
pub open spec fn with_rental(db: DbView, rental: Rental) -> DbView {
    DbView {
        rentals: db.rentals.update(index_by(db.rentals, rental_key(), rental.id), rental),
        ..db
    }
}

/// Whether an operation ended as expected: with success and the store as
/// `expected` holds it, or with the error that `expected` holds and the store as
/// it was.
pub open spec fn ends_as(
    r: Result<(), ServiceError>,
    before: DbView,
    after: DbView,
    expected: Result<DbView, ServiceError>,
) -> bool {
    match expected {
        Ok(view) => r is Ok && after == view,
        Err(e) => r == Err::<(), ServiceError>(e) && after == before,
    }
}

/// The user found under an id has that id, and holds an e-mail address that no
/// other stored user holds.
proof fn lemma_stored_user(db: DbView, id: i32)
    requires
        db.consistent(),
        db.user(id) is Some,
    ensures
        db.user(id)->0.id == id,
        has_by(db.users, user_key(), id),
        !email_of_another(db.users, id, db.user(id)->0.email@),
{
    let users = db.users;
    let k = index_by(users, user_key(), id);
    assert(has_by(users, user_key(), id));
    assert(user_key()(users[k]) == id);
    let user = users[k];
    if email_of_another(users, id, user.email@) {
        let j = choose|j: int|
            0 <= j < users.len() && (#[trigger] users[j]).id != id && users[j].email@
                == user.email@;
        if j < k {
            assert(user_email()(users[j]) != user_email()(users[k]));
        } else {
            assert(user_email()(users[k]) != user_email()(users[j]));
        }
    }
}

/// The rental found under an id has that id, which is not 0, and is the active
/// rental of its game.
proof fn lemma_stored_rental(db: DbView, id: i32)
    requires
        db.consistent(),
        db.rental(id) is Some,
    ensures
        db.rental(id)->0.id == id,
        id != 0,
        has_by(db.rentals, rental_key(), id),
        db.rentals[index_by(db.rentals, rental_key(), id)] == db.rental(id)->0,
        db.rental_of_game(db.rental(id)->0.game_id) == db.rental(id),
        has_by(db.users, user_key(), db.rental(id)->0.user_id),
        has_by(db.board_games, game_key(), db.rental(id)->0.game_id),
        !rented_by_another(db.rentals, id, db.rental(id)->0.game_id),
{
    let rentals = db.rentals;
    let k = index_by(rentals, rental_key(), id);
    assert(has_by(rentals, rental_key(), id));
    assert(rental_key()(rentals[k]) == id);
    lemma_find_unique(rentals, rental_game(), k);
    assert(has_by(db.users, user_key(), rentals[k].user()));
    if rented_by_another(rentals, id, rentals[k].game_id) {
        let j = choose|j: int|
            0 <= j < rentals.len() && (#[trigger] rentals[j]).id != id && rentals[j].game_id
                == rentals[k].game_id;
        if j < k {
            assert(rental_game()(rentals[j]) != rental_game()(rentals[k]));
        } else {
            assert(rental_game()(rentals[k]) != rental_game()(rentals[j]));
        }
    }
}

/// Stores a changed user in place of the stored one. The change leaves the id and
/// the e-mail address as they are, so the store takes it.
fn replace_user(db: &mut DatabaseManager, changed: User)
    requires
        old(db).wf(),
        old(db)@.user(changed.id) matches Some(stored) && stored.email@ == changed.email@,
    ensures
        final(db).wf(),
        final(db)@ == with_user(old(db)@, changed),
        final(db)@.user(changed.id) == Some(changed),
{
    proof {
        lemma_stored_user(db@, changed.id);
    }
    let ghost id = changed.id;
    let r = db.update_user(changed);
    proof {
        lemma_find_unique(db@.users, user_key(), index_by(old(db)@.users, user_key(), id));
    }
}

/// Stores a changed rental in place of the stored one. The change leaves the id,
/// the game and the renter as they are, so the store takes it.
fn replace_rental(db: &mut DatabaseManager, changed: Rental)
    requires
        old(db).wf(),
        old(db)@.rental(changed.id) matches Some(stored) && stored.game_id == changed.game_id
            && stored.user_id == changed.user_id,
    ensures
        final(db).wf(),
        final(db)@ == with_rental(old(db)@, changed),
        final(db)@.rental(changed.id) == Some(changed),
{
    proof {
        lemma_stored_rental(db@, changed.id);
        assert(db@.rental_refusal(changed) is None);
    }
    let r = db.save_rental(changed);
    proof {
        lemma_find_unique(
            db@.rentals,
            rental_key(),
            index_by(old(db)@.rentals, rental_key(), changed.id),
        );
    }
}

/// Turns the outcome of issuing a token into the outcome of the login.
fn issued(token: Result<String, AuthError>) -> (r: Result<String, ServiceError>)
    ensures
        r == (match token {
            Ok(t) => Ok::<String, ServiceError>(t),
            Err(e) => Err(ServiceError::Credential(e.kind)),
        }),
{
    match token {
        Ok(t) => Ok(t),
        Err(e) => Err(ServiceError::Credential(e.kind)),
    }
}

/// Logs a user in at the time `now`: after the checks of the login, issues a
/// session token.
pub fn login_at(
    db: &DatabaseManager,
    auth: &AuthManager,
    id: i32,
    password: String,
    now: u64,
) -> (r: Result<String, ServiceError>)
    requires
        db.wf(),
    ensures
        match login_decision(db@.user(id), password@) {
            Err(e) => r == Err::<String, ServiceError>(e),
            Ok(user) => if now + SESSION_SECONDS > u64::MAX {
                r == Err::<String, ServiceError>(
                    ServiceError::Credential(AuthErrorKind::ClockOutOfRange),
                )
            } else {
                match signed_token(
                    auth.secret(),
                    user.id,
                    user.is_admin,
                    now,
                    (now + SESSION_SECONDS) as u64,
                ) {
                    Some(token) => (r matches Ok(t) && t@ == token && token_claims(
                        auth.secret(),
                        token,
                    ) == Some(Claims::session(user.id, user.is_admin, now))),
                    None => r == Err::<String, ServiceError>(
                        ServiceError::Credential(AuthErrorKind::SigningFailed),
                    ),
                }
            },
        },
{
    let user = match decide_login(auth, db.get_user(id), password) {
        Ok(user) => user,
        Err(e) => {
            return Err(e);
        },
    };
    issued(auth.generate_jwt_at(user.id, user.is_admin, now))
}

/// Logs a user in: after the checks of the login, issues a session token that
/// starts now.
///
/// Whatever the clock says: a login that the checks refuse fails as they say, and a
/// token that comes back carries the id and the admin flag of the user.
pub fn login(db: &DatabaseManager, auth: &AuthManager, id: i32, password: String) -> (r: Result<
    String,
    ServiceError,
>)
    requires
        db.wf(),
    ensures
        login_decision(db@.user(id), password@) matches Err(e) ==> r == Err::<
            String,
            ServiceError,
        >(e),
        r matches Ok(t) ==> (login_decision(db@.user(id), password@) matches Ok(user)
            && token_claims(auth.secret(), t@) matches Some(claims) && claims.sub == user.id
            && claims.is_admin == user.is_admin),
        r matches Err(e) ==> login_decision(db@.user(id), password@) == Err::<User, ServiceError>(
            e,
        ) || e == ServiceError::Credential(AuthErrorKind::SigningFailed),
{
    let user = match decide_login(auth, db.get_user(id), password) {
        Ok(user) => user,
        Err(e) => {
            return Err(e);
        },
    };
    issued(auth.generate_jwt(user.id, user.is_admin))
}

/// Whether the id or the e-mail address of a new account is taken.
pub open spec fn account_taken(db: DbView, id: i32, email: Seq<char>) -> bool {
    has_by(db.users, user_key(), id) || has_by(db.users, user_email(), email)
}

/// The outcome of storing a new account: a conflict where its id or its e-mail
/// address is taken, else the store with the account added.
pub open spec fn registration_outcome(db: DbView, account: User) -> Result<DbView, ServiceError> {
    if account_taken(db, account.id, account.email@) {
        Err(ServiceError::Conflict)
    } else {
        Ok(DbView { users: db.users.push(account), ..db })
    }
}

/// Registers a user whose password has been hashed to `password_hash`.
pub fn register_with_hash(
    db: &mut DatabaseManager,
    id: i32,
    name: String,
    surname: String,
    email: String,
    password_hash: String,
) -> (r: Result<(), ServiceError>)
    requires
        old(db).wf(),
    ensures
        final(db).wf(),
        ends_as(
            r,
            old(db)@,
            final(db)@,
            registration_outcome(old(db)@, new_account(id, name, surname, email, password_hash)),
        ),
{
    match db.insert_user(open_account(id, name, surname, email, password_hash)) {
        Ok(_) => Ok(()),
        Err(_) => Err(ServiceError::Conflict),
    }
}

/// Registers a user: hashes the password under a fresh salt and stores the account.
///
/// Whatever the salt: either the hashing fails and the store stays as it was, or
/// there is a hash that verifies against the password, and the registration ends
/// as the storing of the account with that hash ends.
pub fn register(
    db: &mut DatabaseManager,
    auth: &AuthManager,
    id: i32,
    name: String,
    surname: String,
    email: String,
    password: String,
) -> (r: Result<(), ServiceError>)
    requires
        old(db).wf(),
    ensures
        final(db).wf(),
        r is Err ==> final(db)@ == old(db)@,
        r is Ok ==> !account_taken(old(db)@, id, email@),
        r == Err::<(), ServiceError>(ServiceError::Conflict) ==> account_taken(
            old(db)@,
            id,
            email@,
        ),
        r == Err::<(), ServiceError>(ServiceError::Credential(AuthErrorKind::HashingFailed)) || (
        exists|hash: String|
            #![trigger new_account(id, name, surname, email, hash)]
            password_check(password@, hash@) == Some(true) && ends_as(
                r,
                old(db)@,
                final(db)@,
                registration_outcome(old(db)@, new_account(id, name, surname, email, hash)),
            )),
{
    let hash = match auth.hash_password(password) {
        Ok(hash) => hash,
        Err(e) => {
            return Err(ServiceError::Credential(e.kind));
        },
    };
    let ghost stored = hash;
    let r = register_with_hash(db, id, name, surname, email, hash);
    proof {
        assert(password_check(password@, stored@) == Some(true) && ends_as(
            r,
            old(db)@,
            final(db)@,
            registration_outcome(old(db)@, new_account(id, name, surname, email, stored)),
        ));
    }
    r
}

/// Confirms an account: the token must be the one that the account awaits.
pub fn confirm_user(db: &mut DatabaseManager, id: i32, token: u128) -> (r: Result<
    (),
    ServiceError,
>)
    requires
        old(db).wf(),
    ensures
        final(db).wf(),
        match confirmation_decision(old(db)@.user(id), token) {
            Ok(confirmed) => {
                &&& r is Ok
                &&& final(db)@ == with_user(old(db)@, confirmed)
                &&& final(db)@.user(id) == Some(confirmed)
            },
            Err(e) => r == Err::<(), ServiceError>(e) && final(db)@ == old(db)@,
        },
{
    let confirmed = match decide_confirmation(db.get_user(id), token) {
        Ok(user) => user,
        Err(e) => {
            return Err(e);
        },
    };
    proof {
        lemma_stored_user(db@, id);
    }
    replace_user(db, confirmed);
    Ok(())
}

/// The stored user with the given id, for that user or an administrator.
pub fn get_user(db: &DatabaseManager, claims: &Claims, id: i32) -> (r: Result<User, ServiceError>)
    requires
        db.wf(),
    ensures
        r == view_decision(*claims, id, db@.user(id)),
{
    decide_view(claims, id, db.get_user(id))
}

/// Whether the user with the given id is penalized, for that user or an
/// administrator. An id that no user has is answered with `false`, not with an
/// error.
pub fn is_penalized(db: &DatabaseManager, claims: &Claims, id: i32) -> (r: Result<
    bool,
    ServiceError,
>)
    requires
        db.wf(),
    ensures
        r == penalty_decision(*claims, id, db@.user(id)),
{
    let found = db.get_user(id);
    match &found {
        Some(user) => decide_penalty(claims, id, Some(user)),
        None => decide_penalty(claims, id, None),
    }
}

/// The outcome of storing `password_hash` as the hash of the user `id`: the store
/// with the hash of that user replaced.
pub open spec fn password_outcome(
    db: DbView,
    claims: Claims,
    id: i32,
    password_hash: String,
) -> Result<DbView, ServiceError> {
    match password_decision(claims, id, db.user(id), password_hash) {
        Ok(changed) => Ok(with_user(db, changed)),
        Err(e) => Err(e),
    }
}

/// Stores `password_hash` as the hash of the user `id`, for that user or an
/// administrator.
pub fn set_password_hash(
    db: &mut DatabaseManager,
    claims: &Claims,
    id: i32,
    password_hash: String,
) -> (r: Result<(), ServiceError>)
    requires
        old(db).wf(),
    ensures
        final(db).wf(),
        ends_as(r, old(db)@, final(db)@, password_outcome(old(db)@, *claims, id, password_hash)),
        r is Ok ==> final(db)@.user(id) == Some(
            User { password_hash, ..old(db)@.user(id)->0 },
        ),
{
    let changed = match decide_password(claims, id, db.get_user(id), password_hash) {
        Ok(user) => user,
        Err(e) => {
            return Err(e);
        },
    };
    proof {
        lemma_stored_user(db@, id);
    }
    replace_user(db, changed);
    Ok(())
}

/// Changes the password of the user `id`, for that user or an administrator.
///
/// A caller who is neither is refused before anything is hashed. For the others,
/// whatever the salt: either the hashing fails and the store stays as it was, or
/// there is a hash that verifies against the new password, and the change ends as
/// the storing of that hash ends.
pub fn change_password(
    db: &mut DatabaseManager,
    auth: &AuthManager,
    claims: &Claims,
    id: i32,
    password: String,
) -> (r: Result<(), ServiceError>)
    requires
        old(db).wf(),
    ensures
        final(db).wf(),
        r is Err ==> final(db)@ == old(db)@,
        r == Err::<(), ServiceError>(ServiceError::Forbidden) <==> !self_or_admin(*claims, id),
        r == Err::<(), ServiceError>(ServiceError::NotFound) ==> old(db)@.user(id) is None,
        r is Ok ==> old(db)@.user(id) is Some,
        self_or_admin(*claims, id) ==> r == Err::<(), ServiceError>(
            ServiceError::Credential(AuthErrorKind::HashingFailed),
        ) || (exists|hash: String|
            #![trigger password_outcome(old(db)@, *claims, id, hash)]
            password_check(password@, hash@) == Some(true) && ends_as(
                r,
                old(db)@,
                final(db)@,
                password_outcome(old(db)@, *claims, id, hash),
            )),
{
    match require_self_or_admin(claims, id) {
        Err(e) => {
            return Err(e);
        },
        Ok(_) => {},
    }
    let hash = match auth.hash_password(password) {
        Ok(hash) => hash,
        Err(e) => {
            return Err(ServiceError::Credential(e.kind));
        },
    };
    let ghost stored = hash;
    let r = set_password_hash(db, claims, id, hash);
    proof {
        assert(password_check(password@, stored@) == Some(true) && ends_as(
            r,
            old(db)@,
            final(db)@,
            password_outcome(old(db)@, *claims, id, stored),
        ));
    }
    r
}

/// The outcome of an administrator's edit of the user `id`: a conflict where
/// another user holds the e-mail address, else the store with the user edited.
pub open spec fn edit_outcome(
    db: DbView,
    claims: Claims,
    id: i32,
    name: String,
    surname: String,
    email: String,
    new_hash: Option<String>,
    penalty_points: u8,
    is_admin: bool,
) -> Result<DbView, ServiceError> {
    match edit_decision(
        claims,
        db.user(id),
        name,
        surname,
        email,
        new_hash,
        penalty_points,
        is_admin,
    ) {
        Ok(changed) => if email_of_another(db.users, id, email@) {
            Err(ServiceError::Conflict)
        } else {
            Ok(with_user(db, changed))
        },
        Err(e) => Err(e),
    }
}

/// Edits the user `id`, for an administrator. `new_hash` is the hash of a new
/// password, if one was supplied. Fails as a conflict where another user holds
/// the e-mail address.
pub fn update_user_with_hash(
    db: &mut DatabaseManager,
    claims: &Claims,
    id: i32,
    name: String,
    surname: String,
    email: String,
    new_hash: Option<String>,
    penalty_points: u8,
    is_admin: bool,
) -> (r: Result<(), ServiceError>)
    requires
        old(db).wf(),
    ensures
        final(db).wf(),
        ends_as(
            r,
            old(db)@,
            final(db)@,
            edit_outcome(
                old(db)@,
                *claims,
                id,
                name,
                surname,
                email,
                new_hash,
                penalty_points,
                is_admin,
            ),
        ),
{
    let changed = match decide_edit(
        claims,
        db.get_user(id),
        name,
        surname,
        email,
        new_hash,
        penalty_points,
        is_admin,
    ) {
        Ok(user) => user,
        Err(e) => {
            return Err(e);
        },
    };
    proof {
        lemma_stored_user(db@, id);
    }
    match db.update_user(changed) {
        Ok(_) => Ok(()),
        Err(_) => Err(ServiceError::Conflict),
    }
}

/// Edits the user `id`, for an administrator. The password is hashed and stored
/// only where a new one is supplied: an empty `password` leaves the stored hash.
///
/// A caller who is no administrator is refused before anything is hashed. With an
/// empty password the edit ends as the edit without a new hash ends. With a new
/// password, whatever the salt: either the hashing fails and the store stays as
/// it was, or there is a hash that verifies against the password, and the edit
/// ends as the edit with that hash ends.
pub fn update_user(
    db: &mut DatabaseManager,
    auth: &AuthManager,
    claims: &Claims,
    id: i32,
    name: String,
    surname: String,
    email: String,
    password: String,
    penalty_points: u8,
    is_admin: bool,
) -> (r: Result<(), ServiceError>)
    requires
        old(db).wf(),
    ensures
        final(db).wf(),
        r is Err ==> final(db)@ == old(db)@,
        r == Err::<(), ServiceError>(ServiceError::Forbidden) <==> !claims.is_admin,
        password@.len() == 0 ==> ends_as(
            r,
            old(db)@,
            final(db)@,
            edit_outcome(
                old(db)@,
                *claims,
                id,
                name,
                surname,
                email,
                None,
                penalty_points,
                is_admin,
            ),
        ),
        claims.is_admin && password@.len() != 0 ==> r == Err::<(), ServiceError>(
            ServiceError::Credential(AuthErrorKind::HashingFailed),
        ) || (exists|hash: String|
            #![trigger edit_outcome(
                old(db)@,
                *claims,
                id,
                name,
                surname,
                email,
                Some(hash),
                penalty_points,
                is_admin,
            )]
            password_check(password@, hash@) == Some(true) && ends_as(
                r,
                old(db)@,
                final(db)@,
                edit_outcome(
                    old(db)@,
                    *claims,
                    id,
                    name,
                    surname,
                    email,
                    Some(hash),
                    penalty_points,
                    is_admin,
                ),
            )),
        r == Err::<(), ServiceError>(ServiceError::NotFound) ==> old(db)@.user(id) is None,
        r == Err::<(), ServiceError>(ServiceError::Conflict) ==> email_of_another(
            old(db)@.users,
            id,
            email@,
        ),
{
    match require_admin(claims) {
        Err(e) => {
            return Err(e);
        },
        Ok(_) => {},
    }
    let new_hash: Option<String> = match hash_if_supplied(auth, password) {
        Ok(new_hash) => new_hash,
        Err(e) => {
            return Err(e);
        },
    };
    let ghost chosen = new_hash;
    let r = update_user_with_hash(
        db,
        claims,
        id,
        name,
        surname,
        email,
        new_hash,
        penalty_points,
        is_admin,
    );
    proof {
        if password@.len() != 0 {
            let hash = chosen->0;
            assert(password_check(password@, hash@) == Some(true) && ends_as(
                r,
                old(db)@,
                final(db)@,
                edit_outcome(
                    old(db)@,
                    *claims,
                    id,
                    name,
                    surname,
                    email,
                    Some(hash),
                    penalty_points,
                    is_admin,
                ),
            ));
        }
    }
    r
}

/// All users by surname, for an administrator.
pub fn get_users(db: &DatabaseManager, claims: &Claims) -> (r: Result<Vec<User>, ServiceError>)
    requires
        db.wf(),
    ensures
        r is Ok <==> claims.is_admin,
        r matches Err(e) ==> e == ServiceError::Forbidden,
        r matches Ok(rows) ==> db@.lists_users(rows@),
{
    match require_admin(claims) {
        Err(e) => {
            return Err(e);
        },
        Ok(_) => {},
    }
    Ok(db.get_users())
}

/// Deletes the user `id` and all that refers to it, for an administrator.
pub fn delete_user(db: &mut DatabaseManager, claims: &Claims, id: i32) -> (r: Result<
    (),
    ServiceError,
>)
    requires
        old(db).wf(),
    ensures
        final(db).wf(),
        r == (if claims.is_admin {
            Ok::<(), ServiceError>(())
        } else {
            Err(ServiceError::Forbidden)
        }),
        r is Ok ==> final(db)@ == old(db)@.without_user(id),
        r is Err ==> final(db)@ == old(db)@,
{
    match require_admin(claims) {
        Err(e) => {
            return Err(e);
        },
        Ok(_) => {},
    }
    db.delete_user(id);
    Ok(())
}

/// Saves a board game from a catalogue form, for an administrator: with the id 0
/// as a new game, with another id in place of the stored game with that id.
/// Returns the id under which the game is stored.
///
/// A game that breaks a constraint of the catalogue is refused, and every other
/// game is accepted, also one whose bounds are equal: beyond the constraints a
/// save fails only where the game to replace is not stored, or where the store has
/// no id left for a new game.
pub fn save_board_game(
    db: &mut DatabaseManager,
    claims: &Claims,
    id: i32,
    title: String,
    weight: u16,
    file_name: Option<String>,
    min_players: u8,
    max_players: u8,
    min_playtime: u16,
    max_playtime: u16,
    additional_info: String,
) -> (r: Result<i32, ServiceError>)
    requires
        old(db).wf(),
    ensures
        final(db).wf(),
        r is Err ==> final(db)@ == old(db)@,
        match form_decision(
            *claims,
            id,
            title,
            weight,
            file_name,
            min_players,
            max_players,
            min_playtime,
            max_playtime,
            additional_info,
        ) {
            Err(e) => r == Err::<i32, ServiceError>(e),
            Ok(game) => if id == 0 {
                if old(db)@.game_ids_exhausted() {
                    r == Err::<i32, ServiceError>(ServiceError::Storage)
                } else {
                    &&& r == Ok::<i32, ServiceError>(old(db)@.next_game_id as i32)
                    &&& !has_by(old(db)@.board_games, game_key(), old(db)@.next_game_id as i32)
                    &&& final(db)@ == (DbView {
                        board_games: old(db)@.board_games.push(
                            BoardGame { id: old(db)@.next_game_id as i32, ..game },
                        ),
                        next_game_id: old(db)@.next_game_id + 1,
                        ..old(db)@
                    })
                }
            } else if !has_by(old(db)@.board_games, game_key(), id) {
                r == Err::<i32, ServiceError>(ServiceError::NotFound)
            } else {
                &&& r == Ok::<i32, ServiceError>(id)
                &&& final(db)@ == (DbView {
                    board_games: old(db)@.board_games.update(
                        index_by(old(db)@.board_games, game_key(), id),
                        game,
                    ),
                    ..old(db)@
                })
            },
        },
{
    let game = match decide_board_game(
        claims,
        id,
        title,
        weight,
        file_name,
        min_players,
        max_players,
        min_playtime,
        max_playtime,
        additional_info,
    ) {
        Ok(game) => game,
        Err(e) => {
            return Err(e);
        },
    };
    match db.save_board_game(game) {
        Ok(stored_id) => Ok(stored_id),
        Err(e) => Err(from_store(e)),
    }
}

/// The stored board game with the given id, for any user with a session.
pub fn get_board_game(db: &DatabaseManager, claims: &Claims, id: i32) -> (r: Result<
    BoardGame,
    ServiceError,
>)
    requires
        db.wf(),
    ensures
        r == (match db@.board_game(id) {
            Some(game) => Ok::<BoardGame, ServiceError>(game),
            None => Err(ServiceError::NotFound),
        }),
{
    match db.get_board_game(id) {
        Some(game) => Ok(game),
        None => Err(ServiceError::NotFound),
    }
}

/// Deletes the board game `id` and all that refers to it, for an administrator.
pub fn delete_board_game(db: &mut DatabaseManager, claims: &Claims, id: i32) -> (r: Result<
    (),
    ServiceError,
>)
    requires
        old(db).wf(),
    ensures
        final(db).wf(),
        r == (if claims.is_admin {
            Ok::<(), ServiceError>(())
        } else {
            Err(ServiceError::Forbidden)
        }),
        r is Ok ==> final(db)@ == old(db)@.without_game(id),
        r is Err ==> final(db)@ == old(db)@,
{
    match require_admin(claims) {
        Err(e) => {
            return Err(e);
        },
        Ok(_) => {},
    }
    db.delete_board_game(id);
    Ok(())
}

/// The id under which a rental is stored: given with the id 0, the next id of the
/// store; given with another id, that id.
pub open spec fn stored_id(db: DbView, id: i32) -> int {
    if id == 0 {
        db.next_rental_id
    } else {
        id as int
    }
}

/// Stores a rental that was decided on: with the id 0 as a new rental under a
/// fresh id, with another id in place of the stored rental with that id. Returns
/// the rental as it is stored.
///
/// Fails where the rental to replace, the game or the renter is not stored, and
/// where the game is held by another active rental.
pub fn store_rental(db: &mut DatabaseManager, rental: Rental) -> (r: Result<Rental, ServiceError>)
    requires
        old(db).wf(),
    ensures
        final(db).wf(),
        r is Err ==> final(db)@ == old(db)@,
        match old(db)@.rental_refusal(rental) {
            Some(e) => r == Err::<Rental, ServiceError>(rental_store_error(e)),
            None => if rental.id == 0 && old(db)@.rental_ids_exhausted() {
                r == Err::<Rental, ServiceError>(ServiceError::Storage)
            } else {
                &&& r matches Ok(stored)
                &&& stored.id == stored_id(old(db)@, rental.id)
                &&& stored == (Rental { id: stored.id, ..rental })
                &&& rental.id == 0 ==> old(db)@.rental(stored.id) is None
                &&& final(db)@.rental(stored.id) == Some(stored)
                &&& final(db)@ == (if rental.id == 0 {
                    DbView {
                        rentals: old(db)@.rentals.push(stored),
                        next_rental_id: old(db)@.next_rental_id + 1,
                        ..old(db)@
                    }
                } else {
                    with_rental(old(db)@, stored)
                })
            },
        },
{
    match db.save_rental(rental) {
        Ok(id) => {
            let stored = Rental { id, ..rental };
            proof {
                let before = old(db)@.rentals;
                if rental.id == 0 {
                    lemma_push_distinct(before, rental_key(), stored);
                    lemma_find_unique(before.push(stored), rental_key(), before.len() as int);
                } else {
                    lemma_find_unique(
                        db@.rentals,
                        rental_key(),
                        index_by(before, rental_key(), id),
                    );
                }
            }
            Ok(stored)
        },
        Err(e) => Err(from_rental_store(e)),
    }
}

/// Reserves a game for the caller (with the id 0), or updates one of the caller's
/// rentals: an update keeps the pickup and drops a pending request. The dates are
/// read from text. Returns the rental as it is stored.
///
/// The checks come in this order: the dates, the presence and the ownership of
/// the rental to update, the presence of the game and the renter, the game being
/// free.
pub fn save_rental(
    db: &mut DatabaseManager,
    claims: &Claims,
    id: i32,
    game_id: i32,
    rental_date: &str,
    return_date: &str,
) -> (r: Result<Rental, ServiceError>)
    requires
        old(db).wf(),
    ensures
        final(db).wf(),
        r is Err ==> final(db)@ == old(db)@,
        match rental_decision(
            *claims,
            id,
            old(db)@.rental(id),
            game_id,
            date_of_reading(calendar_reading(rental_date@, DATE_PATTERN@)),
            date_of_reading(calendar_reading(return_date@, DATE_PATTERN@)),
        ) {
            Err(e) => r == Err::<Rental, ServiceError>(e),
            Ok(decided) => match old(db)@.rental_refusal(decided) {
                Some(e) => r == Err::<Rental, ServiceError>(rental_store_error(e)),
                None => if id == 0 && old(db)@.rental_ids_exhausted() {
                    r == Err::<Rental, ServiceError>(ServiceError::Storage)
                } else {
                    &&& r matches Ok(stored)
                    &&& stored.id == stored_id(old(db)@, id)
                    &&& stored == (Rental { id: stored.id, ..decided })
                    &&& id == 0 ==> old(db)@.rental(stored.id) is None
                    &&& final(db)@.rental(stored.id) == Some(stored)
                    &&& final(db)@ == (if id == 0 {
                        DbView {
                            rentals: old(db)@.rentals.push(stored),
                            next_rental_id: old(db)@.next_rental_id + 1,
                            ..old(db)@
                        }
                    } else {
                        with_rental(old(db)@, stored)
                    })
                },
            },
        },
{
    let from = Date::parse(rental_date);
    let until = Date::parse(return_date);
    let found = db.get_rental(id);
    proof {
        if found is Some {
            lemma_stored_rental(db@, id);
        }
    }
    let decided = match decide_rental(claims, id, found, game_id, from, until) {
        Ok(rental) => rental,
        Err(e) => {
            return Err(e);
        },
    };
    store_rental(db, decided)
}

/// Archives the rental `id`: moves it from the active rentals into the history.
///
/// A user may archive their own rental before pickup, an administrator any
/// rental. The move is all or nothing: after a success the id is no longer among
/// the active rentals and the history holds the record of the rental; after a
/// failure, also one of the step that adds the record, the store is as it was.
pub fn archive_rental(db: &mut DatabaseManager, claims: &Claims, id: i32) -> (r: Result<
    (),
    ServiceError,
>)
    requires
        old(db).wf(),
    ensures
        final(db).wf(),
        r is Err ==> final(db)@ == old(db)@,
        match archive_decision(*claims, old(db)@.rental(id)) {
            Err(e) => r == Err::<(), ServiceError>(e),
            Ok(record) => if has_by(old(db)@.rental_history, history_key(), id) {
                r == Err::<(), ServiceError>(ServiceError::Conflict)
            } else {
                &&& r is Ok
                &&& final(db)@ == old(db)@.archived(old(db)@.rental(id)->0)
                &&& final(db)@.rental(id) is None
                &&& final(db)@.history(id) == Some(record)
            },
        },
{
    let found = db.get_rental(id);
    let record = match decide_archive(claims, found) {
        Ok(record) => record,
        Err(e) => {
            return Err(e);
        },
    };
    proof {
        lemma_stored_rental(db@, id);
    }
    match db.archive_rental(id) {
        Ok(_) => Ok(()),
        Err(e) => Err(from_store(e)),
    }
}

/// Requests an extension of the rental `id` to the date that was read from the
/// request, for the renter or an administrator. Returns the rental as it is stored.
pub fn request_extension(
    db: &mut DatabaseManager,
    claims: &Claims,
    id: i32,
    new_date: Result<Date, DateError>,
) -> (r: Result<Rental, ServiceError>)
    requires
        old(db).wf(),
    ensures
        final(db).wf(),
        r == extension_decision(*claims, old(db)@.rental(id), new_date),
        r matches Ok(rental) ==> final(db)@ == with_rental(old(db)@, rental),
        r matches Ok(rental) ==> final(db)@.rental(id) == Some(rental),
        r is Err ==> final(db)@ == old(db)@,
{
    let changed = match decide_extension(claims, db.get_rental(id), new_date) {
        Ok(rental) => rental,
        Err(e) => {
            return Err(e);
        },
    };
    proof {
        lemma_stored_rental(db@, id);
    }
    replace_rental(db, changed);
    Ok(changed)
}

/// Requests an extension of the rental `id` to the date written in
/// `extension_date`, for the renter or an administrator. Returns the rental as it
/// is stored.
pub fn save_extension_request(
    db: &mut DatabaseManager,
    claims: &Claims,
    id: i32,
    extension_date: &str,
) -> (r: Result<Rental, ServiceError>)
    requires
        old(db).wf(),
    ensures
        final(db).wf(),
        r == extension_decision(
            *claims,
            old(db)@.rental(id),
            date_of_reading(calendar_reading(extension_date@, DATE_PATTERN@)),
        ),
        r matches Ok(rental) ==> final(db)@ == with_rental(old(db)@, rental),
        r matches Ok(rental) ==> final(db)@.rental(id) == Some(rental),
        r is Err ==> final(db)@ == old(db)@,
{
    request_extension(db, claims, id, Date::parse(extension_date))
}

/// Accepts the pending extension of the rental `id`, for an administrator: the
/// requested date becomes the return date and no request is pending. Returns the
/// rental as it is stored.
pub fn accept_extension_request(db: &mut DatabaseManager, claims: &Claims, id: i32) -> (r: Result<
    Rental,
    ServiceError,
>)
    requires
        old(db).wf(),
    ensures
        final(db).wf(),
        r == acceptance_decision(*claims, old(db)@.rental(id)),
        r matches Ok(rental) ==> final(db)@ == with_rental(old(db)@, rental),
        r matches Ok(rental) ==> final(db)@.rental(id) == Some(rental),
        r is Err ==> final(db)@ == old(db)@,
{
    let changed = match decide_acceptance(claims, db.get_rental(id)) {
        Ok(rental) => rental,
        Err(e) => {
            return Err(e);
        },
    };
    proof {
        lemma_stored_rental(db@, id);
    }
    replace_rental(db, changed);
    Ok(changed)
}

/// Withdraws or denies the extension request of the rental `id`, for the renter or
/// an administrator: no request is pending afterwards, and the return date stays.
/// Returns the rental as it is stored.
pub fn delete_extension_request(db: &mut DatabaseManager, claims: &Claims, id: i32) -> (r: Result<
    Rental,
    ServiceError,
>)
    requires
        old(db).wf(),
    ensures
        final(db).wf(),
        r == withdrawal_decision(*claims, old(db)@.rental(id)),
        r matches Ok(rental) ==> final(db)@ == with_rental(old(db)@, rental),
        r matches Ok(rental) ==> final(db)@.rental(id) == Some(rental),
        r is Err ==> final(db)@ == old(db)@,
{
    let changed = match decide_withdrawal(claims, db.get_rental(id)) {
        Ok(rental) => rental,
        Err(e) => {
            return Err(e);
        },
    };
    proof {
        lemma_stored_rental(db@, id);
    }
    replace_rental(db, changed);
    Ok(changed)
}

/// Records that the renter has collected the game of the rental `id`, for an
/// administrator. Returns the rental as it is stored.
pub fn pick_up_rental(db: &mut DatabaseManager, claims: &Claims, id: i32) -> (r: Result<
    Rental,
    ServiceError,
>)
    requires
        old(db).wf(),
    ensures
        final(db).wf(),
        r == pickup_decision(*claims, old(db)@.rental(id)),
        r matches Ok(rental) ==> final(db)@ == with_rental(old(db)@, rental),
        r matches Ok(rental) ==> final(db)@.rental(id) == Some(rental),
        r is Err ==> final(db)@ == old(db)@,
{
    let changed = match decide_pickup(claims, db.get_rental(id)) {
        Ok(rental) => rental,
        Err(e) => {
            return Err(e);
        },
    };
    proof {
        lemma_stored_rental(db@, id);
    }
    replace_rental(db, changed);
    Ok(changed)
}

/// The catalogue as the caller sees it: all games by title, each with the return
/// date of its active rental and with the caller's mark.
pub fn get_board_games(db: &DatabaseManager, claims: &Claims) -> (rows: Vec<
    GetBoardGamesQueryResult,
>)
    requires
        db.wf(),
    ensures
        db@.lists_board_games(rows@, claims.sub),
{
    db.get_board_games(claims.sub)
}

/// The catalogue with the active rental of each game, for an administrator.
pub fn get_board_games_admin(db: &DatabaseManager, claims: &Claims) -> (r: Result<
    Vec<(BoardGame, Option<Rental>)>,
    ServiceError,
>)
    requires
        db.wf(),
    ensures
        r is Ok <==> claims.is_admin,
        r matches Err(e) ==> e == ServiceError::Forbidden,
        r matches Ok(rows) ==> db@.lists_board_games_admin(rows@),
{
    match require_admin(claims) {
        Err(e) => {
            return Err(e);
        },
        Ok(_) => {},
    }
    Ok(db.get_board_games_admin())
}

/// All active rentals by rental date, for an administrator.
pub fn get_rentals(db: &DatabaseManager, claims: &Claims) -> (r: Result<
    Vec<GetRentalsQueryResult>,
    ServiceError,
>)
    requires
        db.wf(),
    ensures
        r is Ok <==> claims.is_admin,
        r matches Err(e) ==> e == ServiceError::Forbidden,
        r matches Ok(rows) ==> db@.lists_rentals(rows@),
{
    match require_admin(claims) {
        Err(e) => {
            return Err(e);
        },
        Ok(_) => {},
    }
    Ok(db.get_rentals())
}

/// The active rentals of the caller by rental date.
pub fn get_my_rentals(db: &DatabaseManager, claims: &Claims) -> (rows: Vec<
    GetUserRentalsQueryResult,
>)
    requires
        db.wf(),
    ensures
        db@.lists_user_rentals(rows@, claims.sub),
{
    db.get_user_rentals(claims.sub)
}

/// The active rentals of a user by rental date, for an administrator.
pub fn get_user_rentals(db: &DatabaseManager, claims: &Claims, user_id: i32) -> (r: Result<
    Vec<GetUserRentalsAdminQueryResult>,
    ServiceError,
>)
    requires
        db.wf(),
    ensures
        r is Ok <==> claims.is_admin,
        r matches Err(e) ==> e == ServiceError::Forbidden,
        r matches Ok(rows) ==> db@.lists_user_rentals_admin(rows@, user_id),
{
    match require_admin(claims) {
        Err(e) => {
            return Err(e);
        },
        Ok(_) => {},
    }
    Ok(db.get_user_rentals_admin(user_id))
}

/// The whole history, latest return first, for an administrator.
pub fn get_rental_history(db: &DatabaseManager, claims: &Claims) -> (r: Result<
    Vec<GetRentalHistoryQueryResult>,
    ServiceError,
>)
    requires
        db.wf(),
    ensures
        r is Ok <==> claims.is_admin,
        r matches Err(e) ==> e == ServiceError::Forbidden,
        r matches Ok(rows) ==> db@.lists_history(rows@),
{
    match require_admin(claims) {
        Err(e) => {
            return Err(e);
        },
        Ok(_) => {},
    }
    Ok(db.get_rental_history())
}

/// The history of the caller, latest return first.
pub fn get_my_rental_history(db: &DatabaseManager, claims: &Claims) -> (rows: Vec<
    GetUserRentalHistoryQueryResult,
>)
    requires
        db.wf(),
    ensures
        db@.lists_user_history(rows@, claims.sub),
{
    db.get_user_rental_history(claims.sub)
}

/// The history of a user, latest return first, for an administrator.
pub fn get_user_rental_history(db: &DatabaseManager, claims: &Claims, user_id: i32) -> (r: Result<
    Vec<GetUserRentalHistoryAdminQueryResult>,
    ServiceError,
>)
    requires
        db.wf(),
    ensures
        r is Ok <==> claims.is_admin,
        r matches Err(e) ==> e == ServiceError::Forbidden,
        r matches Ok(rows) ==> db@.lists_user_history_admin(rows@, user_id),
{
    match require_admin(claims) {
        Err(e) => {
            return Err(e);
        },
        Ok(_) => {},
    }
    Ok(db.get_user_rental_history_admin(user_id))
}

/// Deletes the history record `id`, for an administrator.
pub fn delete_rental_history(db: &mut DatabaseManager, claims: &Claims, id: i32) -> (r: Result<
    (),
    ServiceError,
>)
    requires
        old(db).wf(),
    ensures
        final(db).wf(),
        r == (if claims.is_admin {
            Ok::<(), ServiceError>(())
        } else {
            Err(ServiceError::Forbidden)
        }),
        r is Ok ==> final(db)@ == (DbView {
            rental_history: without_key(old(db)@.rental_history, history_key(), id),
            ..old(db)@
        }),
        r is Err ==> final(db)@ == old(db)@,
{
    match require_admin(claims) {
        Err(e) => {
            return Err(e);
        },
        Ok(_) => {},
    }
    db.delete_rental_history(id);
    Ok(())
}

/// Marks the game `game_id` as a favourite of the caller. Fails where the game or
/// the caller is not stored, and where the mark is already there.
pub fn save_favourite(db: &mut DatabaseManager, claims: &Claims, game_id: i32) -> (r: Result<
    (),
    ServiceError,
>)
    requires
        old(db).wf(),
    ensures
        final(db).wf(),
        r == (match old(db)@.row_refusal(
            claims.sub,
            game_id,
            old(db)@.is_favourite(claims.sub, game_id),
        ) {
            Some(e) => Err::<(), ServiceError>(store_error(e)),
            None => Ok(()),
        }),
        r is Ok ==> final(db)@ == (DbView {
            favourites: old(db)@.favourites.push(Favourite { user_id: claims.sub, game_id }),
            ..old(db)@
        }),
        r is Ok ==> final(db)@.is_favourite(claims.sub, game_id),
        r is Err ==> final(db)@ == old(db)@,
{
    let r = db.save_favourite(Favourite { user_id: claims.sub, game_id });
    proof {
        if r is Ok {
            lemma_push_has(
                old(db)@.favourites,
                favourite_key(),
                Favourite { user_id: claims.sub, game_id },
            );
        }
    }
    match r {
        Ok(_) => Ok(()),
        Err(e) => Err(from_store(e)),
    }
}

/// Takes the caller's mark on the game `game_id` away, if there is one.
pub fn delete_favourite(db: &mut DatabaseManager, claims: &Claims, game_id: i32)
    requires
        old(db).wf(),
    ensures
        final(db).wf(),
        final(db)@ == (DbView {
            favourites: without_key(
                old(db)@.favourites,
                favourite_key(),
                (claims.sub, game_id),
            ),
            ..old(db)@
        }),
        !final(db)@.is_favourite(claims.sub, game_id),
{
    proof {
        let marks = db@.favourites;
        let key = (claims.sub, game_id);
        if has_by(marks, favourite_key(), key) {
            let k = index_by(marks, favourite_key(), key);
            lemma_remove_distinct(marks, favourite_key(), k);
        }
    }
    db.delete_favourite(claims.sub, game_id);
}

} // verus!
