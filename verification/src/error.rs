//! The failures of the service and the classes they fall into.

use crate::access::AccessError;
use crate::auth_manager::{AuthError, AuthErrorKind};
use crate::board_game::ValidationError;
use crate::db_manager::DbErr;
use vstd::prelude::*;
use vstd::string::*;

verus! {

/// The classes of failure that a caller can tell apart.
#[derive(Clone, Copy, Debug, PartialEq, Eq, Structural)]
pub enum ErrorCategory {
    /// No valid identity.
    Unauthorized,
    /// A valid identity without the privilege, or not the owner.
    Forbidden,
    /// The entity that the request names is not stored.
    NotFound,
    /// The payload breaks a rule.
    ValidationError,
    /// A uniqueness constraint stands against the request.
    Conflict,
    /// The store or the credential service failed.
    StorageError,
}

/// Why an operation of the service fails.
#[derive(Clone, Copy, Debug, PartialEq, Eq)]
pub enum ServiceError {
    /// The request carries no valid session.
    Unauthorized,
    /// Login: no user has the id.
    UserNotFound,
    /// Login: the account awaits confirmation.
    UserNotConfirmed,
    /// Login: the password does not match.
    InvalidPassword,
    /// Confirmation: the token is not the one the account awaits.
    InvalidConfirmationToken,
    /// The caller lacks the privilege or does not own the resource.
    Forbidden,
    /// The entity that the request names is not stored.
    NotFound,
    /// The board game breaks a constraint of the catalogue.
    Invalid(ValidationError),
    /// A date of the request cannot be read.
    InvalidDateFormat,
    /// The rental has no extension request to accept.
    NoExtensionPending,
    /// The upload has no file name.
    MissingFileName,
    /// The game has an active rental already.
    GameAlreadyRented,
    /// A key or an e-mail address is taken.
    Conflict,
    /// The store could not do its part.
    Storage,
    /// The credential service could not do its part.
    Credential(AuthErrorKind),
}

impl ServiceError {
    /// The class of this failure.
    pub open spec fn spec_category(self) -> ErrorCategory {
        match self {
            ServiceError::Unauthorized => ErrorCategory::Unauthorized,
            ServiceError::UserNotFound => ErrorCategory::Unauthorized,
            ServiceError::UserNotConfirmed => ErrorCategory::Unauthorized,
            ServiceError::InvalidPassword => ErrorCategory::Unauthorized,
            ServiceError::InvalidConfirmationToken => ErrorCategory::Unauthorized,
            ServiceError::Forbidden => ErrorCategory::Forbidden,
            ServiceError::NotFound => ErrorCategory::NotFound,
            ServiceError::Invalid(_) => ErrorCategory::ValidationError,
            ServiceError::InvalidDateFormat => ErrorCategory::ValidationError,
            ServiceError::NoExtensionPending => ErrorCategory::ValidationError,
            ServiceError::MissingFileName => ErrorCategory::ValidationError,
            ServiceError::GameAlreadyRented => ErrorCategory::Conflict,
            ServiceError::Conflict => ErrorCategory::Conflict,
            ServiceError::Storage => ErrorCategory::StorageError,
            ServiceError::Credential(_) => ErrorCategory::StorageError,
        }
    }

    /// The class of this failure.
    #[verifier::when_used_as_spec(spec_category)]
    pub fn category(self) -> (r: ErrorCategory)
        ensures
            r == self.spec_category(),
    {
        match self {
            ServiceError::Unauthorized => ErrorCategory::Unauthorized,
            ServiceError::UserNotFound => ErrorCategory::Unauthorized,
            ServiceError::UserNotConfirmed => ErrorCategory::Unauthorized,
            ServiceError::InvalidPassword => ErrorCategory::Unauthorized,
            ServiceError::InvalidConfirmationToken => ErrorCategory::Unauthorized,
            ServiceError::Forbidden => ErrorCategory::Forbidden,
            ServiceError::NotFound => ErrorCategory::NotFound,
            ServiceError::Invalid(_) => ErrorCategory::ValidationError,
            ServiceError::InvalidDateFormat => ErrorCategory::ValidationError,
            ServiceError::NoExtensionPending => ErrorCategory::ValidationError,
            ServiceError::MissingFileName => ErrorCategory::ValidationError,
            ServiceError::GameAlreadyRented => ErrorCategory::Conflict,
            ServiceError::Conflict => ErrorCategory::Conflict,
            ServiceError::Storage => ErrorCategory::StorageError,
            ServiceError::Credential(_) => ErrorCategory::StorageError,
        }
    }

    /// The text that goes with this failure.
    pub open spec fn spec_message(self) -> Seq<char> {
        match self {
            ServiceError::Unauthorized => "No token provided"@,
            ServiceError::UserNotFound => "User not found"@,
            ServiceError::UserNotConfirmed => "User not confirmed"@,
            ServiceError::InvalidPassword => "Invalid password"@,
            ServiceError::InvalidConfirmationToken => "Invalid token"@,
            ServiceError::Forbidden => "Insufficient privileges"@,
            ServiceError::NotFound => "Not found"@,
            ServiceError::Invalid(ValidationError::InvalidPlayerRange) =>
                "min_players cannot be greater than max_players"@,
            ServiceError::Invalid(ValidationError::InvalidPlaytimeRange) =>
                "min_playtime cannot be greater than max_playtime"@,
            ServiceError::Invalid(ValidationError::InvalidWeight) => "weight cannot be equal to 0"@,
            ServiceError::InvalidDateFormat => "Invalid date format"@,
            ServiceError::NoExtensionPending => "Extension request not found"@,
            ServiceError::MissingFileName => "File name is missing"@,
            ServiceError::GameAlreadyRented => "Game is already rented"@,
            ServiceError::Conflict => "Already exists"@,
            ServiceError::Storage => "Failed to save data into database"@,
            ServiceError::Credential(kind) => kind.message(),
        }
    }

    /// The text that goes with this failure.
    pub fn message(self) -> (r: String)
        ensures
            r@ == self.spec_message(),
    {
        match self {
            ServiceError::Unauthorized => String::from_str("No token provided"),
            ServiceError::UserNotFound => String::from_str("User not found"),
            ServiceError::UserNotConfirmed => String::from_str("User not confirmed"),
            ServiceError::InvalidPassword => String::from_str("Invalid password"),
            ServiceError::InvalidConfirmationToken => String::from_str("Invalid token"),
            ServiceError::Forbidden => String::from_str("Insufficient privileges"),
            ServiceError::NotFound => String::from_str("Not found"),
            ServiceError::Invalid(ValidationError::InvalidPlayerRange) => String::from_str(
                "min_players cannot be greater than max_players",
            ),
            ServiceError::Invalid(ValidationError::InvalidPlaytimeRange) => String::from_str(
                "min_playtime cannot be greater than max_playtime",
            ),
            ServiceError::Invalid(ValidationError::InvalidWeight) => String::from_str(
                "weight cannot be equal to 0",
            ),
            ServiceError::InvalidDateFormat => String::from_str("Invalid date format"),
            ServiceError::NoExtensionPending => String::from_str("Extension request not found"),
            ServiceError::MissingFileName => String::from_str("File name is missing"),
            ServiceError::GameAlreadyRented => String::from_str("Game is already rented"),
            ServiceError::Conflict => String::from_str("Already exists"),
            ServiceError::Storage => String::from_str("Failed to save data into database"),
            ServiceError::Credential(kind) => AuthError::of(kind).message,
        }
    }
}

/// The failure of the service that a refusal of access stands for.
pub open spec fn access_error(e: AccessError) -> ServiceError {
    match e {
        AccessError::Unauthorized => ServiceError::Unauthorized,
        AccessError::Forbidden => ServiceError::Forbidden,
    }
}

/// The failure of the service that a refusal of the store stands for.
pub open spec fn store_error(e: DbErr) -> ServiceError {
    match e {
        DbErr::Conflict => ServiceError::Conflict,
        DbErr::MissingReference => ServiceError::NotFound,
        DbErr::RecordNotFound => ServiceError::NotFound,
        DbErr::Invalid(v) => ServiceError::Invalid(v),
        DbErr::OutOfIds => ServiceError::Storage,
    }
}

/// The failure of the service that a refusal of the store to save a rental stands
/// for: a conflict there means that the game is rented.
pub open spec fn rental_store_error(e: DbErr) -> ServiceError {
    match e {
        DbErr::Conflict => ServiceError::GameAlreadyRented,
        _ => store_error(e),
    }
}

/// Turns a refusal of access into a failure of the service.
pub fn from_access(e: AccessError) -> (r: ServiceError)
    ensures
        r == access_error(e),
{
    match e {
        AccessError::Unauthorized => ServiceError::Unauthorized,
        AccessError::Forbidden => ServiceError::Forbidden,
    }
}

/// Turns a refusal of the store into a failure of the service.
pub fn from_store(e: DbErr) -> (r: ServiceError)
    ensures
        r == store_error(e),
{
    match e {
        DbErr::Conflict => ServiceError::Conflict,
        DbErr::MissingReference => ServiceError::NotFound,
        DbErr::RecordNotFound => ServiceError::NotFound,
        DbErr::Invalid(v) => ServiceError::Invalid(v),
        DbErr::OutOfIds => ServiceError::Storage,
    }
}

/// Turns a refusal of the store to save a rental into a failure of the service.
pub fn from_rental_store(e: DbErr) -> (r: ServiceError)
    ensures
        r == rental_store_error(e),
{
    match e {
        DbErr::Conflict => ServiceError::GameAlreadyRented,
        _ => from_store(e),
    }
}

} // verus!
