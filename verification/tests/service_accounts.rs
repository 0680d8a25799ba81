use boardgame_rental::auth_manager::{AuthErrorKind, AuthManager, Claims};
use boardgame_rental::db_manager::DatabaseManager;
use boardgame_rental::decisions::decide_login;
use boardgame_rental::error::{
    from_access, from_rental_store, from_store, ErrorCategory, ServiceError,
};
use boardgame_rental::service::{
    change_password, confirm_user, delete_user, get_user, get_users, is_penalized, login,
    login_at, register, register_with_hash, set_password_hash, update_user,
    update_user_with_hash,
};
use boardgame_rental::access::AccessError;
use boardgame_rental::board_game::ValidationError;
use boardgame_rental::db_manager::DbErr;
use boardgame_rental::user::{is_penalized as found_is_penalized, User, PENALTY_THRESHOLD};

fn auth() -> AuthManager {
    AuthManager::new(Some("secret".to_string())).ok().unwrap()
}

fn claims(sub: i32, is_admin: bool) -> Claims {
    Claims { sub, is_admin, iat: 0, exp: 1800 }
}

fn s(text: &str) -> String {
    text.to_string()
}

fn registered() -> DatabaseManager {
    let mut db = DatabaseManager::new();
    let a = auth();
    assert_eq!(register(&mut db, &a, 10, s("Ada"), s("Lovelace"), s("ada@example.org"), s("pw-ada")), Ok(()));
    assert_eq!(register(&mut db, &a, 11, s("Charles"), s("Babbage"), s("cb@example.org"), s("pw-cb")), Ok(()));
    db
}

fn with_points(db: &mut DatabaseManager, id: i32, points: u8) {
    let mut u = db.get_user(id).unwrap();
    u.penalty_points = points;
    assert_eq!(db.update_user(u), Ok(()));
}

#[test]
fn registration_stores_a_confirmed_plain_account() {
    let db = registered();
    let u = db.get_user(10).unwrap();
    assert_eq!(u.name, "Ada");
    assert_eq!(u.surname, "Lovelace");
    assert_eq!(u.email, "ada@example.org");
    assert_eq!(u.penalty_points, 0);
    assert!(!u.is_admin);
    assert_eq!(u.confirmation_token, None);
    assert!(u.is_confirmed());
    assert_ne!(u.password_hash, "pw-ada");
    assert_eq!(auth().verify_password(s("pw-ada"), u.password_hash).ok(), Some(true));
}

#[test]
fn registration_refuses_a_taken_id_or_address() {
    let mut db = registered();
    let a = auth();
    assert_eq!(
        register(&mut db, &a, 10, s("X"), s("Y"), s("x@example.org"), s("pw")),
        Err(ServiceError::Conflict)
    );
    assert_eq!(
        register(&mut db, &a, 12, s("X"), s("Y"), s("ada@example.org"), s("pw")),
        Err(ServiceError::Conflict)
    );
    assert!(db.get_user(12).is_none());
    assert_eq!(
        register_with_hash(&mut db, 12, s("X"), s("Y"), s("x@example.org"), s("stored-hash")),
        Ok(())
    );
    assert_eq!(db.get_user(12).unwrap().password_hash, "stored-hash");
}

#[test]
fn login_issues_a_token_for_the_user() {
    let db = registered();
    let a = auth();
    let token = login_at(&db, &a, 10, s("pw-ada"), 1000).ok().unwrap();
    assert_eq!(
        a.verify_jwt_at(&token, 1000).ok(),
        Some(Claims { sub: 10, is_admin: false, iat: 1000, exp: 2800 })
    );
    let token = login(&db, &a, 11, s("pw-cb")).ok().unwrap();
    let c = a.verify_jwt(&token).ok().unwrap();
    assert_eq!((c.sub, c.is_admin), (11, false));
}

#[test]
fn login_is_refused_for_unknown_users_wrong_passwords_and_unconfirmed_accounts() {
    let mut db = registered();
    let a = auth();
    assert_eq!(login_at(&db, &a, 99, s("pw"), 1000), Err(ServiceError::UserNotFound));
    assert_eq!(login_at(&db, &a, 10, s("pw-cb"), 1000), Err(ServiceError::InvalidPassword));
    assert_eq!(login(&db, &a, 10, s("")), Err(ServiceError::InvalidPassword));
    let mut u = db.get_user(11).unwrap();
    u.confirmation_token = Some(77);
    assert_eq!(db.update_user(u), Ok(()));
    assert_eq!(login_at(&db, &a, 11, s("pw-cb"), 1000), Err(ServiceError::UserNotConfirmed));
    assert_eq!(login(&db, &a, 11, s("wrong")), Err(ServiceError::UserNotConfirmed));
    assert_eq!(decide_login(&a, db.get_user(10), s("pw-ada")).ok().map(|u| u.id), Some(10));
    assert_eq!(decide_login(&a, None, s("pw-ada")).err(), Some(ServiceError::UserNotFound));
}

#[test]
fn login_with_a_corrupt_stored_hash_is_an_error_of_the_service() {
    let mut db = DatabaseManager::new();
    let a = auth();
    assert_eq!(register_with_hash(&mut db, 1, s("A"), s("B"), s("a@b.c"), s("garbage")), Ok(()));
    assert_eq!(
        login_at(&db, &a, 1, s("pw"), 1000),
        Err(ServiceError::Credential(AuthErrorKind::CorruptHash))
    );
    assert_eq!(
        ServiceError::Credential(AuthErrorKind::CorruptHash).category(),
        ErrorCategory::StorageError
    );
}

#[test]
fn login_at_the_end_of_time_fails() {
    let db = registered();
    assert_eq!(
        login_at(&db, &auth(), 10, s("pw-ada"), u64::MAX),
        Err(ServiceError::Credential(AuthErrorKind::ClockOutOfRange))
    );
}

#[test]
fn confirmation_needs_the_awaited_token() {
    let mut db = registered();
    let mut u = db.get_user(11).unwrap();
    u.confirmation_token = Some(0x1234_5678_9abc_def0_1234_5678_9abc_def0);
    assert_eq!(db.update_user(u), Ok(()));
    assert_eq!(confirm_user(&mut db, 99, 1), Err(ServiceError::NotFound));
    assert_eq!(confirm_user(&mut db, 11, 1), Err(ServiceError::InvalidConfirmationToken));
    assert!(!db.get_user(11).unwrap().is_confirmed());
    assert_eq!(confirm_user(&mut db, 11, 0x1234_5678_9abc_def0_1234_5678_9abc_def0), Ok(()));
    assert!(db.get_user(11).unwrap().is_confirmed());
    // A confirmed account awaits no token.
    assert_eq!(confirm_user(&mut db, 11, 0x1234_5678_9abc_def0_1234_5678_9abc_def0), Err(ServiceError::InvalidConfirmationToken));
    assert_eq!(confirm_user(&mut db, 10, 0), Err(ServiceError::InvalidConfirmationToken));
}

#[test]
fn users_see_themselves_and_administrators_see_all() {
    let db = registered();
    assert_eq!(get_user(&db, &claims(10, false), 10).ok().map(|u| u.name), Some(s("Ada")));
    assert_eq!(get_user(&db, &claims(10, false), 11).err(), Some(ServiceError::Forbidden));
    assert_eq!(get_user(&db, &claims(1, true), 11).ok().map(|u| u.name), Some(s("Charles")));
    assert_eq!(get_user(&db, &claims(1, true), 99).err(), Some(ServiceError::NotFound));
    assert_eq!(get_user(&db, &claims(10, false), 99).err(), Some(ServiceError::Forbidden));
    assert_eq!(get_users(&db, &claims(10, false)).err(), Some(ServiceError::Forbidden));
    let surnames: Vec<String> =
        get_users(&db, &claims(1, true)).ok().unwrap().into_iter().map(|u| u.surname).collect();
    assert_eq!(surnames, vec!["Babbage", "Lovelace"]);
}

#[test]
fn penalized_means_more_than_two_points() {
    let mut db = registered();
    assert_eq!(PENALTY_THRESHOLD, 2);
    with_points(&mut db, 10, 2);
    with_points(&mut db, 11, 3);
    assert_eq!(is_penalized(&db, &claims(10, false), 10), Ok(false));
    assert_eq!(is_penalized(&db, &claims(11, false), 11), Ok(true));
    assert_eq!(is_penalized(&db, &claims(1, true), 11), Ok(true));
    assert_eq!(is_penalized(&db, &claims(10, false), 11), Err(ServiceError::Forbidden));
    with_points(&mut db, 10, 0);
    with_points(&mut db, 11, 255);
    assert_eq!(is_penalized(&db, &claims(1, true), 10), Ok(false));
    assert_eq!(is_penalized(&db, &claims(1, true), 11), Ok(true));
}

#[test]
fn unknown_user_is_not_penalized() {
    let db = registered();
    assert_eq!(is_penalized(&db, &claims(1, true), 404), Ok(false));
    assert_eq!(is_penalized(&db, &claims(404, false), 404), Ok(false));
    assert!(!found_is_penalized(None));
    let mut u = db.get_user(10).unwrap();
    u.penalty_points = 3;
    assert!(found_is_penalized(Some(&u)));
    assert!(u.is_penalized());
    u.penalty_points = 2;
    assert!(!found_is_penalized(Some(&u)));
}

#[test]
fn password_change_stores_a_hash_of_the_new_password() {
    let mut db = registered();
    let a = auth();
    assert_eq!(change_password(&mut db, &a, &claims(11, false), 10, s("new")), Err(ServiceError::Forbidden));
    assert_eq!(change_password(&mut db, &a, &claims(1, true), 99, s("new")), Err(ServiceError::NotFound));
    assert_eq!(change_password(&mut db, &a, &claims(10, false), 10, s("new")), Ok(()));
    assert_eq!(login_at(&db, &a, 10, s("pw-ada"), 0), Err(ServiceError::InvalidPassword));
    assert!(login_at(&db, &a, 10, s("new"), 0).is_ok());
    assert_eq!(change_password(&mut db, &a, &claims(1, true), 10, s("newer")), Ok(()));
    assert!(login_at(&db, &a, 10, s("newer"), 0).is_ok());
    assert_eq!(set_password_hash(&mut db, &claims(10, false), 10, s("h")), Ok(()));
    assert_eq!(db.get_user(10).unwrap().password_hash, "h");
    assert_eq!(db.get_user(10).unwrap().email, "ada@example.org");
}

#[test]
fn edit_keeps_the_hash_when_no_password_is_supplied() {
    let mut db = registered();
    let a = auth();
    let admin = claims(1, true);
    let before = db.get_user(10).unwrap().password_hash;
    assert_eq!(
        update_user(&mut db, &a, &admin, 10, s("Augusta"), s("King"), s("ak@example.org"), s(""), 3, true),
        Ok(())
    );
    let u = db.get_user(10).unwrap();
    assert_eq!((u.name.as_str(), u.surname.as_str(), u.email.as_str()), ("Augusta", "King", "ak@example.org"));
    assert_eq!((u.penalty_points, u.is_admin), (3, true));
    assert_eq!(u.password_hash, before);
    assert!(login_at(&db, &a, 10, s("pw-ada"), 0).is_ok());
}

#[test]
fn edit_hashes_a_supplied_password() {
    let mut db = registered();
    let a = auth();
    let admin = claims(1, true);
    assert_eq!(
        update_user(&mut db, &a, &admin, 10, s("Ada"), s("Lovelace"), s("ada@example.org"), s("fresh"), 0, false),
        Ok(())
    );
    assert_eq!(login_at(&db, &a, 10, s("pw-ada"), 0), Err(ServiceError::InvalidPassword));
    assert!(login_at(&db, &a, 10, s("fresh"), 0).is_ok());
}

#[test]
fn edit_is_for_administrators_and_keeps_addresses_unique() {
    let mut db = registered();
    let a = auth();
    assert_eq!(
        update_user(&mut db, &a, &claims(10, false), 10, s("A"), s("B"), s("c@d.e"), s(""), 0, true),
        Err(ServiceError::Forbidden)
    );
    assert_eq!(
        update_user(&mut db, &a, &claims(1, true), 99, s("A"), s("B"), s("c@d.e"), s(""), 0, true),
        Err(ServiceError::NotFound)
    );
    assert_eq!(
        update_user(&mut db, &a, &claims(1, true), 10, s("A"), s("B"), s("cb@example.org"), s(""), 0, true),
        Err(ServiceError::Conflict)
    );
    assert_eq!(db.get_user(10).unwrap().name, "Ada");
    assert_eq!(
        update_user_with_hash(&mut db, &claims(1, true), 10, s("A"), s("B"), s("c@d.e"), Some(s("hh")), 1, false),
        Ok(())
    );
    assert_eq!(db.get_user(10).unwrap().password_hash, "hh");
    assert_eq!(
        update_user_with_hash(&mut db, &claims(1, true), 10, s("A"), s("B"), s("c@d.e"), None, 1, false),
        Ok(())
    );
    assert_eq!(db.get_user(10).unwrap().password_hash, "hh");
}

#[test]
fn only_administrators_delete_users() {
    let mut db = registered();
    assert_eq!(delete_user(&mut db, &claims(10, false), 10), Err(ServiceError::Forbidden));
    assert!(db.get_user(10).is_some());
    assert_eq!(delete_user(&mut db, &claims(1, true), 10), Ok(()));
    assert!(db.get_user(10).is_none());
    assert_eq!(delete_user(&mut db, &claims(1, true), 10), Ok(()));
}

#[test]
fn failures_fall_into_six_classes() {
    assert_eq!(ServiceError::Unauthorized.category(), ErrorCategory::Unauthorized);
    assert_eq!(ServiceError::UserNotFound.category(), ErrorCategory::Unauthorized);
    assert_eq!(ServiceError::UserNotConfirmed.category(), ErrorCategory::Unauthorized);
    assert_eq!(ServiceError::InvalidPassword.category(), ErrorCategory::Unauthorized);
    assert_eq!(ServiceError::InvalidConfirmationToken.category(), ErrorCategory::Unauthorized);
    assert_eq!(ServiceError::Forbidden.category(), ErrorCategory::Forbidden);
    assert_eq!(ServiceError::NotFound.category(), ErrorCategory::NotFound);
    assert_eq!(ServiceError::Invalid(ValidationError::InvalidWeight).category(), ErrorCategory::ValidationError);
    assert_eq!(ServiceError::InvalidDateFormat.category(), ErrorCategory::ValidationError);
    assert_eq!(ServiceError::NoExtensionPending.category(), ErrorCategory::ValidationError);
    assert_eq!(ServiceError::MissingFileName.category(), ErrorCategory::ValidationError);
    assert_eq!(ServiceError::GameAlreadyRented.category(), ErrorCategory::Conflict);
    assert_eq!(ServiceError::Conflict.category(), ErrorCategory::Conflict);
    assert_eq!(ServiceError::Storage.category(), ErrorCategory::StorageError);
    assert_eq!(from_access(AccessError::Unauthorized), ServiceError::Unauthorized);
    assert_eq!(from_access(AccessError::Forbidden), ServiceError::Forbidden);
    assert_eq!(from_store(DbErr::Conflict), ServiceError::Conflict);
    assert_eq!(from_store(DbErr::MissingReference), ServiceError::NotFound);
    assert_eq!(from_store(DbErr::RecordNotFound), ServiceError::NotFound);
    assert_eq!(from_store(DbErr::OutOfIds), ServiceError::Storage);
    assert_eq!(
        from_store(DbErr::Invalid(ValidationError::InvalidPlayerRange)),
        ServiceError::Invalid(ValidationError::InvalidPlayerRange)
    );
    assert_eq!(from_rental_store(DbErr::Conflict), ServiceError::GameAlreadyRented);
    assert_eq!(from_rental_store(DbErr::MissingReference), ServiceError::NotFound);
    assert_eq!(from_rental_store(DbErr::RecordNotFound), ServiceError::NotFound);
    assert_eq!(from_rental_store(DbErr::OutOfIds), ServiceError::Storage);
    assert_eq!(ServiceError::Forbidden.message(), "Insufficient privileges");
    assert_eq!(ServiceError::InvalidDateFormat.message(), "Invalid date format");
    assert_eq!(ServiceError::Invalid(ValidationError::InvalidWeight).message(), "weight cannot be equal to 0");
}

#[test]
fn edit_with_an_empty_password_is_decided_without_hashing() {
    let mut db = registered();
    let a = auth();
    let admin = claims(1, true);
    // Every outcome of the edit without a new password.
    assert_eq!(
        update_user(&mut db, &a, &claims(10, false), 10, s("A"), s("B"), s("c@d.e"), s(""), 0, true),
        Err(ServiceError::Forbidden)
    );
    assert_eq!(
        update_user(&mut db, &a, &claims(10, false), 99, s("A"), s("B"), s("c@d.e"), s("pw"), 0, true),
        Err(ServiceError::Forbidden)
    );
    assert_eq!(
        update_user(&mut db, &a, &admin, 99, s("A"), s("B"), s("c@d.e"), s(""), 0, true),
        Err(ServiceError::NotFound)
    );
    assert_eq!(
        update_user(&mut db, &a, &admin, 10, s("A"), s("B"), s("cb@example.org"), s(""), 0, true),
        Err(ServiceError::Conflict)
    );
    let before = db.get_user(10).unwrap();
    assert_eq!((before.name.as_str(), before.is_admin), ("Ada", false));
    assert_eq!(
        update_user(&mut db, &a, &admin, 10, s("A"), s("B"), s("ada@example.org"), s(""), 4, true),
        Ok(())
    );
    let after = db.get_user(10).unwrap();
    assert_eq!((after.name.as_str(), after.surname.as_str()), ("A", "B"));
    assert_eq!((after.penalty_points, after.is_admin), (4, true));
    assert_eq!(after.password_hash, before.password_hash);
    assert_eq!(db.get_user(11).unwrap().name, "Charles");
}

#[test]
fn password_change_is_refused_only_to_strangers() {
    let mut db = registered();
    let a = auth();
    assert_eq!(change_password(&mut db, &a, &claims(11, false), 10, s("x")), Err(ServiceError::Forbidden));
    assert_eq!(change_password(&mut db, &a, &claims(11, false), 99, s("x")), Err(ServiceError::Forbidden));
    assert_eq!(change_password(&mut db, &a, &claims(99, false), 99, s("x")), Err(ServiceError::NotFound));
    assert_eq!(change_password(&mut db, &a, &claims(11, false), 11, s("")), Ok(()));
    assert!(login_at(&db, &a, 11, s(""), 0).is_ok());
    assert_eq!(login_at(&db, &a, 11, s("pw-cb"), 0), Err(ServiceError::InvalidPassword));
    assert!(login_at(&db, &a, 10, s("pw-ada"), 0).is_ok());
}
