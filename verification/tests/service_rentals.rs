use boardgame_rental::auth_manager::Claims;
use boardgame_rental::board_game::ValidationError;
use boardgame_rental::date::Date;
use boardgame_rental::db_manager::DatabaseManager;
use boardgame_rental::rental::{Rental, RentalHistory};
use boardgame_rental::decisions::optional_text;
use boardgame_rental::error::ServiceError;
use boardgame_rental::service::{
    accept_extension_request, archive_rental, delete_board_game, delete_extension_request,
    delete_favourite, delete_rental_history, get_board_game, get_board_games,
    get_board_games_admin, get_my_rental_history, get_my_rentals, get_rental_history,
    get_rentals, get_user_rental_history, get_user_rentals, pick_up_rental, register_with_hash,
    request_extension, save_board_game, save_extension_request, save_favourite, save_rental,
    store_rental,
};
use boardgame_rental::date::DateError;

const A: i32 = 10;
const B: i32 = 11;

fn user(sub: i32) -> Claims {
    Claims { sub, is_admin: false, iat: 0, exp: 1800 }
}

fn admin() -> Claims {
    Claims { sub: 1, is_admin: true, iat: 0, exp: 1800 }
}

fn s(text: &str) -> String {
    text.to_string()
}

fn day(year: i32, month: u32, day: u32) -> Date {
    Date { year, month, day }
}

fn add_game(db: &mut DatabaseManager, title: &str) -> i32 {
    save_board_game(db, &admin(), 0, s(title), 2, Some(format!("{}.png", title)), 2, 4, 30, 60, s(""))
        .ok()
        .unwrap()
}

/// Users A, B and an administrator; five games; rental 1..=5 of game 1..=5,
/// all by A but rental 2, which is B's.
fn stocked() -> DatabaseManager {
    let mut db = DatabaseManager::new();
    assert_eq!(register_with_hash(&mut db, A, s("Ada"), s("Lovelace"), s("a@x.org"), s("h")), Ok(()));
    assert_eq!(register_with_hash(&mut db, B, s("Bob"), s("Babbage"), s("b@x.org"), s("h")), Ok(()));
    assert_eq!(register_with_hash(&mut db, 1, s("Root"), s("Admin"), s("r@x.org"), s("h")), Ok(()));
    for title in ["Azul", "Brass", "Catan", "Dune", "Everdell", "Fresco"] {
        add_game(&mut db, title);
    }
    for (game, renter) in [(1, A), (2, B), (3, A), (4, A), (5, A)] {
        let r = save_rental(&mut db, &user(renter), 0, game, "2025-05-01", "2025-05-15");
        assert_eq!(r.ok().map(|r| r.id), Some(game));
    }
    db
}

#[test]
fn catalogue_save_accepts_valid_games_and_equal_bounds() {
    let mut db = DatabaseManager::new();
    assert_eq!(save_board_game(&mut db, &admin(), 0, s("Azul"), 2, Some(s("azul.png")), 2, 4, 30, 45, s("")), Ok(1));
    assert_eq!(save_board_game(&mut db, &admin(), 0, s("Solo"), 1, Some(s("solo.png")), 1, 1, 20, 20, s("one player")), Ok(2));
    let g = get_board_game(&db, &user(A), 2).ok().unwrap();
    assert_eq!((g.min_players, g.max_players, g.min_playtime, g.max_playtime, g.weight), (1, 1, 20, 20, 1));
    assert_eq!(g.photo_filename, "solo.png");
    assert_eq!(g.additional_info, Some(s("one player")));
    assert_eq!(get_board_game(&db, &user(A), 1).ok().unwrap().additional_info, None);
    assert_eq!(get_board_game(&db, &user(A), 3).err(), Some(ServiceError::NotFound));
}

#[test]
fn catalogue_save_rejects_broken_constraints() {
    let mut db = DatabaseManager::new();
    assert_eq!(
        save_board_game(&mut db, &admin(), 0, s("X"), 2, Some(s("x.png")), 5, 4, 30, 45, s("")),
        Err(ServiceError::Invalid(ValidationError::InvalidPlayerRange))
    );
    assert_eq!(
        save_board_game(&mut db, &admin(), 0, s("X"), 2, Some(s("x.png")), 2, 4, 46, 45, s("")),
        Err(ServiceError::Invalid(ValidationError::InvalidPlaytimeRange))
    );
    assert_eq!(
        save_board_game(&mut db, &admin(), 0, s("X"), 0, Some(s("x.png")), 2, 4, 30, 45, s("")),
        Err(ServiceError::Invalid(ValidationError::InvalidWeight))
    );
    assert!(get_board_games(&db, &user(A)).is_empty());
    // The same holds for an update.
    assert_eq!(add_game(&mut db, "Azul"), 1);
    assert_eq!(
        save_board_game(&mut db, &admin(), 1, s("Azul"), 0, Some(s("azul.png")), 2, 4, 30, 45, s("")),
        Err(ServiceError::Invalid(ValidationError::InvalidWeight))
    );
    assert_eq!(get_board_game(&db, &user(A), 1).ok().unwrap().weight, 2);
}

#[test]
fn catalogue_save_checks_privilege_and_file_name_first() {
    let mut db = DatabaseManager::new();
    assert_eq!(
        save_board_game(&mut db, &user(A), 0, s("X"), 0, None, 5, 4, 30, 45, s("")),
        Err(ServiceError::Forbidden)
    );
    assert_eq!(
        save_board_game(&mut db, &admin(), 0, s("X"), 0, None, 5, 4, 30, 45, s("")),
        Err(ServiceError::MissingFileName)
    );
    assert_eq!(
        save_board_game(&mut db, &admin(), 9, s("X"), 2, Some(s("x.png")), 2, 4, 30, 45, s("")),
        Err(ServiceError::NotFound)
    );
    assert_eq!(optional_text(s("")), None);
    assert_eq!(optional_text(s("info")), Some(s("info")));
}

#[test]
fn catalogue_listings_and_deletion() {
    let mut db = stocked();
    assert_eq!(save_favourite(&mut db, &user(A), 2), Ok(()));
    let rows = get_board_games(&db, &user(A));
    let seen: Vec<(&str, bool, bool)> =
        rows.iter().map(|r| (r.title.as_str(), r.return_date.is_some(), r.is_favourite)).collect();
    assert_eq!(
        seen,
        vec![
            ("Azul", true, false),
            ("Brass", true, true),
            ("Catan", true, false),
            ("Dune", true, false),
            ("Everdell", true, false),
            ("Fresco", false, false),
        ]
    );
    assert_eq!(get_board_games_admin(&db, &user(A)).err(), Some(ServiceError::Forbidden));
    assert_eq!(get_board_games_admin(&db, &admin()).ok().map(|r| r.len()), Some(6));
    assert_eq!(delete_board_game(&mut db, &user(A), 1), Err(ServiceError::Forbidden));
    assert_eq!(delete_board_game(&mut db, &admin(), 1), Ok(()));
    assert_eq!(get_board_game(&db, &user(A), 1).err(), Some(ServiceError::NotFound));
    assert_eq!(db.get_rental(1), None);
}

#[test]
fn reservation_reads_the_dates_and_belongs_to_the_caller() {
    let mut db = stocked();
    let r = save_rental(&mut db, &user(B), 0, 6, "2025-07-01", "2025-07-15").ok().unwrap();
    assert_eq!(
        r,
        Rental {
            id: 6,
            game_id: 6,
            user_id: B,
            rental_date: day(2025, 7, 1),
            return_date: day(2025, 7, 15),
            picked_up: false,
            extension_date: None,
        }
    );
    assert_eq!(db.get_rental(6), Some(r));
}

#[test]
fn reservation_fails_on_bad_dates_rented_games_and_unknown_games() {
    let mut db = stocked();
    assert_eq!(save_rental(&mut db, &user(B), 0, 6, "1 July", "2025-07-15"), Err(ServiceError::InvalidDateFormat));
    assert_eq!(save_rental(&mut db, &user(B), 0, 6, "2025-07-01", "2025-02-30"), Err(ServiceError::InvalidDateFormat));
    assert_eq!(save_rental(&mut db, &user(B), 0, 1, "2025-07-01", "2025-07-15"), Err(ServiceError::GameAlreadyRented));
    assert_eq!(save_rental(&mut db, &user(B), 0, 99, "2025-07-01", "2025-07-15"), Err(ServiceError::NotFound));
    assert_eq!(save_rental(&mut db, &user(404), 0, 6, "2025-07-01", "2025-07-15"), Err(ServiceError::NotFound));
    assert_eq!(db.get_game_rental_status(6), None);
}

#[test]
fn update_keeps_pickup_and_drops_the_pending_request() {
    let mut db = stocked();
    assert!(pick_up_rental(&mut db, &admin(), 1).is_ok());
    assert!(save_extension_request(&mut db, &user(A), 1, "2025-06-01").is_ok());
    let r = save_rental(&mut db, &user(A), 1, 6, "2025-05-02", "2025-05-16").ok().unwrap();
    assert_eq!(
        r,
        Rental {
            id: 1,
            game_id: 6,
            user_id: A,
            rental_date: day(2025, 5, 2),
            return_date: day(2025, 5, 16),
            picked_up: true,
            extension_date: None,
        }
    );
    assert_eq!(db.get_rental(1), Some(r));
    assert_eq!(save_rental(&mut db, &user(A), 1, 2, "2025-05-02", "2025-05-16"), Err(ServiceError::GameAlreadyRented));
    assert_eq!(save_rental(&mut db, &user(A), 77, 2, "2025-05-02", "2025-05-16"), Err(ServiceError::NotFound));
    assert_eq!(save_rental(&mut db, &user(B), 1, 6, "2025-05-02", "2025-05-16"), Err(ServiceError::Forbidden));
    let moved = Rental { user_id: B, ..r };
    assert_eq!(store_rental(&mut db, moved), Ok(moved));
    assert_eq!(db.get_rental(1), Some(moved));
    assert_eq!(store_rental(&mut db, Rental { game_id: 2, ..moved }), Err(ServiceError::GameAlreadyRented));
    assert_eq!(store_rental(&mut db, Rental { game_id: 99, ..moved }), Err(ServiceError::NotFound));
    assert_eq!(store_rental(&mut db, Rental { id: 0, game_id: 1, ..moved }).ok().map(|r| r.id), Some(6));
}

#[test]
fn archival_by_the_owner_leaves_a_history_record() {
    let mut db = stocked();
    let before = db.get_rental(1).unwrap();
    assert_eq!(archive_rental(&mut db, &user(A), 1), Ok(()));
    assert_eq!(db.get_rental(1), None);
    assert_eq!(
        db.get_rental_history_record(1),
        Some(RentalHistory {
            id: before.id,
            game_id: before.game_id,
            user_id: before.user_id,
            rental_date: before.rental_date,
            return_date: before.return_date,
            picked_up: before.picked_up,
        })
    );
    assert_eq!(archive_rental(&mut db, &user(A), 1), Err(ServiceError::NotFound));
    assert_eq!(archive_rental(&mut db, &admin(), 1), Err(ServiceError::NotFound));
    assert_eq!(archive_rental(&mut db, &admin(), 404), Err(ServiceError::NotFound));
}

#[test]
fn archive_leaves_the_rental_when_the_history_refuses_the_record() {
    let mut db = stocked();
    let record = RentalHistory {
        id: 3,
        game_id: 6,
        user_id: B,
        rental_date: day(2020, 1, 1),
        return_date: day(2020, 1, 8),
        picked_up: true,
    };
    assert_eq!(db.insert_rental_history(record), Ok(()));
    let before = db.get_rental(3).unwrap();
    assert_eq!(archive_rental(&mut db, &admin(), 3), Err(ServiceError::Conflict));
    assert_eq!(db.get_rental(3), Some(before));
    assert_eq!(db.get_rental_history_record(3), Some(record));
    assert_eq!(get_rentals(&db, &admin()).ok().map(|r| r.len()), Some(5));
    assert_eq!(get_rental_history(&db, &admin()).ok().map(|r| r.len()), Some(1));
}

#[test]
fn archive_authorization_scenario() {
    let mut db = stocked();
    // A asks for B's rental.
    assert_eq!(archive_rental(&mut db, &user(A), 2), Err(ServiceError::Forbidden));
    assert!(db.get_rental(2).is_some());
    // An administrator may, whoever owns it.
    assert_eq!(archive_rental(&mut db, &admin(), 2), Ok(()));
    assert_eq!(db.get_rental(2), None);
    // A asks for A's own rental after pickup.
    assert!(pick_up_rental(&mut db, &admin(), 3).is_ok());
    assert_eq!(archive_rental(&mut db, &user(A), 3), Err(ServiceError::Forbidden));
    assert!(db.get_rental(3).is_some());
    // An administrator may, also after pickup.
    assert_eq!(archive_rental(&mut db, &admin(), 3), Ok(()));
    assert_eq!(db.get_rental_history_record(3).map(|h| h.picked_up), Some(true));
    // A may archive A's own rental before pickup.
    assert_eq!(archive_rental(&mut db, &user(A), 4), Ok(()));
}

#[test]
fn extension_scenario() {
    let mut db = stocked();
    let requested = save_extension_request(&mut db, &user(A), 5, "2025-06-01").ok().unwrap();
    assert_eq!(requested.extension_date, Some(day(2025, 6, 1)));
    assert_eq!(requested.return_date, day(2025, 5, 15));
    assert_eq!(db.get_rental(5), Some(requested));
    let accepted = accept_extension_request(&mut db, &admin(), 5).ok().unwrap();
    assert_eq!(accepted.return_date, day(2025, 6, 1));
    assert_eq!(accepted.extension_date, None);
    assert_eq!(db.get_rental(5), Some(accepted));
    assert_eq!(
        accepted,
        Rental {
            id: 5,
            game_id: 5,
            user_id: A,
            rental_date: day(2025, 5, 1),
            return_date: day(2025, 6, 1),
            picked_up: false,
            extension_date: None,
        }
    );
}

#[test]
fn acceptance_without_a_pending_request_fails() {
    let mut db = stocked();
    assert_eq!(accept_extension_request(&mut db, &admin(), 5), Err(ServiceError::NoExtensionPending));
    assert!(save_extension_request(&mut db, &user(A), 5, "2025-06-01").is_ok());
    assert!(accept_extension_request(&mut db, &admin(), 5).is_ok());
    assert_eq!(accept_extension_request(&mut db, &admin(), 5), Err(ServiceError::NoExtensionPending));
    assert_eq!(accept_extension_request(&mut db, &admin(), 404), Err(ServiceError::NotFound));
    assert_eq!(accept_extension_request(&mut db, &user(A), 5), Err(ServiceError::Forbidden));
    assert_eq!(accept_extension_request(&mut db, &user(A), 404), Err(ServiceError::Forbidden));
}

#[test]
fn extension_request_checks_presence_then_owner_then_date() {
    let mut db = stocked();
    assert_eq!(save_extension_request(&mut db, &user(A), 404, "nonsense"), Err(ServiceError::NotFound));
    assert_eq!(save_extension_request(&mut db, &user(A), 2, "nonsense"), Err(ServiceError::Forbidden));
    assert_eq!(save_extension_request(&mut db, &user(A), 2, "2025-06-01"), Err(ServiceError::Forbidden));
    assert_eq!(save_extension_request(&mut db, &user(B), 2, "nonsense"), Err(ServiceError::InvalidDateFormat));
    assert_eq!(db.get_rental(2).unwrap().extension_date, None);
    assert!(save_extension_request(&mut db, &admin(), 2, "2025-06-01").is_ok());
    assert_eq!(db.get_rental(2).unwrap().extension_date, Some(day(2025, 6, 1)));
    assert_eq!(
        request_extension(&mut db, &user(B), 2, Err(DateError::InvalidDateFormat)),
        Err(ServiceError::InvalidDateFormat)
    );
    assert_eq!(
        request_extension(&mut db, &user(B), 2, Ok(day(2025, 6, 8))).ok().map(|r| r.extension_date),
        Some(Some(day(2025, 6, 8)))
    );
}

#[test]
fn withdrawal_clears_the_request_and_keeps_the_return_date() {
    let mut db = stocked();
    assert!(save_extension_request(&mut db, &user(A), 5, "2025-06-01").is_ok());
    assert_eq!(delete_extension_request(&mut db, &user(B), 5), Err(ServiceError::Forbidden));
    assert_eq!(db.get_rental(5).unwrap().extension_date, Some(day(2025, 6, 1)));
    let r = delete_extension_request(&mut db, &user(A), 5).ok().unwrap();
    assert_eq!(r.extension_date, None);
    assert_eq!(r.return_date, day(2025, 5, 15));
    assert_eq!(db.get_rental(5), Some(r));
    assert!(delete_extension_request(&mut db, &admin(), 5).is_ok());
    assert_eq!(delete_extension_request(&mut db, &admin(), 404), Err(ServiceError::NotFound));
    assert_eq!(accept_extension_request(&mut db, &admin(), 5), Err(ServiceError::NoExtensionPending));
}

#[test]
fn pickup_is_recorded_by_administrators() {
    let mut db = stocked();
    assert_eq!(pick_up_rental(&mut db, &user(A), 1), Err(ServiceError::Forbidden));
    assert_eq!(pick_up_rental(&mut db, &admin(), 404), Err(ServiceError::NotFound));
    assert_eq!(pick_up_rental(&mut db, &admin(), 1).ok().map(|r| r.picked_up), Some(true));
    assert_eq!(db.get_rental(1).map(|r| r.picked_up), Some(true));
}

#[test]
fn rental_listings_follow_the_privileges() {
    let mut db = stocked();
    assert_eq!(get_rentals(&db, &user(A)).err(), Some(ServiceError::Forbidden));
    assert_eq!(get_rentals(&db, &admin()).ok().map(|r| r.len()), Some(5));
    let mine: Vec<i32> = get_my_rentals(&db, &user(A)).iter().map(|r| r.id).collect();
    assert_eq!(mine, vec![1, 3, 4, 5]);
    let mine: Vec<i32> = get_my_rentals(&db, &user(B)).iter().map(|r| r.id).collect();
    assert_eq!(mine, vec![2]);
    assert_eq!(get_user_rentals(&db, &user(A), A).err(), Some(ServiceError::Forbidden));
    assert_eq!(get_user_rentals(&db, &admin(), B).ok().map(|r| r.len()), Some(1));
    assert_eq!(archive_rental(&mut db, &user(A), 1), Ok(()));
    assert_eq!(archive_rental(&mut db, &user(B), 2), Ok(()));
    assert_eq!(get_rental_history(&db, &user(A)).err(), Some(ServiceError::Forbidden));
    assert_eq!(get_rental_history(&db, &admin()).ok().map(|r| r.len()), Some(2));
    let mine: Vec<i32> = get_my_rental_history(&db, &user(A)).iter().map(|r| r.id).collect();
    assert_eq!(mine, vec![1]);
    assert_eq!(get_user_rental_history(&db, &user(B), B).err(), Some(ServiceError::Forbidden));
    assert_eq!(get_user_rental_history(&db, &admin(), B).ok().map(|r| r.len()), Some(1));
    assert_eq!(delete_rental_history(&mut db, &user(A), 1), Err(ServiceError::Forbidden));
    assert_eq!(delete_rental_history(&mut db, &admin(), 1), Ok(()));
    assert_eq!(get_rental_history(&db, &admin()).ok().map(|r| r.len()), Some(1));
}

#[test]
fn favourites_of_the_caller() {
    let mut db = stocked();
    assert_eq!(save_favourite(&mut db, &user(A), 1), Ok(()));
    assert_eq!(save_favourite(&mut db, &user(A), 1), Err(ServiceError::Conflict));
    assert_eq!(save_favourite(&mut db, &user(A), 99), Err(ServiceError::NotFound));
    assert_eq!(save_favourite(&mut db, &user(404), 1), Err(ServiceError::NotFound));
    assert!(db.is_favourite(A, 1));
    assert!(!db.is_favourite(B, 1));
    delete_favourite(&mut db, &user(B), 1);
    assert!(db.is_favourite(A, 1));
    delete_favourite(&mut db, &user(A), 1);
    assert!(!db.is_favourite(A, 1));
    assert_eq!(save_favourite(&mut db, &user(A), 1), Ok(()));
}

#[test]
fn store_without_ids_left_is_a_storage_failure() {
    let mut db = DatabaseManager::starting_after(i32::MAX, i32::MAX).unwrap();
    assert_eq!(register_with_hash(&mut db, A, s("Ada"), s("Lovelace"), s("a@x.org"), s("h")), Ok(()));
    assert_eq!(
        save_board_game(&mut db, &admin(), 0, s("Azul"), 2, Some(s("azul.png")), 2, 4, 30, 45, s("")),
        Err(ServiceError::Storage)
    );
    let mut db = DatabaseManager::starting_after(0, i32::MAX).unwrap();
    assert_eq!(register_with_hash(&mut db, A, s("Ada"), s("Lovelace"), s("a@x.org"), s("h")), Ok(()));
    assert_eq!(add_game(&mut db, "Azul"), 1);
    assert_eq!(
        save_rental(&mut db, &user(A), 0, 1, "2025-05-01", "2025-05-15"),
        Err(ServiceError::Storage)
    );
}

#[test]
fn reservation_leaves_the_rest_of_the_store() {
    let mut db = stocked();
    assert_eq!(save_favourite(&mut db, &user(B), 6), Ok(()));
    let users_before = db.get_users().len();
    let r = save_rental(&mut db, &user(B), 0, 6, "2025-07-01", "2025-07-15").ok().unwrap();
    assert_eq!(r.id, 6);
    assert!(db.is_favourite(B, 6));
    assert_eq!(db.get_users().len(), users_before);
    assert_eq!(db.get_rentals().len(), 6);
    assert_eq!(db.get_rental_history().len(), 0);
    for id in 1..=5 {
        assert_eq!(db.get_rental(id).map(|r| r.game_id), Some(id));
    }
    // An update changes its own rental only.
    let r = save_rental(&mut db, &user(B), 6, 6, "2025-07-02", "2025-07-16").ok().unwrap();
    assert_eq!(r.rental_date, day(2025, 7, 2));
    assert!(db.is_favourite(B, 6));
    assert_eq!(db.get_rentals().len(), 6);
    assert_eq!(db.get_rental(2).map(|r| r.rental_date), Some(day(2025, 5, 1)));
}
