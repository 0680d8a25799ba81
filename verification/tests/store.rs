use boardgame_rental::board_game::{BoardGame, ValidationError};
use boardgame_rental::date::Date;
use boardgame_rental::db_manager::{DatabaseManager, DbErr};
use boardgame_rental::rental::{Favourite, Rental, RentalHistory};
use boardgame_rental::user::User;

fn user(id: i32, surname: &str, email: &str) -> User {
    User {
        id,
        name: "Ada".to_string(),
        surname: surname.to_string(),
        email: email.to_string(),
        password_hash: "hash".to_string(),
        penalty_points: 0,
        is_admin: false,
        confirmation_token: None,
    }
}

fn game(id: i32, title: &str) -> BoardGame {
    BoardGame {
        id,
        title: title.to_string(),
        weight: 3,
        photo_filename: format!("{}.png", title),
        min_players: 2,
        max_players: 4,
        min_playtime: 30,
        max_playtime: 60,
        additional_info: None,
    }
}

fn day(year: i32, month: u32, day: u32) -> Date {
    Date { year, month, day }
}

fn rental(id: i32, game_id: i32, user_id: i32) -> Rental {
    Rental::new(id, game_id, user_id, day(2025, 5, 1), day(2025, 5, 15))
}

fn filled() -> DatabaseManager {
    let mut db = DatabaseManager::new();
    assert_eq!(db.insert_user(user(10, "Lovelace", "ada@example.org")), Ok(()));
    assert_eq!(db.insert_user(user(11, "Babbage", "charles@example.org")), Ok(()));
    assert_eq!(db.save_board_game(game(0, "Azul")), Ok(1));
    assert_eq!(db.save_board_game(game(0, "Brass")), Ok(2));
    assert_eq!(db.save_board_game(game(0, "Catan")), Ok(3));
    db
}

#[test]
fn empty_store_finds_nothing() {
    let db = DatabaseManager::new();
    assert!(db.get_user(1).is_none());
    assert!(db.get_board_game(1).is_none());
    assert_eq!(db.get_rental(1), None);
    assert_eq!(db.get_game_rental_status(1), None);
    assert_eq!(db.get_rental_history_record(1), None);
    assert!(!db.is_favourite(1, 1));
    assert!(!db.is_user_penalized(1));
}

#[test]
fn user_ids_and_emails_are_unique() {
    let mut db = filled();
    assert_eq!(db.insert_user(user(10, "Other", "other@example.org")), Err(DbErr::Conflict));
    assert_eq!(db.insert_user(user(12, "Other", "ada@example.org")), Err(DbErr::Conflict));
    assert_eq!(db.insert_user(user(12, "Other", "other@example.org")), Ok(()));
    assert_eq!(db.get_user(10).map(|u| u.surname), Some("Lovelace".to_string()));
    assert_eq!(db.get_user(12).map(|u| u.email), Some("other@example.org".to_string()));
    assert!(db.get_user(13).is_none());
}

#[test]
fn user_is_replaced_by_id() {
    let mut db = filled();
    let mut changed = user(10, "King", "ada@example.org");
    changed.penalty_points = 3;
    assert_eq!(db.update_user(changed), Ok(()));
    let stored = db.get_user(10).unwrap();
    assert_eq!(stored.surname, "King");
    assert_eq!(stored.penalty_points, 3);
    assert_eq!(db.update_user(user(99, "Nobody", "nobody@example.org")), Err(DbErr::RecordNotFound));
    assert_eq!(db.update_user(user(10, "King", "charles@example.org")), Err(DbErr::Conflict));
    assert_eq!(db.get_user(10).unwrap().email, "ada@example.org");
    assert_eq!(db.update_user(user(10, "King", "new@example.org")), Ok(()));
    assert_eq!(db.get_user(10).unwrap().email, "new@example.org");
}

#[test]
fn penalty_threshold_is_two() {
    let mut db = filled();
    let mut two = user(20, "Two", "two@example.org");
    two.penalty_points = 2;
    let mut three = user(21, "Three", "three@example.org");
    three.penalty_points = 3;
    assert_eq!(db.insert_user(two), Ok(()));
    assert_eq!(db.insert_user(three), Ok(()));
    assert!(!db.is_user_penalized(20));
    assert!(db.is_user_penalized(21));
    assert!(!db.is_user_penalized(10));
    assert!(!db.is_user_penalized(404));
}

#[test]
fn games_get_fresh_ids_and_are_validated() {
    let mut db = filled();
    assert_eq!(db.save_board_game(game(0, "Dune")), Ok(4));
    let mut bad = game(0, "Bad");
    bad.min_players = 5;
    assert_eq!(db.save_board_game(bad), Err(DbErr::Invalid(ValidationError::InvalidPlayerRange)));
    let mut bad = game(1, "Bad");
    bad.min_playtime = 61;
    assert_eq!(db.save_board_game(bad), Err(DbErr::Invalid(ValidationError::InvalidPlaytimeRange)));
    let mut bad = game(1, "Bad");
    bad.weight = 0;
    assert_eq!(db.save_board_game(bad), Err(DbErr::Invalid(ValidationError::InvalidWeight)));
    assert_eq!(db.get_board_game(1).unwrap().title, "Azul");
    assert_eq!(db.save_board_game(game(77, "Ghost")), Err(DbErr::RecordNotFound));
    let mut same = game(0, "Even");
    same.min_players = 4;
    same.max_players = 4;
    same.min_playtime = 60;
    same.max_playtime = 60;
    assert_eq!(db.save_board_game(same), Ok(5));
    assert_eq!(db.save_board_game(game(2, "Brass: Birmingham")), Ok(2));
    assert_eq!(db.get_board_game(2).unwrap().title, "Brass: Birmingham");
}

#[test]
fn game_ids_are_not_used_twice() {
    let mut db = filled();
    db.delete_board_game(3);
    assert!(db.get_board_game(3).is_none());
    assert_eq!(db.save_board_game(game(0, "Dune")), Ok(4));
}

#[test]
fn rental_needs_user_and_game_and_a_free_game() {
    let mut db = filled();
    assert_eq!(db.save_rental(rental(0, 1, 10)), Ok(1));
    assert_eq!(db.save_rental(rental(0, 1, 11)), Err(DbErr::Conflict));
    assert_eq!(db.save_rental(rental(0, 9, 10)), Err(DbErr::MissingReference));
    assert_eq!(db.save_rental(rental(0, 2, 99)), Err(DbErr::MissingReference));
    assert_eq!(db.save_rental(rental(5, 2, 10)), Err(DbErr::RecordNotFound));
    assert_eq!(db.save_rental(rental(0, 2, 10)), Ok(2));
    assert_eq!(db.get_rental(1), Some(rental(1, 1, 10)));
    assert_eq!(db.get_game_rental_status(2), Some(rental(2, 2, 10)));
    assert_eq!(db.get_game_rental_status(3), None);
    // An update may keep its own game, and may not take the game of another rental.
    assert_eq!(db.save_rental(rental(1, 1, 11)), Ok(1));
    assert_eq!(db.get_rental(1), Some(rental(1, 1, 11)));
    assert_eq!(db.save_rental(rental(1, 2, 11)), Err(DbErr::Conflict));
    assert_eq!(db.save_rental(rental(1, 3, 11)), Ok(1));
    assert_eq!(db.get_game_rental_status(1), None);
    assert_eq!(db.get_game_rental_status(3), Some(rental(1, 3, 11)));
}

#[test]
fn archive_moves_the_rental_into_the_history() {
    let mut db = filled();
    assert_eq!(db.save_rental(rental(0, 1, 10)), Ok(1));
    let picked = rental(1, 1, 10).pick_up().request_extension(day(2025, 6, 1));
    assert_eq!(db.save_rental(picked), Ok(1));
    assert_eq!(db.archive_rental(1), Ok(()));
    assert_eq!(db.get_rental(1), None);
    assert_eq!(
        db.get_rental_history_record(1),
        Some(RentalHistory {
            id: 1,
            game_id: 1,
            user_id: 10,
            rental_date: day(2025, 5, 1),
            return_date: day(2025, 5, 15),
            picked_up: true,
        })
    );
    // The game is free again, and the id is not used twice.
    assert_eq!(db.save_rental(rental(0, 1, 11)), Ok(2));
}

#[test]
fn archive_of_an_unknown_rental_fails_and_changes_nothing() {
    let mut db = filled();
    assert_eq!(db.archive_rental(1), Err(DbErr::RecordNotFound));
    assert_eq!(db.save_rental(rental(0, 1, 10)), Ok(1));
    assert_eq!(db.archive_rental(7), Err(DbErr::RecordNotFound));
    assert_eq!(db.archive_rental(0), Err(DbErr::RecordNotFound));
    assert_eq!(db.get_rental(1), Some(rental(1, 1, 10)));
    assert_eq!(db.get_rental_history_record(7), None);
    // An archived rental is no longer there to archive.
    assert_eq!(db.archive_rental(1), Ok(()));
    assert_eq!(db.archive_rental(1), Err(DbErr::RecordNotFound));
    assert_eq!(db.get_rental_history_record(1).map(|h| h.id), Some(1));
}

#[test]
fn archive_is_all_or_nothing() {
    let mut db = filled();
    assert_eq!(db.save_rental(rental(0, 1, 10)), Ok(1));
    // A record with the id of the rental makes the first step of the move fail.
    let old_record = RentalHistory {
        id: 1,
        game_id: 2,
        user_id: 11,
        rental_date: day(2020, 1, 1),
        return_date: day(2020, 1, 8),
        picked_up: true,
    };
    assert_eq!(db.insert_rental_history(old_record), Ok(()));
    assert_eq!(db.archive_rental(1), Err(DbErr::Conflict));
    assert_eq!(db.get_rental(1), Some(rental(1, 1, 10)));
    assert_eq!(db.get_game_rental_status(1), Some(rental(1, 1, 10)));
    assert_eq!(db.get_rental_history_record(1), Some(old_record));
    // Once the record is gone the move goes through.
    db.delete_rental_history(1);
    assert_eq!(db.archive_rental(1), Ok(()));
    assert_eq!(db.get_rental(1), None);
    assert_eq!(db.get_rental_history_record(1).map(|h| h.game_id), Some(1));
}

#[test]
fn history_records_need_references_and_a_free_id() {
    let mut db = filled();
    let record = RentalHistory {
        id: 5,
        game_id: 1,
        user_id: 10,
        rental_date: day(2020, 1, 1),
        return_date: day(2020, 1, 8),
        picked_up: false,
    };
    assert_eq!(db.insert_rental_history(record), Ok(()));
    assert_eq!(db.insert_rental_history(record), Err(DbErr::Conflict));
    assert_eq!(
        db.insert_rental_history(RentalHistory { id: 6, game_id: 40, ..record }),
        Err(DbErr::MissingReference)
    );
    assert_eq!(
        db.insert_rental_history(RentalHistory { id: 6, user_id: 40, ..record }),
        Err(DbErr::MissingReference)
    );
    db.delete_rental_history(6);
    assert_eq!(db.get_rental_history_record(5), Some(record));
    db.delete_rental_history(5);
    assert_eq!(db.get_rental_history_record(5), None);
}

#[test]
fn favourites_are_a_membership() {
    let mut db = filled();
    assert_eq!(db.save_favourite(Favourite { user_id: 10, game_id: 1 }), Ok(()));
    assert_eq!(db.save_favourite(Favourite { user_id: 10, game_id: 1 }), Err(DbErr::Conflict));
    assert_eq!(db.save_favourite(Favourite { user_id: 10, game_id: 2 }), Ok(()));
    assert_eq!(db.save_favourite(Favourite { user_id: 11, game_id: 1 }), Ok(()));
    assert_eq!(db.save_favourite(Favourite { user_id: 12, game_id: 1 }), Err(DbErr::MissingReference));
    assert_eq!(db.save_favourite(Favourite { user_id: 10, game_id: 9 }), Err(DbErr::MissingReference));
    assert!(db.is_favourite(10, 1));
    assert!(db.is_favourite(10, 2));
    assert!(db.is_favourite(11, 1));
    assert!(!db.is_favourite(11, 2));
    db.delete_favourite(10, 1);
    assert!(!db.is_favourite(10, 1));
    assert!(db.is_favourite(11, 1));
    db.delete_favourite(10, 1);
    assert!(db.is_favourite(10, 2));
}

#[test]
fn deleting_a_user_deletes_what_refers_to_the_user() {
    let mut db = filled();
    assert_eq!(db.save_rental(rental(0, 1, 10)), Ok(1));
    assert_eq!(db.save_rental(rental(0, 2, 11)), Ok(2));
    assert_eq!(db.save_rental(rental(0, 3, 10)), Ok(3));
    assert_eq!(db.archive_rental(3), Ok(()));
    assert_eq!(db.save_favourite(Favourite { user_id: 10, game_id: 1 }), Ok(()));
    assert_eq!(db.save_favourite(Favourite { user_id: 11, game_id: 1 }), Ok(()));
    db.delete_user(10);
    assert!(db.get_user(10).is_none());
    assert!(db.get_user(11).is_some());
    assert_eq!(db.get_rental(1), None);
    assert_eq!(db.get_rental(2), Some(rental(2, 2, 11)));
    assert_eq!(db.get_rental_history_record(3), None);
    assert!(!db.is_favourite(10, 1));
    assert!(db.is_favourite(11, 1));
    db.delete_user(10);
    assert_eq!(db.get_rental(2), Some(rental(2, 2, 11)));
}

#[test]
fn deleting_a_game_deletes_what_refers_to_the_game() {
    let mut db = filled();
    assert_eq!(db.save_rental(rental(0, 1, 10)), Ok(1));
    assert_eq!(db.save_rental(rental(0, 2, 11)), Ok(2));
    assert_eq!(db.archive_rental(1), Ok(()));
    assert_eq!(db.save_rental(rental(0, 1, 11)), Ok(3));
    assert_eq!(db.save_favourite(Favourite { user_id: 10, game_id: 1 }), Ok(()));
    assert_eq!(db.save_favourite(Favourite { user_id: 10, game_id: 2 }), Ok(()));
    db.delete_board_game(1);
    assert!(db.get_board_game(1).is_none());
    assert_eq!(db.get_rental(3), None);
    assert_eq!(db.get_rental_history_record(1), None);
    assert_eq!(db.get_rental(2), Some(rental(2, 2, 11)));
    assert!(!db.is_favourite(10, 1));
    assert!(db.is_favourite(10, 2));
}

#[test]
fn deleting_a_rental_frees_the_game() {
    let mut db = filled();
    assert_eq!(db.save_rental(rental(0, 1, 10)), Ok(1));
    db.delete_rental(1);
    db.delete_rental(1);
    assert_eq!(db.get_rental(1), None);
    assert_eq!(db.get_rental_history_record(1), None);
    assert_eq!(db.save_rental(rental(0, 1, 11)), Ok(2));
}

#[test]
fn store_without_ids_left_refuses_new_rows() {
    let mut db = DatabaseManager::starting_after(i32::MAX, i32::MAX - 1).unwrap();
    assert_eq!(db.insert_user(user(10, "Lovelace", "ada@example.org")), Ok(()));
    assert_eq!(db.save_board_game(game(0, "Azul")), Err(DbErr::OutOfIds));
    assert!(DatabaseManager::starting_after(-1, 0).is_none());
    assert!(DatabaseManager::starting_after(0, -1).is_none());
    let mut db = DatabaseManager::starting_after(41, i32::MAX - 1).unwrap();
    assert_eq!(db.insert_user(user(10, "Lovelace", "ada@example.org")), Ok(()));
    assert_eq!(db.save_board_game(game(0, "Azul")), Ok(42));
    assert_eq!(db.save_board_game(game(0, "Brass")), Ok(43));
    assert_eq!(db.save_rental(rental(0, 42, 10)), Ok(i32::MAX));
    assert_eq!(db.save_rental(rental(0, 43, 10)), Err(DbErr::OutOfIds));
    assert_eq!(db.save_rental(rental(i32::MAX, 43, 10)), Ok(i32::MAX));
}
