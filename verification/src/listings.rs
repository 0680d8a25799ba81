//! The listings of the store: joins of its tables, in the order in which they are shown.

use crate::board_game::BoardGame;
use crate::date::Date;
use crate::db_manager::{DatabaseManager, DbView};
use crate::ordering::{arrange, is_listing};
use crate::rental::{Rental, RentalHistory};
use crate::table::{lemma_filter_member, linked, select_linked};
use crate::user::User;
use vstd::pervasive::unreached;
use vstd::prelude::*;

verus! {

/// A board game as a user sees it in the catalogue.
#[derive(Debug, PartialEq, Eq)]
pub struct GetBoardGamesQueryResult {
    pub id: i32,
    pub title: String,
    pub photo_filename: String,
    pub min_players: u8,
    pub max_players: u8,
    pub min_playtime: u16,
    pub max_playtime: u16,
    /// The return date of the active rental of the game, if it is rented.
    pub return_date: Option<Date>,
    /// Whether the user has marked the game as a favourite.
    pub is_favourite: bool,
}

/// An active rental with its game and its renter.
#[derive(Debug, PartialEq, Eq)]
pub struct GetRentalsQueryResult {
    pub id: i32,
    pub game_id: i32,
    pub user_id: i32,
    pub rental_date: Date,
    pub return_date: Date,
    pub picked_up: bool,
    pub title: String,
    pub photo_filename: String,
    pub name: String,
    pub surname: String,
    pub extension_date: Option<Date>,
}

/// An active rental of a user with its game, as the user sees it.
#[derive(Debug, PartialEq, Eq)]
pub struct GetUserRentalsQueryResult {
    pub id: i32,
    pub game_id: i32,
    pub rental_date: Date,
    pub return_date: Date,
    pub picked_up: bool,
    pub title: String,
    pub photo_filename: String,
    pub extension_date: Option<Date>,
    pub is_favourite: bool,
}

/// An active rental of a user with its game, as an administrator sees it.
#[derive(Debug, PartialEq, Eq)]
pub struct GetUserRentalsAdminQueryResult {
    pub id: i32,
    pub game_id: i32,
    pub rental_date: Date,
    pub return_date: Date,
    pub picked_up: bool,
    pub title: String,
    pub photo_filename: String,
    pub extension_date: Option<Date>,
}

/// A closed rental with its game and its renter.
#[derive(Debug, PartialEq, Eq)]
pub struct GetRentalHistoryQueryResult {
    pub id: i32,
    pub game_id: i32,
    pub user_id: i32,
    pub rental_date: Date,
    pub return_date: Date,
    pub picked_up: bool,
    pub title: String,
    pub photo_filename: String,
    pub name: String,
    pub surname: String,
}

/// A closed rental of a user with its game, as the user sees it.
#[derive(Debug, PartialEq, Eq)]
pub struct GetUserRentalHistoryQueryResult {
    pub id: i32,
    pub game_id: i32,
    pub rental_date: Date,
    pub return_date: Date,
    pub picked_up: bool,
    pub title: String,
    pub photo_filename: String,
    pub is_favourite: bool,
}

/// A closed rental of a user with its game, as an administrator sees it.
#[derive(Debug, PartialEq, Eq)]
pub struct GetUserRentalHistoryAdminQueryResult {
    pub id: i32,
    pub game_id: i32,
    pub rental_date: Date,
    pub return_date: Date,
    pub picked_up: bool,
    pub title: String,
    pub photo_filename: String,
}

/// The key by which users are listed: the surname.
pub open spec fn surname_of() -> spec_fn(User) -> String {
    |u: User| u.surname
}

/// The key by which board games are listed: the title.
pub open spec fn title_of() -> spec_fn(BoardGame) -> String {
    |g: BoardGame| g.title
}

/// The key by which active rentals are listed: the rental date.
pub open spec fn rental_date_of() -> spec_fn(Rental) -> Date {
    |r: Rental| r.rental_date
}

/// The key by which the history is listed: the return date.
pub open spec fn return_date_of() -> spec_fn(RentalHistory) -> Date {
    |h: RentalHistory| h.return_date
}

/// The row of a user in the list of users: the user.
pub open spec fn user_itself() -> spec_fn(User) -> User {
    |u: User| u
}

impl DbView {
    /// The return date of the active rental of a game, if it is rented.
    pub open spec fn rented_until(self, game_id: i32) -> Option<Date> {
        match self.rental_of_game(game_id) {
            Some(rental) => Some(rental.return_date),
            None => None,
        }
    }

    /// The row of a game in the catalogue of the user `user_id`.
    pub open spec fn board_game_row(self, user_id: i32) -> spec_fn(
        BoardGame,
    ) -> GetBoardGamesQueryResult {
        |g: BoardGame|
            GetBoardGamesQueryResult {
                id: g.id,
                title: g.title,
                photo_filename: g.photo_filename,
                min_players: g.min_players,
                max_players: g.max_players,
                min_playtime: g.min_playtime,
                max_playtime: g.max_playtime,
                return_date: self.rented_until(g.id),
                is_favourite: self.is_favourite(user_id, g.id),
            }
    }

    /// The row of a game in the catalogue of the administrators: the game and its
    /// active rental.
    pub open spec fn board_game_admin_row(self) -> spec_fn(BoardGame) -> (
        BoardGame,
        Option<Rental>,
    ) {
        |g: BoardGame| (g, self.rental_of_game(g.id))
    }

    /// The row of an active rental in the list of all rentals.
    pub open spec fn rental_row(self) -> spec_fn(Rental) -> GetRentalsQueryResult {
        |r: Rental|
            GetRentalsQueryResult {
                id: r.id,
                game_id: r.game_id,
                user_id: r.user_id,
                rental_date: r.rental_date,
                return_date: r.return_date,
                picked_up: r.picked_up,
                title: self.board_game(r.game_id)->0.title,
                photo_filename: self.board_game(r.game_id)->0.photo_filename,
                name: self.user(r.user_id)->0.name,
                surname: self.user(r.user_id)->0.surname,
                extension_date: r.extension_date,
            }
    }

    /// The row of an active rental in its renter's own list.
    pub open spec fn user_rental_row(self) -> spec_fn(Rental) -> GetUserRentalsQueryResult {
        |r: Rental|
            GetUserRentalsQueryResult {
                id: r.id,
                game_id: r.game_id,
                rental_date: r.rental_date,
                return_date: r.return_date,
                picked_up: r.picked_up,
                title: self.board_game(r.game_id)->0.title,
                photo_filename: self.board_game(r.game_id)->0.photo_filename,
                extension_date: r.extension_date,
                is_favourite: self.is_favourite(r.user_id, r.game_id),
            }
    }

    /// The row of an active rental in the list that an administrator sees of a user.
    pub open spec fn user_rental_admin_row(self) -> spec_fn(
        Rental,
    ) -> GetUserRentalsAdminQueryResult {
        |r: Rental|
            GetUserRentalsAdminQueryResult {
                id: r.id,
                game_id: r.game_id,
                rental_date: r.rental_date,
                return_date: r.return_date,
                picked_up: r.picked_up,
                title: self.board_game(r.game_id)->0.title,
                photo_filename: self.board_game(r.game_id)->0.photo_filename,
                extension_date: r.extension_date,
            }
    }

    /// The row of a closed rental in the list of the whole history.
    pub open spec fn history_row(self) -> spec_fn(RentalHistory) -> GetRentalHistoryQueryResult {
        |h: RentalHistory|
            GetRentalHistoryQueryResult {
                id: h.id,
                game_id: h.game_id,
                user_id: h.user_id,
                rental_date: h.rental_date,
                return_date: h.return_date,
                picked_up: h.picked_up,
                title: self.board_game(h.game_id)->0.title,
                photo_filename: self.board_game(h.game_id)->0.photo_filename,
                name: self.user(h.user_id)->0.name,
                surname: self.user(h.user_id)->0.surname,
            }
    }

    /// The row of a closed rental in its renter's own list.
    pub open spec fn user_history_row(self) -> spec_fn(
        RentalHistory,
    ) -> GetUserRentalHistoryQueryResult {
        |h: RentalHistory|
            GetUserRentalHistoryQueryResult {
                id: h.id,
                game_id: h.game_id,
                rental_date: h.rental_date,
                return_date: h.return_date,
                picked_up: h.picked_up,
                title: self.board_game(h.game_id)->0.title,
                photo_filename: self.board_game(h.game_id)->0.photo_filename,
                is_favourite: self.is_favourite(h.user_id, h.game_id),
            }
    }

    /// The row of a closed rental in the list that an administrator sees of a user.
    pub open spec fn user_history_admin_row(self) -> spec_fn(
        RentalHistory,
    ) -> GetUserRentalHistoryAdminQueryResult {
        |h: RentalHistory|
            GetUserRentalHistoryAdminQueryResult {
                id: h.id,
                game_id: h.game_id,
                rental_date: h.rental_date,
                return_date: h.return_date,
                picked_up: h.picked_up,
                title: self.board_game(h.game_id)->0.title,
                photo_filename: self.board_game(h.game_id)->0.photo_filename,
            }
    }

    /// The active rentals of the user `user_id`, in the order of the store.
    pub open spec fn rentals_of(self, user_id: i32) -> Seq<Rental> {
        self.rentals.filter(linked::<Rental>(true, user_id))
    }

    /// The history records of the user `user_id`, in the order of the store.
    pub open spec fn history_of_user(self, user_id: i32) -> Seq<RentalHistory> {
        self.rental_history.filter(linked::<RentalHistory>(true, user_id))
    }

    /// Whether `rows` lists all users by surname.
    pub open spec fn lists_users(self, rows: Seq<User>) -> bool {
        is_listing(rows, self.users, surname_of(), false, user_itself())
    }

    /// Whether `rows` lists the catalogue by title as the user `user_id` sees it.
    pub open spec fn lists_board_games(
        self,
        rows: Seq<GetBoardGamesQueryResult>,
        user_id: i32,
    ) -> bool {
        is_listing(rows, self.board_games, title_of(), false, self.board_game_row(user_id))
    }

    /// Whether `rows` lists the catalogue by title as an administrator sees it.
    pub open spec fn lists_board_games_admin(self, rows: Seq<(BoardGame, Option<Rental>)>) -> bool {
        is_listing(rows, self.board_games, title_of(), false, self.board_game_admin_row())
    }

    /// Whether `rows` lists all active rentals by rental date.
    pub open spec fn lists_rentals(self, rows: Seq<GetRentalsQueryResult>) -> bool {
        is_listing(rows, self.rentals, rental_date_of(), false, self.rental_row())
    }

    /// Whether `rows` lists the active rentals of the user `user_id` by rental date,
    /// as the user sees them.
    pub open spec fn lists_user_rentals(
        self,
        rows: Seq<GetUserRentalsQueryResult>,
        user_id: i32,
    ) -> bool {
        is_listing(
            rows,
            self.rentals_of(user_id),
            rental_date_of(),
            false,
            self.user_rental_row(),
        )
    }

    /// Whether `rows` lists the active rentals of the user `user_id` by rental date,
    /// as an administrator sees them.
    pub open spec fn lists_user_rentals_admin(
        self,
        rows: Seq<GetUserRentalsAdminQueryResult>,
        user_id: i32,
    ) -> bool {
        is_listing(
            rows,
            self.rentals_of(user_id),
            rental_date_of(),
            false,
            self.user_rental_admin_row(),
        )
    }

    /// Whether `rows` lists the whole history, latest return first.
    pub open spec fn lists_history(self, rows: Seq<GetRentalHistoryQueryResult>) -> bool {
        is_listing(rows, self.rental_history, return_date_of(), true, self.history_row())
    }

    /// Whether `rows` lists the history of the user `user_id`, latest return first,
    /// as the user sees it.
    pub open spec fn lists_user_history(
        self,
        rows: Seq<GetUserRentalHistoryQueryResult>,
        user_id: i32,
    ) -> bool {
        is_listing(
            rows,
            self.history_of_user(user_id),
            return_date_of(),
            true,
            self.user_history_row(),
        )
    }

    /// Whether `rows` lists the history of the user `user_id`, latest return first,
    /// as an administrator sees it.
    pub open spec fn lists_user_history_admin(
        self,
        rows: Seq<GetUserRentalHistoryAdminQueryResult>,
        user_id: i32,
    ) -> bool {
        is_listing(
            rows,
            self.history_of_user(user_id),
            return_date_of(),
            true,
            self.user_history_admin_row(),
        )
    }
}

/// The surnames of the users, position by position.
fn surnames(users: &Vec<User>) -> (keys: Vec<String>)
    ensures
        keys@ == users@.map_values(surname_of()),
{
    let mut keys: Vec<String> = Vec::new();
    let mut i: usize = 0;
    while i < users.len()
        invariant
            i <= users.len(),
            keys.len() == i,
            forall|j: int| 0 <= j < i ==> #[trigger] keys@[j] == users@[j].surname,
        decreases users.len() - i,
    {
        keys.push(users[i].surname.clone());
        i = i + 1;
    }
    assert(keys@ =~= users@.map_values(surname_of()));
    keys
}

/// The titles of the games, position by position.
fn titles(games: &Vec<BoardGame>) -> (keys: Vec<String>)
    ensures
        keys@ == games@.map_values(title_of()),
{
    let mut keys: Vec<String> = Vec::new();
    let mut i: usize = 0;
    while i < games.len()
        invariant
            i <= games.len(),
            keys.len() == i,
            forall|j: int| 0 <= j < i ==> #[trigger] keys@[j] == games@[j].title,
        decreases games.len() - i,
    {
        keys.push(games[i].title.clone());
        i = i + 1;
    }
    assert(keys@ =~= games@.map_values(title_of()));
    keys
}

/// The rental dates of the rentals, position by position.
fn rental_dates(rentals: &Vec<Rental>) -> (keys: Vec<Date>)
    ensures
        keys@ == rentals@.map_values(rental_date_of()),
{
    let mut keys: Vec<Date> = Vec::new();
    let mut i: usize = 0;
    while i < rentals.len()
        invariant
            i <= rentals.len(),
            keys.len() == i,
            forall|j: int| 0 <= j < i ==> #[trigger] keys@[j] == rentals@[j].rental_date,
        decreases rentals.len() - i,
    {
        keys.push(rentals[i].rental_date);
        i = i + 1;
    }
    assert(keys@ =~= rentals@.map_values(rental_date_of()));
    keys
}

/// The return dates of the history records, position by position.
fn return_dates(records: &Vec<RentalHistory>) -> (keys: Vec<Date>)
    ensures
        keys@ == records@.map_values(return_date_of()),
{
    let mut keys: Vec<Date> = Vec::new();
    let mut i: usize = 0;
    while i < records.len()
        invariant
            i <= records.len(),
            keys.len() == i,
            forall|j: int| 0 <= j < i ==> #[trigger] keys@[j] == records@[j].return_date,
        decreases records.len() - i,
    {
        keys.push(records[i].return_date);
        i = i + 1;
    }
    assert(keys@ =~= records@.map_values(return_date_of()));
    keys
}

impl DatabaseManager {
    /// The stored game that a row refers to.
    fn game_of(&self, game_id: i32) -> (game: BoardGame)
        requires
            self.wf(),
            self@.board_game(game_id) is Some,
        ensures
            Some(game) == self@.board_game(game_id),
    {
        match self.get_board_game(game_id) {
            Some(game) => game,
            None => unreached(),
        }
    }

    /// The stored user that a row refers to.
    fn user_of(&self, user_id: i32) -> (user: User)
        requires
            self.wf(),
            self@.user(user_id) is Some,
        ensures
            Some(user) == self@.user(user_id),
    {
        match self.get_user(user_id) {
            Some(user) => user,
            None => unreached(),
        }
    }

    /// All users by surname.
    pub fn get_users(&self) -> (rows: Vec<User>)
        requires
            self.wf(),
        ensures
            self@.lists_users(rows@),
    {
        let users = self.user_rows();
        let keys = surnames(users);
        let listed = arrange(users, &keys, false);
        assert(listed@ =~= listed@.map_values(user_itself()));
        listed
    }

    /// The catalogue as the user `user_id` sees it: all games by title, each with
    /// the return date of its active rental and with the user's mark.
    pub fn get_board_games(&self, user_id: i32) -> (rows: Vec<GetBoardGamesQueryResult>)
        requires
            self.wf(),
        ensures
            self@.lists_board_games(rows@, user_id),
    {
        let games = self.game_rows();
        let keys = titles(games);
        let listed = arrange(games, &keys, false);
        let mut rows: Vec<GetBoardGamesQueryResult> = Vec::new();
        let mut i: usize = 0;
        while i < listed.len()
            invariant
                self.wf(),
                i <= listed.len(),
                rows.len() == i,
                forall|j: int|
                    0 <= j < i ==> #[trigger] rows@[j] == self@.board_game_row(user_id)(
                        listed@[j],
                    ),
            decreases listed.len() - i,
        {
            let game = listed[i].copy();
            let return_date: Option<Date> = match self.get_game_rental_status(game.id) {
                Some(rental) => Some(rental.return_date),
                None => None,
            };
            let is_favourite: bool = self.is_favourite(user_id, game.id);
            rows.push(
                GetBoardGamesQueryResult {
                    id: game.id,
                    title: game.title,
                    photo_filename: game.photo_filename,
                    min_players: game.min_players,
                    max_players: game.max_players,
                    min_playtime: game.min_playtime,
                    max_playtime: game.max_playtime,
                    return_date,
                    is_favourite,
                },
            );
            i = i + 1;
        }
        assert(rows@ =~= listed@.map_values(self@.board_game_row(user_id)));
        rows
    }

    /// The catalogue as an administrator sees it: all games by title, each with its
    /// active rental.
    pub fn get_board_games_admin(&self) -> (rows: Vec<(BoardGame, Option<Rental>)>)
        requires
            self.wf(),
        ensures
            self@.lists_board_games_admin(rows@),
    {
        let games = self.game_rows();
        let keys = titles(games);
        let listed = arrange(games, &keys, false);
        let mut rows: Vec<(BoardGame, Option<Rental>)> = Vec::new();
        let mut i: usize = 0;
        while i < listed.len()
            invariant
                self.wf(),
                i <= listed.len(),
                rows.len() == i,
                forall|j: int|
                    0 <= j < i ==> #[trigger] rows@[j] == self@.board_game_admin_row()(
                        listed@[j],
                    ),
            decreases listed.len() - i,
        {
            let game = listed[i].copy();
            let rental = self.get_game_rental_status(game.id);
            rows.push((game, rental));
            i = i + 1;
        }
        assert(rows@ =~= listed@.map_values(self@.board_game_admin_row()));
        rows
    }

    /// All active rentals by rental date, each with its game and its renter.
    pub fn get_rentals(&self) -> (rows: Vec<GetRentalsQueryResult>)
        requires
            self.wf(),
        ensures
            self@.lists_rentals(rows@),
    {
        let source = self.rental_rows();
        let keys = rental_dates(source);
        let listed = arrange(source, &keys, false);
        let mut rows: Vec<GetRentalsQueryResult> = Vec::new();
        let mut i: usize = 0;
        while i < listed.len()
            invariant
                self.wf(),
                i <= listed.len(),
                rows.len() == i,
                forall|j: int|
                    0 <= j < listed.len() ==> self@.rentals.contains(#[trigger] listed@[j]),
                forall|j: int|
                    0 <= j < i ==> #[trigger] rows@[j] == self@.rental_row()(listed@[j]),
            decreases listed.len() - i,
        {
            let r: Rental = listed[i];
            assert(self@.rentals.contains(listed@[i as int]));
            let game = self.game_of(r.game_id);
            let user = self.user_of(r.user_id);
            rows.push(
                GetRentalsQueryResult {
                    id: r.id,
                    game_id: r.game_id,
                    user_id: r.user_id,
                    rental_date: r.rental_date,
                    return_date: r.return_date,
                    picked_up: r.picked_up,
                    title: game.title,
                    photo_filename: game.photo_filename,
                    name: user.name,
                    surname: user.surname,
                    extension_date: r.extension_date,
                },
            );
            i = i + 1;
        }
        assert(rows@ =~= listed@.map_values(self@.rental_row()));
        rows
    }

    /// The active rentals of a user by rental date, each with its game and with the
    /// user's mark on the game.
    pub fn get_user_rentals(&self, user_id: i32) -> (rows: Vec<GetUserRentalsQueryResult>)
        requires
            self.wf(),
        ensures
            self@.lists_user_rentals(rows@, user_id),
    {
        let all = self.rental_rows();
        let source = select_linked(all, true, user_id, true);
        proof {
            assert forall|j: int| 0 <= j < source@.len() implies self@.rentals.contains(
                #[trigger] source@[j],
            ) by {
                lemma_filter_member(self@.rentals, linked::<Rental>(true, user_id), j);
            }
        }
        let keys = rental_dates(&source);
        let listed = arrange(&source, &keys, false);
        let mut rows: Vec<GetUserRentalsQueryResult> = Vec::new();
        let mut i: usize = 0;
        while i < listed.len()
            invariant
                self.wf(),
                i <= listed.len(),
                rows.len() == i,
                forall|j: int|
                    0 <= j < source@.len() ==> self@.rentals.contains(#[trigger] source@[j]),
                forall|j: int| 0 <= j < listed.len() ==> source@.contains(#[trigger] listed@[j]),
                forall|j: int|
                    0 <= j < i ==> #[trigger] rows@[j] == self@.user_rental_row()(listed@[j]),
            decreases listed.len() - i,
        {
            let r: Rental = listed[i];
            assert(source@.contains(listed@[i as int]));
            assert(self@.rentals.contains(listed@[i as int]));
            let game = self.game_of(r.game_id);
            let is_favourite: bool = self.is_favourite(r.user_id, r.game_id);
            rows.push(
                GetUserRentalsQueryResult {
                    id: r.id,
                    game_id: r.game_id,
                    rental_date: r.rental_date,
                    return_date: r.return_date,
                    picked_up: r.picked_up,
                    title: game.title,
                    photo_filename: game.photo_filename,
                    extension_date: r.extension_date,
                    is_favourite,
                },
            );
            i = i + 1;
        }
        assert(rows@ =~= listed@.map_values(self@.user_rental_row()));
        rows
    }

    /// The active rentals of a user by rental date, each with its game, for an
    /// administrator.
    pub fn get_user_rentals_admin(&self, user_id: i32) -> (rows: Vec<
        GetUserRentalsAdminQueryResult,
    >)
        requires
            self.wf(),
        ensures
            self@.lists_user_rentals_admin(rows@, user_id),
    {
        let all = self.rental_rows();
        let source = select_linked(all, true, user_id, true);
        proof {
            assert forall|j: int| 0 <= j < source@.len() implies self@.rentals.contains(
                #[trigger] source@[j],
            ) by {
                lemma_filter_member(self@.rentals, linked::<Rental>(true, user_id), j);
            }
        }
        let keys = rental_dates(&source);
        let listed = arrange(&source, &keys, false);
        let mut rows: Vec<GetUserRentalsAdminQueryResult> = Vec::new();
        let mut i: usize = 0;
        while i < listed.len()
            invariant
                self.wf(),
                i <= listed.len(),
                rows.len() == i,
                forall|j: int|
                    0 <= j < source@.len() ==> self@.rentals.contains(#[trigger] source@[j]),
                forall|j: int| 0 <= j < listed.len() ==> source@.contains(#[trigger] listed@[j]),
                forall|j: int|
                    0 <= j < i ==> #[trigger] rows@[j] == self@.user_rental_admin_row()(listed@[j]),
            decreases listed.len() - i,
        {
            let r: Rental = listed[i];
            assert(source@.contains(listed@[i as int]));
            assert(self@.rentals.contains(listed@[i as int]));
            let game = self.game_of(r.game_id);
            rows.push(
                GetUserRentalsAdminQueryResult {
                    id: r.id,
                    game_id: r.game_id,
                    rental_date: r.rental_date,
                    return_date: r.return_date,
                    picked_up: r.picked_up,
                    title: game.title,
                    photo_filename: game.photo_filename,
                    extension_date: r.extension_date,
                },
            );
            i = i + 1;
        }
        assert(rows@ =~= listed@.map_values(self@.user_rental_admin_row()));
        rows
    }

    /// The whole history, latest return first, each record with its game and its
    /// renter.
    pub fn get_rental_history(&self) -> (rows: Vec<GetRentalHistoryQueryResult>)
        requires
            self.wf(),
        ensures
            self@.lists_history(rows@),
    {
        let source = self.history_rows();
        let keys = return_dates(source);
        let listed = arrange(source, &keys, true);
        let mut rows: Vec<GetRentalHistoryQueryResult> = Vec::new();
        let mut i: usize = 0;
        while i < listed.len()
            invariant
                self.wf(),
                i <= listed.len(),
                rows.len() == i,
                forall|j: int|
                    0 <= j < listed.len() ==> self@.rental_history.contains(#[trigger] listed@[j]),
                forall|j: int|
                    0 <= j < i ==> #[trigger] rows@[j] == self@.history_row()(listed@[j]),
            decreases listed.len() - i,
        {
            let h: RentalHistory = listed[i];
            assert(self@.rental_history.contains(listed@[i as int]));
            let game = self.game_of(h.game_id);
            let user = self.user_of(h.user_id);
            rows.push(
                GetRentalHistoryQueryResult {
                    id: h.id,
                    game_id: h.game_id,
                    user_id: h.user_id,
                    rental_date: h.rental_date,
                    return_date: h.return_date,
                    picked_up: h.picked_up,
                    title: game.title,
                    photo_filename: game.photo_filename,
                    name: user.name,
                    surname: user.surname,
                },
            );
            i = i + 1;
        }
        assert(rows@ =~= listed@.map_values(self@.history_row()));
        rows
    }

    /// The history of a user, latest return first, each record with its game and with
    /// the user's mark on the game.
    pub fn get_user_rental_history(&self, user_id: i32) -> (rows: Vec<
        GetUserRentalHistoryQueryResult,
    >)
        requires
            self.wf(),
        ensures
            self@.lists_user_history(rows@, user_id),
    {
        let all = self.history_rows();
        let source = select_linked(all, true, user_id, true);
        proof {
            assert forall|j: int| 0 <= j < source@.len() implies self@.rental_history.contains(
                #[trigger] source@[j],
            ) by {
                lemma_filter_member(
                    self@.rental_history,
                    linked::<RentalHistory>(true, user_id),
                    j,
                );
            }
        }
        let keys = return_dates(&source);
        let listed = arrange(&source, &keys, true);
        let mut rows: Vec<GetUserRentalHistoryQueryResult> = Vec::new();
        let mut i: usize = 0;
        while i < listed.len()
            invariant
                self.wf(),
                i <= listed.len(),
                rows.len() == i,
                forall|j: int|
                    0 <= j < source@.len() ==> self@.rental_history.contains(#[trigger] source@[j]),
                forall|j: int| 0 <= j < listed.len() ==> source@.contains(#[trigger] listed@[j]),
                forall|j: int|
                    0 <= j < i ==> #[trigger] rows@[j] == self@.user_history_row()(listed@[j]),
            decreases listed.len() - i,
        {
            let h: RentalHistory = listed[i];
            assert(source@.contains(listed@[i as int]));
            assert(self@.rental_history.contains(listed@[i as int]));
            let game = self.game_of(h.game_id);
            let is_favourite: bool = self.is_favourite(h.user_id, h.game_id);
            rows.push(
                GetUserRentalHistoryQueryResult {
                    id: h.id,
                    game_id: h.game_id,
                    rental_date: h.rental_date,
                    return_date: h.return_date,
                    picked_up: h.picked_up,
                    title: game.title,
                    photo_filename: game.photo_filename,
                    is_favourite,
                },
            );
            i = i + 1;
        }
        assert(rows@ =~= listed@.map_values(self@.user_history_row()));
        rows
    }

    /// The history of a user, latest return first, each record with its game, for an
    /// administrator.
    pub fn get_user_rental_history_admin(&self, user_id: i32) -> (rows: Vec<
        GetUserRentalHistoryAdminQueryResult,
    >)
        requires
            self.wf(),
        ensures
            self@.lists_user_history_admin(rows@, user_id),
    {
        let all = self.history_rows();
        let source = select_linked(all, true, user_id, true);
        proof {
            assert forall|j: int| 0 <= j < source@.len() implies self@.rental_history.contains(
                #[trigger] source@[j],
            ) by {
                lemma_filter_member(
                    self@.rental_history,
                    linked::<RentalHistory>(true, user_id),
                    j,
                );
            }
        }
        let keys = return_dates(&source);
        let listed = arrange(&source, &keys, true);
        let mut rows: Vec<GetUserRentalHistoryAdminQueryResult> = Vec::new();
        let mut i: usize = 0;
        while i < listed.len()
            invariant
                self.wf(),
                i <= listed.len(),
                rows.len() == i,
                forall|j: int|
                    0 <= j < source@.len() ==> self@.rental_history.contains(#[trigger] source@[j]),
                forall|j: int| 0 <= j < listed.len() ==> source@.contains(#[trigger] listed@[j]),
                forall|j: int|
                    0 <= j < i ==> #[trigger] rows@[j] == self@.user_history_admin_row()(
                        listed@[j],
                    ),
            decreases listed.len() - i,
        {
            let h: RentalHistory = listed[i];
            assert(source@.contains(listed@[i as int]));
            assert(self@.rental_history.contains(listed@[i as int]));
            let game = self.game_of(h.game_id);
            rows.push(
                GetUserRentalHistoryAdminQueryResult {
                    id: h.id,
                    game_id: h.game_id,
                    rental_date: h.rental_date,
                    return_date: h.return_date,
                    picked_up: h.picked_up,
                    title: game.title,
                    photo_filename: game.photo_filename,
                },
            );
            i = i + 1;
        }
        assert(rows@ =~= listed@.map_values(self@.user_history_admin_row()));
        rows
    }
}

} // verus!
