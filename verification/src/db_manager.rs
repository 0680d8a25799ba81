//! The store: users, board games, active rentals, the rental history and favourites,
//! held in memory under the constraints that a relational store would enforce.
//!
//! Every operation keeps the constraints of [`DbView::consistent`]: keys and e-mail
//! addresses are unique, a game has at most one active rental, every stored game is
//! valid, and every rental, history record and favourite refers to a stored user
//! and a stored game. Deleting a user or a game deletes what refers to it. New
//! games and new rentals get their ids in sequence, and no id is given twice.

use crate::board_game::{BoardGame, ValidationError};
use crate::rental::{history_of, Favourite, Rental, RentalHistory};
use crate::table::{
    distinct_by, find_by, has_by, index_by, lemma_filter_distinct, lemma_filter_member,
    lemma_find_unique, lemma_push_distinct, lemma_push_has, lemma_remove_distinct,
    lemma_update_distinct, links, select_linked, unlinked, without_key, Duplicable, Linked,
};
use crate::user::{found_penalized, User};
use vstd::prelude::*;

verus! {

/// Why the store refuses an operation.
#[derive(Clone, Copy, Debug, PartialEq, Eq)]
pub enum DbErr {
    /// A row with the same key, e-mail address or rented game is already stored.
    Conflict,
    /// The row refers to a user or a game that is not stored.
    MissingReference,
    /// The row to update or to move is not stored.
    RecordNotFound,
    /// The board game breaks a constraint of the catalogue.
    Invalid(ValidationError),
    /// The store has no id left to assign.
    OutOfIds,
}

/// The store, held in memory. Its tables are reached through its operations only.
pub struct DatabaseManager {
    users: Vec<User>,
    board_games: Vec<BoardGame>,
    rentals: Vec<Rental>,
    rental_history: Vec<RentalHistory>,
    favourites: Vec<Favourite>,
    last_game_id: i32,
    last_rental_id: i32,
}

/// The content of the store: its five tables, each in the order of insertion, and
/// the ids that the next new game and the next new rental get.
pub struct DbView {
    pub users: Seq<User>,
    pub board_games: Seq<BoardGame>,
    pub rentals: Seq<Rental>,
    pub rental_history: Seq<RentalHistory>,
    pub favourites: Seq<Favourite>,
    /// The id of the next new game; past the largest id where none is left.
    pub next_game_id: int,
    /// The id of the next new rental; past the largest id where none is left.
    pub next_rental_id: int,
}

/// The key of a user: the id.
pub open spec fn user_key() -> spec_fn(User) -> i32 {
    |u: User| u.id
}

/// The e-mail address of a user, which is unique too.
pub open spec fn user_email() -> spec_fn(User) -> Seq<char> {
    |u: User| u.email@
}

/// The key of a board game: the id.
pub open spec fn game_key() -> spec_fn(BoardGame) -> i32 {
    |g: BoardGame| g.id
}

/// The key of a rental: the id.
pub open spec fn rental_key() -> spec_fn(Rental) -> i32 {
    |r: Rental| r.id
}

/// The game of a rental, which is unique among the active rentals.
pub open spec fn rental_game() -> spec_fn(Rental) -> i32 {
    |r: Rental| r.game_id
}

/// The key of a history record: the id of the rental it closes.
pub open spec fn history_key() -> spec_fn(RentalHistory) -> i32 {
    |h: RentalHistory| h.id
}

/// The key of a favourite: the user and the game.
pub open spec fn favourite_key() -> spec_fn(Favourite) -> (i32, i32) {
    |f: Favourite| (f.user_id, f.game_id)
}

/// Whether every row of `rows` refers to a user of `users` and a game of `games`.
pub open spec fn references_hold<T: Linked>(
    rows: Seq<T>,
    users: Seq<User>,
    games: Seq<BoardGame>,
) -> bool {
    forall|i: int|
        0 <= i < rows.len() ==> has_by(users, user_key(), (#[trigger] rows[i]).user()) && has_by(
            games,
            game_key(),
            rows[i].game(),
        )
}

/// Whether every game of `games` meets the constraints of the catalogue, and none
/// has the id 0, which stands for a game that is not stored yet.
pub open spec fn all_valid(games: Seq<BoardGame>) -> bool {
    forall|i: int| 0 <= i < games.len() ==> (#[trigger] games[i]).valid() && games[i].id != 0
}

/// Whether no rental of `rentals` has the id 0, which stands for a rental that is
/// not stored yet.
pub open spec fn all_stored(rentals: Seq<Rental>) -> bool {
    forall|i: int| 0 <= i < rentals.len() ==> (#[trigger] rentals[i]).id != 0
}

impl DbView {
    /// The constraints of the store.
    pub open spec fn consistent(self) -> bool {
        &&& distinct_by(self.users, user_key())
        &&& distinct_by(self.users, user_email())
        &&& distinct_by(self.board_games, game_key())
        &&& all_valid(self.board_games)
        &&& distinct_by(self.rentals, rental_key())
        &&& distinct_by(self.rentals, rental_game())
        &&& all_stored(self.rentals)
        &&& references_hold(self.rentals, self.users, self.board_games)
        &&& distinct_by(self.rental_history, history_key())
        &&& references_hold(self.rental_history, self.users, self.board_games)
        &&& distinct_by(self.favourites, favourite_key())
        &&& references_hold(self.favourites, self.users, self.board_games)
        &&& self.ids_ahead()
    }

    /// Whether the ids to assign next are ahead of every id of a stored game and of
    /// an active rental, so that a new row gets an id that no row has.
    pub open spec fn ids_ahead(self) -> bool {
        &&& 1 <= self.next_game_id <= i32::MAX + 1
        &&& 1 <= self.next_rental_id <= i32::MAX + 1
        &&& forall|i: int|
            0 <= i < self.board_games.len() ==> (#[trigger] self.board_games[i]).id
                < self.next_game_id
        &&& forall|i: int|
            0 <= i < self.rentals.len() ==> (#[trigger] self.rentals[i]).id < self.next_rental_id
    }

    /// Whether no id is left for a new board game.
    pub open spec fn game_ids_exhausted(self) -> bool {
        self.next_game_id > i32::MAX
    }

    /// Whether no id is left for a new rental.
    pub open spec fn rental_ids_exhausted(self) -> bool {
        self.next_rental_id > i32::MAX
    }

    /// The user with the given id.
    pub open spec fn user(self, id: i32) -> Option<User> {
        find_by(self.users, user_key(), id)
    }

    /// The board game with the given id.
    pub open spec fn board_game(self, id: i32) -> Option<BoardGame> {
        find_by(self.board_games, game_key(), id)
    }

    /// The active rental with the given id.
    pub open spec fn rental(self, id: i32) -> Option<Rental> {
        find_by(self.rentals, rental_key(), id)
    }

    /// The active rental of the given game.
    pub open spec fn rental_of_game(self, game_id: i32) -> Option<Rental> {
        find_by(self.rentals, rental_game(), game_id)
    }

    /// The history record with the given id.
    pub open spec fn history(self, id: i32) -> Option<RentalHistory> {
        find_by(self.rental_history, history_key(), id)
    }

    /// Whether the user has marked the game as a favourite.
    pub open spec fn is_favourite(self, user_id: i32, game_id: i32) -> bool {
        has_by(self.favourites, favourite_key(), (user_id, game_id))
    }

    /// The content after the user `id` and all that refers to it were deleted.
    pub open spec fn without_user(self, id: i32) -> DbView {
        DbView {
            users: without_key(self.users, user_key(), id),
            rentals: self.rentals.filter(unlinked::<Rental>(true, id)),
            rental_history: self.rental_history.filter(unlinked::<RentalHistory>(true, id)),
            favourites: self.favourites.filter(unlinked::<Favourite>(true, id)),
            ..self
        }
    }

    /// The content after the game `id` and all that refers to it were deleted.
    pub open spec fn without_game(self, id: i32) -> DbView {
        DbView {
            board_games: without_key(self.board_games, game_key(), id),
            rentals: self.rentals.filter(unlinked::<Rental>(false, id)),
            rental_history: self.rental_history.filter(unlinked::<RentalHistory>(false, id)),
            favourites: self.favourites.filter(unlinked::<Favourite>(false, id)),
            ..self
        }
    }

    /// Why the store refuses to save `rental`, if it does for another reason than a
    /// lack of ids: the rental to replace is not stored, its user or game is not
    /// stored, or the game is held by another active rental.
    pub open spec fn rental_refusal(self, rental: Rental) -> Option<DbErr> {
        if rental.id != 0 && !has_by(self.rentals, rental_key(), rental.id) {
            Some(DbErr::RecordNotFound)
        } else if !has_by(self.users, user_key(), rental.user_id) || !has_by(
            self.board_games,
            game_key(),
            rental.game_id,
        ) {
            Some(DbErr::MissingReference)
        } else if (rental.id == 0 && has_by(self.rentals, rental_game(), rental.game_id)) || (
        rental.id != 0 && rented_by_another(self.rentals, rental.id, rental.game_id)) {
            Some(DbErr::Conflict)
        } else {
            None
        }
    }

    /// Why the store refuses to take a row that refers to `user_id` and `game_id`
    /// and whose key is taken if `taken`.
    pub open spec fn row_refusal(self, user_id: i32, game_id: i32, taken: bool) -> Option<DbErr> {
        if !has_by(self.users, user_key(), user_id) || !has_by(
            self.board_games,
            game_key(),
            game_id,
        ) {
            Some(DbErr::MissingReference)
        } else if taken {
            Some(DbErr::Conflict)
        } else {
            None
        }
    }

    /// The content after the active rental `id` was moved into the history.
    pub open spec fn archived(self, rental: Rental) -> DbView {
        DbView {
            rentals: without_key(self.rentals, rental_key(), rental.id),
            rental_history: self.rental_history.push(history_of(rental)),
            ..self
        }
    }
}

impl View for DatabaseManager {
    type V = DbView;

    closed spec fn view(&self) -> DbView {
        DbView {
            users: self.users@,
            board_games: self.board_games@,
            rentals: self.rentals@,
            rental_history: self.rental_history@,
            favourites: self.favourites@,
            next_game_id: self.last_game_id + 1,
            next_rental_id: self.last_rental_id + 1,
        }
    }
}

/// The position of the user with the given id.
fn user_position(users: &Vec<User>, id: i32) -> (r: Option<usize>)
    ensures
        match r {
            Some(k) => k < users.len() && users[k as int].id == id,
            None => !has_by(users@, user_key(), id),
        },
{
    let mut i: usize = 0;
    while i < users.len()
        invariant
            i <= users.len(),
            forall|j: int| 0 <= j < i ==> (#[trigger] users[j]).id != id,
        decreases users.len() - i,
    {
        if users[i].id == id {
            return Some(i);
        }
        i = i + 1;
    }
    None
}

/// The position of a user with the given e-mail address, leaving out position `skip`.
fn email_position(users: &Vec<User>, email: &String, skip: Option<usize>) -> (r: Option<usize>)
    ensures
        match r {
            Some(k) => k < users.len() && users[k as int].email@ == email@ && skip != Some(k),
            None => forall|j: int|
                0 <= j < users.len() && skip != Some(j as usize) ==> (#[trigger] users[j]).email@
                    != email@,
        },
{
    let mut i: usize = 0;
    while i < users.len()
        invariant
            i <= users.len(),
            forall|j: int|
                0 <= j < i && skip != Some(j as usize) ==> (#[trigger] users[j]).email@ != email@,
        decreases users.len() - i,
    {
        let skipped: bool = match skip {
            Some(s) => s == i,
            None => false,
        };
        if !skipped && users[i].email == *email {
            return Some(i);
        }
        i = i + 1;
    }
    None
}

/// The position of the board game with the given id.
fn game_position(games: &Vec<BoardGame>, id: i32) -> (r: Option<usize>)
    ensures
        match r {
            Some(k) => k < games.len() && games[k as int].id == id,
            None => !has_by(games@, game_key(), id),
        },
{
    let mut i: usize = 0;
    while i < games.len()
        invariant
            i <= games.len(),
            forall|j: int| 0 <= j < i ==> (#[trigger] games[j]).id != id,
        decreases games.len() - i,
    {
        if games[i].id == id {
            return Some(i);
        }
        i = i + 1;
    }
    None
}

/// The position of the rental with the given id.
fn rental_position(rentals: &Vec<Rental>, id: i32) -> (r: Option<usize>)
    ensures
        match r {
            Some(k) => k < rentals.len() && rentals[k as int].id == id,
            None => !has_by(rentals@, rental_key(), id),
        },
{
    let mut i: usize = 0;
    while i < rentals.len()
        invariant
            i <= rentals.len(),
            forall|j: int| 0 <= j < i ==> (#[trigger] rentals[j]).id != id,
        decreases rentals.len() - i,
    {
        if rentals[i].id == id {
            return Some(i);
        }
        i = i + 1;
    }
    None
}

/// The position of a rental of the given game, leaving out position `skip`.
fn rented_position(rentals: &Vec<Rental>, game_id: i32, skip: Option<usize>) -> (r: Option<usize>)
    ensures
        match r {
            Some(k) => k < rentals.len() && rentals[k as int].game_id == game_id && skip != Some(
                k,
            ),
            None => forall|j: int|
                0 <= j < rentals.len() && skip != Some(j as usize) ==> (
                #[trigger] rentals[j]).game_id != game_id,
        },
{
    let mut i: usize = 0;
    while i < rentals.len()
        invariant
            i <= rentals.len(),
            forall|j: int|
                0 <= j < i && skip != Some(j as usize) ==> (#[trigger] rentals[j]).game_id
                    != game_id,
        decreases rentals.len() - i,
    {
        let skipped: bool = match skip {
            Some(s) => s == i,
            None => false,
        };
        if !skipped && rentals[i].game_id == game_id {
            return Some(i);
        }
        i = i + 1;
    }
    None
}

/// The position of the history record with the given id.
fn history_position(records: &Vec<RentalHistory>, id: i32) -> (r: Option<usize>)
    ensures
        match r {
            Some(k) => k < records.len() && records[k as int].id == id,
            None => !has_by(records@, history_key(), id),
        },
{
    let mut i: usize = 0;
    while i < records.len()
        invariant
            i <= records.len(),
            forall|j: int| 0 <= j < i ==> (#[trigger] records[j]).id != id,
        decreases records.len() - i,
    {
        if records[i].id == id {
            return Some(i);
        }
        i = i + 1;
    }
    None
}

/// The position of the favourite of the given user and game.
fn favourite_position(favourites: &Vec<Favourite>, user_id: i32, game_id: i32) -> (r: Option<
    usize,
>)
    ensures
        match r {
            Some(k) => k < favourites.len() && favourites[k as int].user_id == user_id
                && favourites[k as int].game_id == game_id,
            None => !has_by(favourites@, favourite_key(), (user_id, game_id)),
        },
{
    let mut i: usize = 0;
    while i < favourites.len()
        invariant
            i <= favourites.len(),
            forall|j: int|
                0 <= j < i ==> favourite_key()(#[trigger] favourites[j]) != (user_id, game_id),
        decreases favourites.len() - i,
    {
        if favourites[i].user_id == user_id && favourites[i].game_id == game_id {
            return Some(i);
        }
        i = i + 1;
    }
    None
}

/// References that hold keep holding for the rows that a cascade leaves, when the
/// users and games it leaves are all but the deleted one.
proof fn lemma_cascade_references<T: Linked>(
    rows: Seq<T>,
    users: Seq<User>,
    games: Seq<BoardGame>,
    users_after: Seq<User>,
    games_after: Seq<BoardGame>,
    by_user: bool,
    id: i32,
)
    requires
        references_hold(rows, users, games),
        forall|k: i32|
            (by_user ==> k != id) ==> has_by(users_after, user_key(), k) == has_by(
                users,
                user_key(),
                k,
            ),
        forall|k: i32|
            (!by_user ==> k != id) ==> has_by(games_after, game_key(), k) == has_by(
                games,
                game_key(),
                k,
            ),
    ensures
        references_hold(rows.filter(unlinked::<T>(by_user, id)), users_after, games_after),
{
    let kept = rows.filter(unlinked::<T>(by_user, id));
    assert forall|i: int| 0 <= i < kept.len() implies has_by(
        users_after,
        user_key(),
        (#[trigger] kept[i]).user(),
    ) && has_by(games_after, game_key(), kept[i].game()) by {
        lemma_filter_member(rows, unlinked::<T>(by_user, id), i);
        let j = choose|j: int| 0 <= j < rows.len() && rows[j] == kept[i];
        assert(has_by(users, user_key(), rows[j].user()));
        assert(links(kept[i], by_user, id) == false);
    }
}

/// Whether another user than `id` holds the e-mail address.
pub open spec fn email_of_another(users: Seq<User>, id: i32, email: Seq<char>) -> bool {
    exists|j: int|
        0 <= j < users.len() && (#[trigger] users[j]).id != id && users[j].email@ == email
}

/// Whether another active rental than `id` holds the game.
pub open spec fn rented_by_another(rentals: Seq<Rental>, id: i32, game_id: i32) -> bool {
    exists|j: int|
        0 <= j < rentals.len() && (#[trigger] rentals[j]).id != id && rentals[j].game_id == game_id
}

/// In a consistent store a game has at most one active rental: two active rentals
/// of one game are one rental.
pub proof fn lemma_one_rental_per_game(db: DbView, i: int, j: int)
    requires
        db.consistent(),
        0 <= i < db.rentals.len(),
        0 <= j < db.rentals.len(),
        db.rentals[i].game_id == db.rentals[j].game_id,
    ensures
        i == j,
{
    if i < j {
        assert(rental_game()(db.rentals[i]) != rental_game()(db.rentals[j]));
    } else if j < i {
        assert(rental_game()(db.rentals[j]) != rental_game()(db.rentals[i]));
    }
}

/// After an active rental was moved into a history that held no record with its
/// id, no active rental has the id, and the history holds under the id the record
/// of the rental, field by field, while every other active rental and every other
/// record stays.
pub proof fn lemma_archived(db: DbView, rental: Rental)
    requires
        db.consistent(),
        db.rental(rental.id) == Some(rental),
        !has_by(db.rental_history, history_key(), rental.id),
    ensures
        db.archived(rental).rental(rental.id) is None,
        db.archived(rental).history(rental.id) == Some(history_of(rental)),
        history_of(rental).id == rental.id,
        history_of(rental).game_id == rental.game_id,
        history_of(rental).user_id == rental.user_id,
        history_of(rental).rental_date == rental.rental_date,
        history_of(rental).return_date == rental.return_date,
        history_of(rental).picked_up == rental.picked_up,
        forall|other: i32|
            other != rental.id ==> has_by(db.archived(rental).rentals, rental_key(), other)
                == has_by(db.rentals, rental_key(), other),
        forall|other: i32|
            other != rental.id ==> has_by(db.archived(rental).rental_history, history_key(), other)
                == has_by(db.rental_history, history_key(), other),
{
    let k = index_by(db.rentals, rental_key(), rental.id);
    assert(has_by(db.rentals, rental_key(), rental.id));
    assert(rental_key()(db.rentals[k]) == rental.id);
    lemma_remove_distinct(db.rentals, rental_key(), k);
    let record = history_of(rental);
    let records = db.rental_history.push(record);
    lemma_push_distinct(db.rental_history, history_key(), record);
    lemma_push_has(db.rental_history, history_key(), record);
    lemma_find_unique(records, history_key(), db.rental_history.len() as int);
}

/// After a user was deleted, the store is consistent, the user is gone, and so is
/// every rental, history record and favourite of the user; the games stay.
pub proof fn lemma_user_deleted(db: DbView, id: i32)
    requires
        db.consistent(),
    ensures
        db.without_user(id).consistent(),
        db.without_user(id).user(id) is None,
        forall|k: int|
            0 <= k < db.without_user(id).rentals.len() ==> (#[trigger] db.without_user(
                id,
            ).rentals[k]).user_id != id,
        forall|k: int|
            0 <= k < db.without_user(id).rental_history.len() ==> (#[trigger] db.without_user(
                id,
            ).rental_history[k]).user_id != id,
        forall|k: int|
            0 <= k < db.without_user(id).favourites.len() ==> (#[trigger] db.without_user(
                id,
            ).favourites[k]).user_id != id,
        db.without_user(id).board_games == db.board_games,
{
    let after = db.without_user(id);
    let users = db.users;
    let games = db.board_games;
    if has_by(users, user_key(), id) {
        let at = index_by(users, user_key(), id);
        lemma_remove_distinct(users, user_key(), at);
        lemma_remove_distinct(users, user_email(), at);
    }
    lemma_cascade_references(db.rentals, users, games, after.users, games, true, id);
    lemma_cascade_references(db.rental_history, users, games, after.users, games, true, id);
    lemma_cascade_references(db.favourites, users, games, after.users, games, true, id);
    lemma_filter_distinct(db.rentals, rental_key(), unlinked::<Rental>(true, id));
    lemma_filter_distinct(db.rentals, rental_game(), unlinked::<Rental>(true, id));
    lemma_filter_distinct(db.rental_history, history_key(), unlinked::<RentalHistory>(true, id));
    lemma_filter_distinct(db.favourites, favourite_key(), unlinked::<Favourite>(true, id));
    assert forall|k: int| 0 <= k < after.rentals.len() implies (#[trigger] after.rentals[k]).user_id
        != id && after.rentals[k].id != 0 && after.rentals[k].id < db.next_rental_id by {
        lemma_filter_member(db.rentals, unlinked::<Rental>(true, id), k);
        let row = after.rentals[k];
        let j = choose|j: int| 0 <= j < db.rentals.len() && db.rentals[j] == row;
        assert(db.rentals[j].id != 0 && db.rentals[j].id < db.next_rental_id);
        assert(links(row, true, id) == false);
    }
    assert forall|k: int| 0 <= k < after.rental_history.len() implies (
    #[trigger] after.rental_history[k]).user_id != id by {
        lemma_filter_member(db.rental_history, unlinked::<RentalHistory>(true, id), k);
        assert(links(after.rental_history[k], true, id) == false);
    }
    assert forall|k: int| 0 <= k < after.favourites.len() implies (
    #[trigger] after.favourites[k]).user_id != id by {
        lemma_filter_member(db.favourites, unlinked::<Favourite>(true, id), k);
        assert(links(after.favourites[k], true, id) == false);
    }
}

/// After a board game was deleted, the store is consistent, the game is gone, and
/// so is every rental, history record and favourite of the game; the users stay.
pub proof fn lemma_game_deleted(db: DbView, id: i32)
    requires
        db.consistent(),
    ensures
        db.without_game(id).consistent(),
        db.without_game(id).board_game(id) is None,
        db.without_game(id).rental_of_game(id) is None,
        forall|k: int|
            0 <= k < db.without_game(id).rental_history.len() ==> (#[trigger] db.without_game(
                id,
            ).rental_history[k]).game_id != id,
        forall|k: int|
            0 <= k < db.without_game(id).favourites.len() ==> (#[trigger] db.without_game(
                id,
            ).favourites[k]).game_id != id,
        db.without_game(id).users == db.users,
{
    let after = db.without_game(id);
    let users = db.users;
    let games = db.board_games;
    if has_by(games, game_key(), id) {
        let at = index_by(games, game_key(), id);
        lemma_remove_distinct(games, game_key(), at);
        let left = games.remove(at);
        assert forall|i: int| 0 <= i < left.len() implies (#[trigger] left[i]).valid()
            && left[i].id != 0 && left[i].id < db.next_game_id by {
            let a = if i < at { i } else { i + 1 };
            assert(left[i] == games[a]);
        }
    }
    lemma_cascade_references(db.rentals, users, games, users, after.board_games, false, id);
    lemma_cascade_references(
        db.rental_history,
        users,
        games,
        users,
        after.board_games,
        false,
        id,
    );
    lemma_cascade_references(db.favourites, users, games, users, after.board_games, false, id);
    lemma_filter_distinct(db.rentals, rental_key(), unlinked::<Rental>(false, id));
    lemma_filter_distinct(db.rentals, rental_game(), unlinked::<Rental>(false, id));
    lemma_filter_distinct(db.rental_history, history_key(), unlinked::<RentalHistory>(false, id));
    lemma_filter_distinct(db.favourites, favourite_key(), unlinked::<Favourite>(false, id));
    assert forall|k: int| 0 <= k < after.rentals.len() implies (#[trigger] after.rentals[k]).game_id
        != id && after.rentals[k].id != 0 && after.rentals[k].id < db.next_rental_id by {
        lemma_filter_member(db.rentals, unlinked::<Rental>(false, id), k);
        let row = after.rentals[k];
        let j = choose|j: int| 0 <= j < db.rentals.len() && db.rentals[j] == row;
        assert(db.rentals[j].id != 0 && db.rentals[j].id < db.next_rental_id);
        assert(links(row, false, id) == false);
    }
    if has_by(after.rentals, rental_game(), id) {
        let k = index_by(after.rentals, rental_game(), id);
        assert(after.rentals[k].game_id == id);
    }
    assert forall|k: int| 0 <= k < after.rental_history.len() implies (
    #[trigger] after.rental_history[k]).game_id != id by {
        lemma_filter_member(db.rental_history, unlinked::<RentalHistory>(false, id), k);
        assert(links(after.rental_history[k], false, id) == false);
    }
    assert forall|k: int| 0 <= k < after.favourites.len() implies (
    #[trigger] after.favourites[k]).game_id != id by {
        lemma_filter_member(db.favourites, unlinked::<Favourite>(false, id), k);
        assert(links(after.favourites[k], false, id) == false);
    }
}

impl DatabaseManager {
    /// The invariant of the store: its content is consistent.
    pub open spec fn wf(&self) -> bool {
        self@.consistent()
    }

    /// The stored users, in the order of insertion.
    pub(crate) fn user_rows(&self) -> (r: &Vec<User>)
        ensures
            r@ == self@.users,
    {
        &self.users
    }

    /// The stored board games, in the order of insertion.
    pub(crate) fn game_rows(&self) -> (r: &Vec<BoardGame>)
        ensures
            r@ == self@.board_games,
    {
        &self.board_games
    }

    /// The active rentals, in the order of insertion.
    pub(crate) fn rental_rows(&self) -> (r: &Vec<Rental>)
        ensures
            r@ == self@.rentals,
    {
        &self.rentals
    }

    /// The history records, in the order of insertion.
    pub(crate) fn history_rows(&self) -> (r: &Vec<RentalHistory>)
        ensures
            r@ == self@.rental_history,
    {
        &self.rental_history
    }

    /// Whether the user has marked the game as a favourite.
    pub fn is_favourite(&self, user_id: i32, game_id: i32) -> (r: bool)
        ensures
            r == self@.is_favourite(user_id, game_id),
    {
        favourite_position(&self.favourites, user_id, game_id).is_some()
    }

    /// Whether the store holds no row at all.
    pub open spec fn is_empty(&self) -> bool {
        &&& self@.users.len() == 0
        &&& self@.board_games.len() == 0
        &&& self@.rentals.len() == 0
        &&& self@.rental_history.len() == 0
        &&& self@.favourites.len() == 0
    }

    /// An empty store, which assigns ids from 1 on.
    pub fn new() -> (r: DatabaseManager)
        ensures
            r.wf(),
            r.is_empty(),
            r@.next_game_id == 1,
            r@.next_rental_id == 1,
    {
        DatabaseManager {
            users: Vec::new(),
            board_games: Vec::new(),
            rentals: Vec::new(),
            rental_history: Vec::new(),
            favourites: Vec::new(),
            last_game_id: 0,
            last_rental_id: 0,
        }
    }

    /// An empty store that has assigned ids before: the next game gets the id after
    /// `last_game_id` and the next rental the id after `last_rental_id`, and where
    /// one of them is the largest id there is, the store has none left to assign.
    /// `None` where one of the two is negative.
    pub fn starting_after(last_game_id: i32, last_rental_id: i32) -> (r: Option<DatabaseManager>)
        ensures
            r is Some <==> last_game_id >= 0 && last_rental_id >= 0,
            r matches Some(db) ==> {
                &&& db.wf()
                &&& db.is_empty()
                &&& db@.next_game_id == last_game_id + 1
                &&& db@.next_rental_id == last_rental_id + 1
            },
    {
        if last_game_id < 0 || last_rental_id < 0 {
            return None;
        }
        Some(
            DatabaseManager {
                users: Vec::new(),
                board_games: Vec::new(),
                rentals: Vec::new(),
                rental_history: Vec::new(),
                favourites: Vec::new(),
                last_game_id,
                last_rental_id,
            },
        )
    }

    /// Stores a new user. Refused where the id or the e-mail address is taken.
    pub fn insert_user(&mut self, user: User) -> (r: Result<(), DbErr>)
        requires
            old(self).wf(),
        ensures
            final(self).wf(),
            r is Ok <==> !has_by(old(self)@.users, user_key(), user.id) && !has_by(
                old(self)@.users,
                user_email(),
                user.email@,
            ),
            r matches Ok(_) ==> final(self)@ == (DbView {
                users: old(self)@.users.push(user),
                ..old(self)@
            }),
            r matches Err(e) ==> e == DbErr::Conflict && final(self)@ == old(self)@,
    {
        if user_position(&self.users, user.id).is_some() {
            return Err(DbErr::Conflict);
        }
        match email_position(&self.users, &user.email, None) {
            Some(k) => {
                assert(user_email()(self.users@[k as int]) == user.email@);
                return Err(DbErr::Conflict);
            },
            None => {},
        }
        proof {
            let users = self.users@;
            if has_by(users, user_email(), user.email@) {
                let i = index_by(users, user_email(), user.email@);
                assert(users[i].email@ == user.email@);
            }
            lemma_push_distinct(users, user_key(), user);
            lemma_push_distinct(users, user_email(), user);
            lemma_push_has(users, user_key(), user);
            self.lemma_users_grow(users.push(user));
        }
        self.users.push(user);
        Ok(())
    }

    /// References that hold keep holding when the users change to `users` and
    /// every id that was stored stays.
    proof fn lemma_users_grow(&self, users: Seq<User>)
        requires
            self@.consistent(),
            forall|id: i32|
                has_by(self@.users, user_key(), id) ==> #[trigger] has_by(users, user_key(), id),
        ensures
            references_hold(self@.rentals, users, self@.board_games),
            references_hold(self@.rental_history, users, self@.board_games),
            references_hold(self@.favourites, users, self@.board_games),
    {
    }

    /// The user with the given id.
    pub fn get_user(&self, id: i32) -> (r: Option<User>)
        requires
            self.wf(),
        ensures
            r == self@.user(id),
    {
        match user_position(&self.users, id) {
            Some(k) => {
                proof {
                    lemma_find_unique(self.users@, user_key(), k as int);
                }
                Some(self.users[k].duplicate())
            },
            None => None,
        }
    }

    /// Whether the user with the given id is penalized; `false` where there is no
    /// such user.
    pub fn is_user_penalized(&self, id: i32) -> (r: bool)
        requires
            self.wf(),
        ensures
            r == found_penalized(self@.user(id)),
    {
        match user_position(&self.users, id) {
            Some(k) => {
                proof {
                    lemma_find_unique(self.users@, user_key(), k as int);
                }
                self.users[k].is_penalized()
            },
            None => false,
        }
    }
    /// Replaces the stored user that has the id of `user`. Refused where no user has
    /// that id, or where another user holds the e-mail address.
    pub fn update_user(&mut self, user: User) -> (r: Result<(), DbErr>)
        requires
            old(self).wf(),
        ensures
            final(self).wf(),
            r == (if !has_by(old(self)@.users, user_key(), user.id) {
                Err::<(), DbErr>(DbErr::RecordNotFound)
            } else if email_of_another(old(self)@.users, user.id, user.email@) {
                Err(DbErr::Conflict)
            } else {
                Ok(())
            }),
            r is Ok ==> final(self)@ == (DbView {
                users: old(self)@.users.update(
                    index_by(old(self)@.users, user_key(), user.id),
                    user,
                ),
                ..old(self)@
            }),
            r is Err ==> final(self)@ == old(self)@,
    {
        let k: usize = match user_position(&self.users, user.id) {
            Some(k) => k,
            None => {
                return Err(DbErr::RecordNotFound);
            },
        };
        proof {
            lemma_find_unique(self.users@, user_key(), k as int);
        }
        match email_position(&self.users, &user.email, Some(k)) {
            Some(j) => {
                assert(self.users@[j as int].id != user.id) by {
                    if j < k {
                        assert(user_key()(self.users@[j as int]) != user_key()(
                            self.users@[k as int],
                        ));
                    } else {
                        assert(user_key()(self.users@[k as int]) != user_key()(
                            self.users@[j as int],
                        ));
                    }
                }
                return Err(DbErr::Conflict);
            },
            None => {},
        }
        proof {
            let users = self.users@;
            if email_of_another(users, user.id, user.email@) {
                let j = choose|j: int|
                    0 <= j < users.len() && (#[trigger] users[j]).id != user.id && users[j].email@
                        == user.email@;
                assert(j != k);
            }
            assert forall|j: int| 0 <= j < users.len() && j != k implies user_email()(
                #[trigger] users[j],
            ) != user_email()(user) by {}
            assert forall|j: int| 0 <= j < users.len() && j != k implies user_key()(
                #[trigger] users[j],
            ) != user_key()(user) by {
                if j < k {
                    assert(user_key()(users[j]) != user_key()(users[k as int]));
                } else {
                    assert(user_key()(users[k as int]) != user_key()(users[j]));
                }
            }
            lemma_update_distinct(users, user_key(), k as int, user);
            lemma_update_distinct(users, user_email(), k as int, user);
            self.lemma_users_grow(users.update(k as int, user));
        }
        self.users.set(k, user);
        Ok(())
    }

    /// Deletes the user with the given id, and with it the rentals, history records
    /// and favourites of that user.
    pub fn delete_user(&mut self, id: i32)
        requires
            old(self).wf(),
        ensures
            final(self).wf(),
            final(self)@ == old(self)@.without_user(id),
    {
        proof {
            lemma_user_deleted(self@, id);
        }
        match user_position(&self.users, id) {
            Some(k) => {
                proof {
                    lemma_find_unique(self.users@, user_key(), k as int);
                }
                self.users.remove(k);
            },
            None => {},
        }
        self.rentals = select_linked(&self.rentals, true, id, false);
        self.rental_history = select_linked(&self.rental_history, true, id, false);
        self.favourites = select_linked(&self.favourites, true, id, false);
    }

    /// References that hold keep holding when the games change to `games` and
    /// every id that was stored stays.
    proof fn lemma_games_grow(&self, games: Seq<BoardGame>)
        requires
            self@.consistent(),
            forall|id: i32|
                has_by(self@.board_games, game_key(), id) ==> #[trigger] has_by(
                    games,
                    game_key(),
                    id,
                ),
        ensures
            references_hold(self@.rentals, self@.users, games),
            references_hold(self@.rental_history, self@.users, games),
            references_hold(self@.favourites, self@.users, games),
    {
    }

    /// Stores a board game after checking it: with the id 0 as a new game under a
    /// fresh id, with another id in place of the stored game that has this id.
    /// Returns the id under which the game is stored.
    pub fn save_board_game(&mut self, game: BoardGame) -> (r: Result<i32, DbErr>)
        requires
            old(self).wf(),
        ensures
            final(self).wf(),
            r is Err ==> final(self)@ == old(self)@,
            r is Err ==> r == Err::<i32, DbErr>(
                if game.violation() is Some {
                    DbErr::Invalid(game.violation()->0)
                } else if game.id == 0 {
                    DbErr::OutOfIds
                } else {
                    DbErr::RecordNotFound
                },
            ),
            r is Ok <==> game.valid() && (if game.id == 0 {
                !old(self)@.game_ids_exhausted()
            } else {
                has_by(old(self)@.board_games, game_key(), game.id)
            }),
            r matches Ok(id) ==> id != 0 && (if game.id == 0 {
                &&& id == old(self)@.next_game_id
                &&& !has_by(old(self)@.board_games, game_key(), id)
                &&& final(self)@ == (DbView {
                    board_games: old(self)@.board_games.push(BoardGame { id, ..game }),
                    next_game_id: old(self)@.next_game_id + 1,
                    ..old(self)@
                })
            } else {
                &&& id == game.id
                &&& final(self)@ == (DbView {
                    board_games: old(self)@.board_games.update(
                        index_by(old(self)@.board_games, game_key(), id),
                        game,
                    ),
                    ..old(self)@
                })
            }),
    {
        match game.validate() {
            Err(e) => {
                return Err(DbErr::Invalid(e));
            },
            Ok(_) => {},
        }
        let ghost games = self.board_games@;
        if game.id == 0 {
            if self.last_game_id == i32::MAX {
                return Err(DbErr::OutOfIds);
            }
            let id: i32 = self.last_game_id + 1;
            let stored = BoardGame { id, ..game };
            proof {
                if has_by(games, game_key(), id) {
                    let i = index_by(games, game_key(), id);
                    assert(games[i].id < self@.next_game_id);
                }
                lemma_push_distinct(games, game_key(), stored);
                lemma_push_has(games, game_key(), stored);
                self.lemma_games_grow(games.push(stored));
                assert(stored.valid());
            }
            self.board_games.push(stored);
            self.last_game_id = id;
            Ok(id)
        } else {
            let k: usize = match game_position(&self.board_games, game.id) {
                Some(k) => k,
                None => {
                    return Err(DbErr::RecordNotFound);
                },
            };
            let id: i32 = game.id;
            proof {
                lemma_find_unique(games, game_key(), k as int);
                assert forall|j: int| 0 <= j < games.len() && j != k implies game_key()(
                    #[trigger] games[j],
                ) != game_key()(game) by {
                    if j < k {
                        assert(game_key()(games[j]) != game_key()(games[k as int]));
                    } else {
                        assert(game_key()(games[k as int]) != game_key()(games[j]));
                    }
                }
                lemma_update_distinct(games, game_key(), k as int, game);
                self.lemma_games_grow(games.update(k as int, game));
            }
            self.board_games.set(k, game);
            Ok(id)
        }
    }

    /// The board game with the given id.
    pub fn get_board_game(&self, id: i32) -> (r: Option<BoardGame>)
        requires
            self.wf(),
        ensures
            r == self@.board_game(id),
    {
        match game_position(&self.board_games, id) {
            Some(k) => {
                proof {
                    lemma_find_unique(self.board_games@, game_key(), k as int);
                }
                Some(self.board_games[k].duplicate())
            },
            None => None,
        }
    }

    /// Deletes the board game with the given id, and with it the rentals, history
    /// records and favourites of that game.
    pub fn delete_board_game(&mut self, id: i32)
        requires
            old(self).wf(),
        ensures
            final(self).wf(),
            final(self)@ == old(self)@.without_game(id),
    {
        proof {
            lemma_game_deleted(self@, id);
        }
        match game_position(&self.board_games, id) {
            Some(k) => {
                proof {
                    let games = self.board_games@;
                    lemma_find_unique(games, game_key(), k as int);
                }
                self.board_games.remove(k);
            },
            None => {},
        }
        self.rentals = select_linked(&self.rentals, false, id, false);
        self.rental_history = select_linked(&self.rental_history, false, id, false);
        self.favourites = select_linked(&self.favourites, false, id, false);
    }

    /// Stores a rental: with the id 0 as a new rental under a fresh id, with another
    /// id in place of the stored rental that has this id. Returns the id under
    /// which the rental is stored.
    pub fn save_rental(&mut self, rental: Rental) -> (r: Result<i32, DbErr>)
        requires
            old(self).wf(),
        ensures
            final(self).wf(),
            r is Err ==> final(self)@ == old(self)@,
            old(self)@.rental_refusal(rental) matches Some(e) ==> r == Err::<i32, DbErr>(e),
            old(self)@.rental_refusal(rental) is None ==> (if rental.id != 0 {
                r == Ok::<i32, DbErr>(rental.id)
            } else if old(self)@.rental_ids_exhausted() {
                r == Err::<i32, DbErr>(DbErr::OutOfIds)
            } else {
                r is Ok
            }),
            r matches Ok(id) ==> id != 0 && (if rental.id == 0 {
                &&& id == old(self)@.next_rental_id
                &&& !has_by(old(self)@.rentals, rental_key(), id)
                &&& final(self)@ == (DbView {
                    rentals: old(self)@.rentals.push(Rental { id, ..rental }),
                    next_rental_id: old(self)@.next_rental_id + 1,
                    ..old(self)@
                })
            } else {
                &&& id == rental.id
                &&& final(self)@ == (DbView {
                    rentals: old(self)@.rentals.update(
                        index_by(old(self)@.rentals, rental_key(), id),
                        rental,
                    ),
                    ..old(self)@
                })
            }),
    {
        let ghost rentals = self.rentals@;
        let place: Option<usize> = if rental.id != 0 {
            match rental_position(&self.rentals, rental.id) {
                Some(k) => Some(k),
                None => {
                    return Err(DbErr::RecordNotFound);
                },
            }
        } else {
            None
        };
        if user_position(&self.users, rental.user_id).is_none() || game_position(
            &self.board_games,
            rental.game_id,
        ).is_none() {
            return Err(DbErr::MissingReference);
        }
        match rented_position(&self.rentals, rental.game_id, place) {
            Some(j) => {
                proof {
                    assert(rental_game()(rentals[j as int]) == rental.game_id);
                    if rental.id != 0 {
                        let k = place->0 as int;
                        if j < k {
                            assert(rental_key()(rentals[j as int]) != rental_key()(rentals[k]));
                        } else {
                            assert(rental_key()(rentals[k]) != rental_key()(rentals[j as int]));
                        }
                    }
                }
                return Err(DbErr::Conflict);
            },
            None => {},
        }
        match place {
            None => {
                proof {
                    if has_by(rentals, rental_game(), rental.game_id) {
                        let i = index_by(rentals, rental_game(), rental.game_id);
                        assert(rentals[i].game_id == rental.game_id);
                    }
                }
                if self.last_rental_id == i32::MAX {
                    return Err(DbErr::OutOfIds);
                }
                let id: i32 = self.last_rental_id + 1;
                let stored = Rental { id, ..rental };
                proof {
                    if has_by(rentals, rental_key(), id) {
                        let i = index_by(rentals, rental_key(), id);
                        assert(rentals[i].id < self@.next_rental_id);
                    }
                    lemma_push_distinct(rentals, rental_key(), stored);
                    lemma_push_distinct(rentals, rental_game(), stored);
                }
                self.rentals.push(stored);
                self.last_rental_id = id;
                Ok(id)
            },
            Some(k) => {
                let id: i32 = rental.id;
                proof {
                    lemma_find_unique(rentals, rental_key(), k as int);
                    if rented_by_another(rentals, rental.id, rental.game_id) {
                        let j = choose|j: int|
                            0 <= j < rentals.len() && (#[trigger] rentals[j]).id != rental.id
                                && rentals[j].game_id == rental.game_id;
                        assert(j != k);
                    }
                    assert forall|j: int| 0 <= j < rentals.len() && j != k implies rental_key()(
                        #[trigger] rentals[j],
                    ) != rental_key()(rental) by {
                        if j < k {
                            assert(rental_key()(rentals[j]) != rental_key()(rentals[k as int]));
                        } else {
                            assert(rental_key()(rentals[k as int]) != rental_key()(rentals[j]));
                        }
                    }
                    assert forall|j: int| 0 <= j < rentals.len() && j != k implies rental_game()(
                        #[trigger] rentals[j],
                    ) != rental_game()(rental) by {}
                    lemma_update_distinct(rentals, rental_key(), k as int, rental);
                    lemma_update_distinct(rentals, rental_game(), k as int, rental);
                }
                self.rentals.set(k, rental);
                Ok(id)
            },
        }
    }

    /// The active rental with the given id.
    pub fn get_rental(&self, id: i32) -> (r: Option<Rental>)
        requires
            self.wf(),
        ensures
            r == self@.rental(id),
    {
        match rental_position(&self.rentals, id) {
            Some(k) => {
                proof {
                    lemma_find_unique(self.rentals@, rental_key(), k as int);
                }
                Some(self.rentals[k])
            },
            None => None,
        }
    }

    /// The active rental of the given game.
    pub fn get_game_rental_status(&self, game_id: i32) -> (r: Option<Rental>)
        requires
            self.wf(),
        ensures
            r == self@.rental_of_game(game_id),
    {
        match rented_position(&self.rentals, game_id, None) {
            Some(k) => {
                proof {
                    lemma_find_unique(self.rentals@, rental_game(), k as int);
                }
                Some(self.rentals[k])
            },
            None => {
                proof {
                    let rentals = self.rentals@;
                    if has_by(rentals, rental_game(), game_id) {
                        let i = index_by(rentals, rental_game(), game_id);
                        assert(rentals[i].game_id == game_id);
                    }
                }
                None
            },
        }
    }

    /// Deletes the active rental with the given id.
    pub fn delete_rental(&mut self, id: i32)
        requires
            old(self).wf(),
        ensures
            final(self).wf(),
            final(self)@ == (DbView {
                rentals: without_key(old(self)@.rentals, rental_key(), id),
                ..old(self)@
            }),
    {
        match rental_position(&self.rentals, id) {
            Some(k) => {
                proof {
                    self.lemma_take_rental(k as int);
                }
                self.rentals.remove(k);
            },
            None => {},
        }
    }

    /// What taking the rental at position `at` out of the active rentals leaves
    /// meets the constraints on the active rentals.
    proof fn lemma_take_rental(&self, at: int)
        requires
            self.wf(),
            0 <= at < self@.rentals.len(),
        ensures
            self@.rentals.remove(at) == without_key(
                self@.rentals,
                rental_key(),
                self@.rentals[at].id,
            ),
            distinct_by(self@.rentals.remove(at), rental_key()),
            distinct_by(self@.rentals.remove(at), rental_game()),
            references_hold(self@.rentals.remove(at), self@.users, self@.board_games),
            forall|i: int|
                0 <= i < self@.rentals.remove(at).len() ==> (#[trigger] self@.rentals.remove(
                    at,
                )[i]).id < self@.next_rental_id && self@.rentals.remove(at)[i].id != 0,
            self@.rental(self@.rentals[at].id) == Some(self@.rentals[at]),
    {
        let rentals = self@.rentals;
        let after = rentals.remove(at);
        lemma_find_unique(rentals, rental_key(), at);
        lemma_remove_distinct(rentals, rental_key(), at);
        lemma_remove_distinct(rentals, rental_game(), at);
        assert forall|i: int| 0 <= i < after.len() implies has_by(
            self@.users,
            user_key(),
            (#[trigger] after[i]).user(),
        ) && has_by(self@.board_games, game_key(), after[i].game()) && after[i].id
            < self@.next_rental_id && after[i].id != 0 by {
            let a = if i < at { i } else { i + 1 };
            assert(after[i] == rentals[a]);
        }
    }

    /// Moves the active rental with the given id into the history: the record is
    /// added to the history and the rental is taken out of the active rentals, or
    /// neither happens. Refused, with the store unchanged, where no active rental
    /// has the id, and where the history already holds a record with the id.
    pub fn archive_rental(&mut self, id: i32) -> (r: Result<(), DbErr>)
        requires
            old(self).wf(),
        ensures
            final(self).wf(),
            match old(self)@.rental(id) {
                None => {
                    &&& r == Err::<(), DbErr>(DbErr::RecordNotFound)
                    &&& final(self)@ == old(self)@
                },
                Some(rental) => if has_by(old(self)@.rental_history, history_key(), id) {
                    r == Err::<(), DbErr>(DbErr::Conflict) && final(self)@ == old(self)@
                } else {
                    &&& r is Ok
                    &&& final(self)@ == old(self)@.archived(rental)
                    &&& final(self)@.rental(id) is None
                    &&& final(self)@.history(id) == Some(history_of(rental))
                },
            },
    {
        let k: usize = match rental_position(&self.rentals, id) {
            Some(k) => k,
            None => {
                return Err(DbErr::RecordNotFound);
            },
        };
        proof {
            self.lemma_take_rental(k as int);
        }
        if history_position(&self.rental_history, id).is_some() {
            return Err(DbErr::Conflict);
        }
        proof {
            lemma_archived(self@, self.rentals@[k as int]);
        }
        let rental: Rental = self.rentals[k];
        let record: RentalHistory = rental.archive();
        proof {
            let records = self.rental_history@;
            lemma_push_distinct(records, history_key(), record);
            assert(has_by(self@.users, user_key(), self@.rentals[k as int].user()));
            assert forall|i: int| 0 <= i < records.push(record).len() implies has_by(
                self@.users,
                user_key(),
                (#[trigger] records.push(record)[i]).user(),
            ) && has_by(self@.board_games, game_key(), records.push(record)[i].game()) by {
                if i < records.len() {
                    assert(records.push(record)[i] == records[i]);
                }
            }
        }
        self.rental_history.push(record);
        self.rentals.remove(k);
        Ok(())
    }

    /// Adds a record to the history. Refused where its user or game is not stored,
    /// or where the history holds a record with its id.
    pub fn insert_rental_history(&mut self, record: RentalHistory) -> (r: Result<(), DbErr>)
        requires
            old(self).wf(),
        ensures
            final(self).wf(),
            match old(self)@.row_refusal(
                record.user_id,
                record.game_id,
                has_by(old(self)@.rental_history, history_key(), record.id),
            ) {
                Some(e) => r == Err::<(), DbErr>(e) && final(self)@ == old(self)@,
                None => r is Ok && final(self)@ == (DbView {
                    rental_history: old(self)@.rental_history.push(record),
                    ..old(self)@
                }),
            },
    {
        if user_position(&self.users, record.user_id).is_none() || game_position(
            &self.board_games,
            record.game_id,
        ).is_none() {
            return Err(DbErr::MissingReference);
        }
        if history_position(&self.rental_history, record.id).is_some() {
            return Err(DbErr::Conflict);
        }
        proof {
            let records = self.rental_history@;
            lemma_push_distinct(records, history_key(), record);
            assert forall|i: int| 0 <= i < records.push(record).len() implies has_by(
                self@.users,
                user_key(),
                (#[trigger] records.push(record)[i]).user(),
            ) && has_by(self@.board_games, game_key(), records.push(record)[i].game()) by {
                if i < records.len() {
                    assert(records.push(record)[i] == records[i]);
                }
            }
        }
        self.rental_history.push(record);
        Ok(())
    }

    /// The history record with the given id.
    pub fn get_rental_history_record(&self, id: i32) -> (r: Option<RentalHistory>)
        requires
            self.wf(),
        ensures
            r == self@.history(id),
    {
        match history_position(&self.rental_history, id) {
            Some(k) => {
                proof {
                    lemma_find_unique(self.rental_history@, history_key(), k as int);
                }
                Some(self.rental_history[k])
            },
            None => None,
        }
    }

    /// Deletes the history record with the given id.
    pub fn delete_rental_history(&mut self, id: i32)
        requires
            old(self).wf(),
        ensures
            final(self).wf(),
            final(self)@ == (DbView {
                rental_history: without_key(old(self)@.rental_history, history_key(), id),
                ..old(self)@
            }),
    {
        match history_position(&self.rental_history, id) {
            Some(k) => {
                proof {
                    let records = self.rental_history@;
                    let after = records.remove(k as int);
                    lemma_find_unique(records, history_key(), k as int);
                    lemma_remove_distinct(records, history_key(), k as int);
                    assert forall|i: int| 0 <= i < after.len() implies has_by(
                        self@.users,
                        user_key(),
                        (#[trigger] after[i]).user(),
                    ) && has_by(self@.board_games, game_key(), after[i].game()) by {
                        let a = if i < k { i } else { i + 1 };
                        assert(after[i] == records[a]);
                    }
                }
                self.rental_history.remove(k);
            },
            None => {},
        }
    }

    /// Marks a game as a favourite of a user. Refused where the user or the game is
    /// not stored, or where the mark is already there.
    pub fn save_favourite(&mut self, favourite: Favourite) -> (r: Result<(), DbErr>)
        requires
            old(self).wf(),
        ensures
            final(self).wf(),
            match old(self)@.row_refusal(
                favourite.user_id,
                favourite.game_id,
                old(self)@.is_favourite(favourite.user_id, favourite.game_id),
            ) {
                Some(e) => r == Err::<(), DbErr>(e) && final(self)@ == old(self)@,
                None => r is Ok && final(self)@ == (DbView {
                    favourites: old(self)@.favourites.push(favourite),
                    ..old(self)@
                }),
            },
    {
        if user_position(&self.users, favourite.user_id).is_none() || game_position(
            &self.board_games,
            favourite.game_id,
        ).is_none() {
            return Err(DbErr::MissingReference);
        }
        match favourite_position(&self.favourites, favourite.user_id, favourite.game_id) {
            Some(k) => {
                assert(favourite_key()(self.favourites@[k as int]) == (
                    favourite.user_id,
                    favourite.game_id,
                ));
                return Err(DbErr::Conflict);
            },
            None => {},
        }
        proof {
            let marks = self.favourites@;
            lemma_push_distinct(marks, favourite_key(), favourite);
            assert forall|i: int| 0 <= i < marks.push(favourite).len() implies has_by(
                self@.users,
                user_key(),
                (#[trigger] marks.push(favourite)[i]).user(),
            ) && has_by(self@.board_games, game_key(), marks.push(favourite)[i].game()) by {
                if i < marks.len() {
                    assert(marks.push(favourite)[i] == marks[i]);
                }
            }
        }
        self.favourites.push(favourite);
        Ok(())
    }

    /// Takes the mark of the given user on the given game away.
    pub fn delete_favourite(&mut self, user_id: i32, game_id: i32)
        requires
            old(self).wf(),
        ensures
            final(self).wf(),
            final(self)@ == (DbView {
                favourites: without_key(
                    old(self)@.favourites,
                    favourite_key(),
                    (user_id, game_id),
                ),
                ..old(self)@
            }),
    {
        match favourite_position(&self.favourites, user_id, game_id) {
            Some(k) => {
                proof {
                    let marks = self.favourites@;
                    let after = marks.remove(k as int);
                    lemma_find_unique(marks, favourite_key(), k as int);
                    lemma_remove_distinct(marks, favourite_key(), k as int);
                    assert forall|i: int| 0 <= i < after.len() implies has_by(
                        self@.users,
                        user_key(),
                        (#[trigger] after[i]).user(),
                    ) && has_by(self@.board_games, game_key(), after[i].game()) by {
                        let a = if i < k { i } else { i + 1 };
                        assert(after[i] == marks[a]);
                    }
                }
                self.favourites.remove(k);
            },
            None => {},
        }
    }
}

} // verus!