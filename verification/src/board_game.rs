//! The catalogue entry of a board game and the constraints it must meet before it is stored.

use crate::table::Duplicable;
use vstd::prelude::*;

verus! {

/// A board game of the catalogue.
pub struct BoardGame {
    pub id: i32,
    pub title: String,
    /// Difficulty rating; never zero in a stored game.
    pub weight: u16,
    pub photo_filename: String,
    pub min_players: u8,
    pub max_players: u8,
    pub min_playtime: u16,
    pub max_playtime: u16,
    pub additional_info: Option<String>,
}

/// The constraint that a board game breaks.
#[derive(Clone, Copy, Debug, PartialEq, Eq, Structural)]
pub enum ValidationError {
    /// More players required than allowed.
    InvalidPlayerRange,
    /// The shortest playtime exceeds the longest.
    InvalidPlaytimeRange,
    /// The weight is zero.
    InvalidWeight,
}

/// The first constraint that the attributes break, in the order in which they are
/// examined: player range, playtime range, weight. `None` where they break none.
pub open spec fn first_violation(
    min_players: u8,
    max_players: u8,
    min_playtime: u16,
    max_playtime: u16,
    weight: u16,
) -> Option<ValidationError> {
    if min_players > max_players {
        Some(ValidationError::InvalidPlayerRange)
    } else if min_playtime > max_playtime {
        Some(ValidationError::InvalidPlaytimeRange)
    } else if weight == 0 {
        Some(ValidationError::InvalidWeight)
    } else {
        None
    }
}

/// Whether the attributes meet every constraint of the catalogue.
pub open spec fn attributes_valid(
    min_players: u8,
    max_players: u8,
    min_playtime: u16,
    max_playtime: u16,
    weight: u16,
) -> bool {
    min_players <= max_players && min_playtime <= max_playtime && weight != 0
}

/// Checks the attributes of a board game and reports the first constraint they break.
pub fn validate_board_game(
    min_players: u8,
    max_players: u8,
    min_playtime: u16,
    max_playtime: u16,
    weight: u16,
) -> (r: Result<(), ValidationError>)
    ensures
        r is Ok <==> attributes_valid(min_players, max_players, min_playtime, max_playtime, weight),
        r matches Err(e) ==> first_violation(
            min_players,
            max_players,
            min_playtime,
            max_playtime,
            weight,
        ) == Some(e),
{
    if min_players > max_players {
        return Err(ValidationError::InvalidPlayerRange);
    }
    if min_playtime > max_playtime {
        return Err(ValidationError::InvalidPlaytimeRange);
    }
    if weight == 0 {
        return Err(ValidationError::InvalidWeight);
    }
    Ok(())
}

/// A copy of an optional text.
fn copy_optional_text(text: &Option<String>) -> (r: Option<String>)
    ensures
        r == *text,
{
    match text {
        Some(s) => Some(s.clone()),
        None => None,
    }
}

impl BoardGame {
    /// Whether the game meets every constraint of the catalogue.
    pub open spec fn valid(self) -> bool {
        attributes_valid(
            self.min_players,
            self.max_players,
            self.min_playtime,
            self.max_playtime,
            self.weight,
        )
    }

    /// The first constraint this game breaks, if any.
    pub open spec fn violation(self) -> Option<ValidationError> {
        first_violation(
            self.min_players,
            self.max_players,
            self.min_playtime,
            self.max_playtime,
            self.weight,
        )
    }

    /// Checks this game before it is stored.
    pub fn validate(&self) -> (r: Result<(), ValidationError>)
        ensures
            r is Ok <==> self.valid(),
            r matches Err(e) ==> self.violation() == Some(e),
    {
        validate_board_game(
            self.min_players,
            self.max_players,
            self.min_playtime,
            self.max_playtime,
            self.weight,
        )
    }

    /// A copy of this game.
    pub fn copy(&self) -> (r: BoardGame)
        ensures
            r == *self,
    {
        BoardGame {
            id: self.id,
            title: self.title.clone(),
            weight: self.weight,
            photo_filename: self.photo_filename.clone(),
            min_players: self.min_players,
            max_players: self.max_players,
            min_playtime: self.min_playtime,
            max_playtime: self.max_playtime,
            additional_info: copy_optional_text(&self.additional_info),
        }
    }
}

impl Duplicable for BoardGame {
    fn duplicate(&self) -> (r: Self) {
        self.copy()
    }
}

} // verus!
