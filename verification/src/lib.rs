//! Rules of a board-game rental service: credentials, access control,
//! catalogue constraints, penalties and the life cycle of a rental.
//!
//! The modules, from the leaves to the root:
//!
//! - [`date`], [`user`], [`board_game`], [`rental`]: the values of the domain and the
//!   rules that need nothing else;
//! - [`auth_manager`]: password hashes and session tokens;
//! - [`access`]: the privilege check that stands before every operation;
//! - [`table`], [`ordering`]: what the tables of the store and its listings share;
//! - [`db_manager`], [`listings`]: the store, held in memory;
//! - [`error`], [`decisions`]: the failures of the service, and what it decides on
//!   the rows that a lookup has found;
//! - [`service`]: the operations on the store, each with its privilege and outcome.

pub mod access;
pub mod auth_manager;
pub mod board_game;
pub mod date;
pub mod decisions;
pub mod db_manager;
pub mod error;
pub mod listings;
pub mod ordering;
pub mod rental;
pub mod service;
pub mod table;
pub mod user;
