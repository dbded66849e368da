//! Habit Slot: a habit tracker whose completions earn coins that are spent
//! on a three-reel slot machine. This crate holds the game's rules: the
//! slot engine, the coin ledger, streak counting, milestone rewards and the
//! application state that ties them together.

pub mod calendar;
pub mod clock;
pub mod db;
pub mod economy;
pub mod ids;
pub mod models;
pub mod rewards;
pub mod rng;
pub mod slot;
pub mod sprites;
pub mod state;
pub mod streaks;
pub mod text;
