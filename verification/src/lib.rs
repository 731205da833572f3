//! The rules of a small platformer in two dimensions.
//!
//! A square, the player's body, runs and jumps over rectangular obstacles,
//! collects coins and leaves each level through a door. This crate holds the
//! rules of that game and nothing of the machinery that draws it: every
//! function takes plain values and hands plain values back.
//!
//! All quantities are decimal fixed-point numbers, kept in an `i64` that
//! counts thousandths of a unit (see [`fixed`]). Arithmetic never wraps and
//! never fails: a result too large for an `i64` stops at the nearest end of
//! its range.
//!
//! - [`fixed`], [`math`]: numbers, vectors and the friction rule
//! - [`game`]: the parts of a body and the overlap test for rectangles
//! - [`player`]: intents, the physics tick and contact with obstacles
//! - [`objects`]: obstacles, coins, doors and the score
//! - [`loader`]: level files
//! - [`text`]: lines, words and decimal numbers in bytes of text
//! - [`state`], [`menu`], [`hud`]: states, buttons and labels

pub mod fixed;
pub mod game;
pub mod hud;
pub mod loader;
pub mod math;
pub mod menu;
pub mod objects;
pub mod player;
pub mod state;
pub mod text;
