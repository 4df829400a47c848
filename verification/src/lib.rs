//! A verified engine for a fixed-length word-guessing game.
//!
//! A secret target word is chosen from a dictionary; the player fills a grid
//! of guesses row by row, and each submitted row is scored letter by letter
//! against the target with three outcomes: the letter is in the right place,
//! present elsewhere, or absent. The scoring is duplicate-letter aware: a
//! letter of the target is credited at most as many times as it occurs.

pub mod game;
pub mod score;
pub mod words;
