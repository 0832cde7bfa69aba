//! A terminal Mastermind trainer, verified core.
//!
//! A hidden five-colour secret is drawn from an eight-colour alphabet; the
//! player submits five-letter guesses, each scored by exact-position matches
//! and colour-only matches, until the secret is found or the turn budget runs
//! out. This crate holds the game's data model and rules — colour parsing,
//! secret generation, guess scoring, and the session state machine with its
//! input buffer — with contracts proved by Verus. Terminal rendering and key
//! event handling live outside, reading the session's public state.

pub mod app;
pub mod bobbles;
pub mod error;
