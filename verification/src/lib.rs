//! Rustle: the rules of a Wordle-style game (letter feedback, hard mode,
//! the adversarial word pool, daily solutions), the validation done by the
//! team score server, holiday themes and the game's text helpers.

pub mod adversary;
pub mod comments;
pub mod display;
pub mod game;
pub mod hard_mode;
pub mod holidays;
pub mod messages;
pub mod server;
pub mod share;
pub mod status;
pub mod teams;
pub mod text;
pub mod words;
