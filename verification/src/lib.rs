//! A "guess the number" engine: a round holds a secret between 1 and 100,
//! takes guesses as raw text and answers each one with an outcome.

pub mod engine;
pub mod grammar;
pub mod outcome;
pub mod parse;
mod random;
pub mod round;

pub use engine::{GuessingGameEngine, RoundOver};
pub use outcome::{compare_guess, Outcome, Status};
pub use parse::parse_guess;
pub use round::{Round, SECRET_MAX, SECRET_MIN};
