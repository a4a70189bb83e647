//! The answers a round can give, and the three-way comparison behind them.

use vstd::prelude::*;

verus! {

/// Whether a round still takes guesses.
#[derive(Clone, Copy, Debug, PartialEq, Eq, Structural)]
pub enum Status {
    /// The secret has not been guessed yet.
    InProgress,
    /// The secret has been guessed; the round is over.
    Won,
}

/// How one submitted text was classified.
#[derive(Clone, Copy, Debug, PartialEq, Eq, Structural)]
pub enum Outcome {
    /// The guess is smaller than the secret.
    TooLow,
    /// The guess is larger than the secret.
    TooHigh,
    /// The guess is the secret.
    Correct,
    /// The text is not a number the round can compare.
    Invalid,
}

/// The outcome of comparing a number with the secret.
pub open spec fn guess_outcome(guess: int, secret: int) -> Outcome {
    if guess < secret {
        Outcome::TooLow
    } else if guess > secret {
        Outcome::TooHigh
    } else {
        Outcome::Correct
    }
}

/// Compares a parsed guess with the secret.
pub fn compare_guess(guess: u32, secret: u32) -> (outcome: Outcome)
    ensures
        outcome == guess_outcome(guess as int, secret as int),
{
    if guess < secret {
        Outcome::TooLow
    } else if guess > secret {
        Outcome::TooHigh
    } else {
        Outcome::Correct
    }
}

} // verus!
