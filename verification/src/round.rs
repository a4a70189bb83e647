//! One round of the game: a secret number and whether it has been guessed.

use crate::outcome::Status;
use vstd::prelude::*;

verus! {

/// The smallest secret a round can hold.
pub const SECRET_MIN: u32 = 1;

/// The largest secret a round can hold.
pub const SECRET_MAX: u32 = 100;

/// What a round is, as plain values.
pub struct RoundView {
    /// The number to guess.
    pub secret: int,
    /// Whether the number has been guessed.
    pub status: Status,
}

impl RoundView {
    /// A round's secret lies between `SECRET_MIN` and `SECRET_MAX`.
    pub open spec fn valid(self) -> bool {
        SECRET_MIN <= self.secret <= SECRET_MAX
    }

    /// Whether the round still takes guesses.
    pub open spec fn is_active(self) -> bool {
        self.status == Status::InProgress
    }
}

/// A secret number together with the state of the hunt for it.
///
/// The secret is fixed when the round is made. A round starts in progress and
/// is won at most once; a new game is a new round.
#[derive(Clone, Copy, Debug, PartialEq, Eq)]
pub struct Round {
    secret: u32,
    status: Status,
}

impl View for Round {
    type V = RoundView;

    closed spec fn view(&self) -> RoundView {
        RoundView { secret: self.secret as int, status: self.status }
    }
}

impl Round {
    #[verifier::type_invariant]
    pub(crate) open spec fn well_formed(&self) -> bool {
        self@.valid()
    }

    /// A fresh round around `secret`, or nothing if `secret` is outside the
    /// range from `SECRET_MIN` to `SECRET_MAX`.
    pub fn new(secret: u32) -> (round: Option<Round>)
        ensures
            round is Some <==> SECRET_MIN <= secret <= SECRET_MAX,
            round matches Some(r) ==> r@ == (RoundView {
                secret: secret as int,
                status: Status::InProgress,
            }),
    {
        if SECRET_MIN <= secret && secret <= SECRET_MAX {
            Some(Round { secret, status: Status::InProgress })
        } else {
            None
        }
    }

    /// The number to guess.
    pub fn secret(&self) -> (secret: u32)
        ensures
            secret == self@.secret,
            self@.valid(),
    {
        proof {
            use_type_invariant(self);
        }
        self.secret
    }

    /// Whether the number has been guessed.
    pub fn status(&self) -> (status: Status)
        ensures
            status == self@.status,
    {
        self.status
    }

    /// Whether the round still takes guesses.
    pub fn is_active(&self) -> (active: bool)
        ensures
            active == self@.is_active(),
    {
        self.status == Status::InProgress
    }

    /// The same round with its secret guessed.
    pub(crate) fn won(self) -> (round: Round)
        ensures
            round@ == (RoundView { secret: self@.secret, status: Status::Won }),
    {
        proof {
            use_type_invariant(&self);
        }
        Round { secret: self.secret, status: Status::Won }
    }
}

} // verus!
