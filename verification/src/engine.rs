//! The engine that runs rounds: it starts them, judges guesses, and starts over.

use crate::grammar::parsed_guess;
use crate::outcome::{compare_guess, guess_outcome, Outcome, Status};
use crate::parse::parse_guess;
use crate::random::next_in_range;
use crate::round::{Round, RoundView, SECRET_MAX, SECRET_MIN};
use vstd::prelude::*;

verus! {

/// The answer to a number submitted to a round that is already won.
#[derive(Clone, Copy, Debug, PartialEq, Eq, Structural)]
pub struct RoundOver;

/// What submitting `raw` to `round` answers.
///
/// Text that holds no number is `Invalid`, whatever the state of the round. A
/// number is turned away once the round is won, and compared with the secret
/// while it is in progress.
pub open spec fn submit_result(round: RoundView, raw: Seq<char>) -> Result<Outcome, RoundOver> {
    match parsed_guess(raw) {
        None => Ok(Outcome::Invalid),
        Some(guess) => if round.is_active() {
            Ok(guess_outcome(guess as int, round.secret))
        } else {
            Err(RoundOver)
        },
    }
}

/// The round that submitting `raw` to `round` leaves behind: won if the guess
/// was correct, and as it was otherwise.
pub open spec fn round_after(round: RoundView, raw: Seq<char>) -> RoundView {
    if submit_result(round, raw) == Ok::<Outcome, RoundOver>(Outcome::Correct) {
        RoundView { secret: round.secret, status: Status::Won }
    } else {
        round
    }
}

/// Owns the current round and judges the guesses submitted to it.
#[derive(Debug)]
pub struct GuessingGameEngine {
    round: Round,
}

impl View for GuessingGameEngine {
    type V = RoundView;

    closed spec fn view(&self) -> RoundView {
        self.round@
    }
}

impl GuessingGameEngine {
    /// Draws a secret and starts a round around it.
    pub fn start_round() -> (round: Round)
        ensures
            round@.valid(),
            round@.status == Status::InProgress,
    {
        let secret = next_in_range(SECRET_MIN, SECRET_MAX);
        Round::new(secret).unwrap()
    }

    /// An engine with a freshly drawn round.
    pub fn new() -> (engine: GuessingGameEngine)
        ensures
            engine@.valid(),
            engine@.status == Status::InProgress,
    {
        GuessingGameEngine { round: Self::start_round() }
    }

    /// An engine that carries on with `round`.
    pub fn with_round(round: Round) -> (engine: GuessingGameEngine)
        ensures
            engine@ == round@,
    {
        GuessingGameEngine { round }
    }

    /// The current round.
    pub fn round(&self) -> (round: Round)
        ensures
            round@ == self@,
            self@.valid(),
    {
        proof {
            use_type_invariant(&self.round);
        }
        self.round
    }

    /// Whether the current round still takes guesses.
    pub fn is_active(&self) -> (active: bool)
        ensures
            active == self@.is_active(),
    {
        self.round.is_active()
    }

    /// Judges one line of input against the current round.
    ///
    /// Text that holds no number is `Invalid`. A number is compared with the
    /// secret while the round is in progress, and turned away with `RoundOver`
    /// once it is won. The round is marked as won when the outcome is
    /// `Correct`, and left as it was in every other case.
    pub fn submit_guess(&mut self, raw_input: &str) -> (result: Result<Outcome, RoundOver>)
        ensures
            result == submit_result(old(self)@, raw_input@),
            final(self)@ == round_after(old(self)@, raw_input@),
    {
        match parse_guess(raw_input) {
            None => Ok(Outcome::Invalid),
            Some(guess) => {
                if !self.round.is_active() {
                    return Err(RoundOver);
                }
                let outcome = compare_guess(guess, self.round.secret());
                if outcome == Outcome::Correct {
                    self.round = self.round.won();
                }
                Ok(outcome)
            },
        }
    }

    /// Throws the current round away and starts a new one, which it also
    /// returns. The new secret is drawn afresh and owes nothing to the old one.
    pub fn reset(&mut self) -> (round: Round)
        ensures
            final(self)@ == round@,
            round@.valid(),
            round@.status == Status::InProgress,
    {
        let round = Self::start_round();
        self.round = round;
        round
    }
}

/// The round that submitting each of `inputs` in turn leaves behind.
pub open spec fn round_after_all(round: RoundView, inputs: Seq<Seq<char>>) -> RoundView
    decreases inputs.len(),
{
    if inputs.len() == 0 {
        round
    } else {
        round_after(round_after_all(round, inputs.drop_last()), inputs.last())
    }
}

/// What the input at position `i` is answered when `inputs` are submitted in
/// turn, starting from `round`.
pub open spec fn result_at(round: RoundView, inputs: Seq<Seq<char>>, i: int) -> Result<
    Outcome,
    RoundOver,
>
    recommends
        0 <= i < inputs.len(),
{
    submit_result(round_after_all(round, inputs.take(i)), inputs[i])
}

/// While a round is in progress, a guess below the secret is answered
/// `TooLow` and the round stays in progress.
pub proof fn lemma_guess_below_secret(round: RoundView, raw: Seq<char>, guess: u32)
    requires
        round.is_active(),
        parsed_guess(raw) == Some(guess),
        guess < round.secret,
    ensures
        submit_result(round, raw) == Ok::<Outcome, RoundOver>(Outcome::TooLow),
        round_after(round, raw) == round,
        round_after(round, raw).status == Status::InProgress,
{
}

/// While a round is in progress, a guess above the secret is answered
/// `TooHigh` and the round does not change.
pub proof fn lemma_guess_above_secret(round: RoundView, raw: Seq<char>, guess: u32)
    requires
        round.is_active(),
        parsed_guess(raw) == Some(guess),
        guess > round.secret,
    ensures
        submit_result(round, raw) == Ok::<Outcome, RoundOver>(Outcome::TooHigh),
        round_after(round, raw) == round,
{
}

/// While a round is in progress, guessing the secret is answered `Correct`
/// and wins the round; the secret stays what it was.
pub proof fn lemma_guess_equal_to_secret(round: RoundView, raw: Seq<char>, guess: u32)
    requires
        round.is_active(),
        parsed_guess(raw) == Some(guess),
        guess == round.secret,
    ensures
        submit_result(round, raw) == Ok::<Outcome, RoundOver>(Outcome::Correct),
        round_after(round, raw).status == Status::Won,
        round_after(round, raw).secret == round.secret,
{
}

/// Text that holds no number is answered `Invalid` whether the round is in
/// progress or won, and never changes the round.
pub proof fn lemma_text_without_number(round: RoundView, raw: Seq<char>)
    requires
        parsed_guess(raw) is None,
    ensures
        submit_result(round, raw) == Ok::<Outcome, RoundOver>(Outcome::Invalid),
        round_after(round, raw) == round,
{
}

/// A won round stays as it is whatever is submitted: numbers are turned away,
/// other text is `Invalid`, and nothing is answered `Correct` again.
pub proof fn lemma_won_round_is_final(round: RoundView, raw: Seq<char>)
    requires
        round.status == Status::Won,
    ensures
        round_after(round, raw) == round,
        submit_result(round, raw) == Err::<Outcome, RoundOver>(RoundOver) || submit_result(
            round,
            raw,
        ) == Ok::<Outcome, RoundOver>(Outcome::Invalid),
        parsed_guess(raw) is Some <==> submit_result(round, raw) is Err,
{
}

/// One submission keeps the secret, keeps a valid round valid, and changes
/// the status only from in progress to won, exactly when the answer is
/// `Correct`.
pub proof fn lemma_submission_step(round: RoundView, raw: Seq<char>)
    ensures
        round_after(round, raw).secret == round.secret,
        round.valid() ==> round_after(round, raw).valid(),
        round.status == Status::Won ==> round_after(round, raw).status == Status::Won,
        round_after(round, raw) != round <==> round.is_active() && submit_result(round, raw)
            == Ok::<Outcome, RoundOver>(Outcome::Correct),
{
}

/// However many inputs are submitted, the secret is the one the round was
/// made with, and a round that was won stays won.
pub proof fn lemma_secret_is_kept(round: RoundView, inputs: Seq<Seq<char>>)
    ensures
        round_after_all(round, inputs).secret == round.secret,
        round.valid() ==> round_after_all(round, inputs).valid(),
        round.status == Status::Won ==> round_after_all(round, inputs) == round,
    decreases inputs.len(),
{
    if inputs.len() > 0 {
        lemma_secret_is_kept(round, inputs.drop_last());
    }
}

/// Once some input has been answered `Correct`, the round is won after every
/// longer run of the same inputs.
proof fn lemma_won_after_correct(round: RoundView, inputs: Seq<Seq<char>>, i: int, n: int)
    requires
        0 <= i < n <= inputs.len(),
        result_at(round, inputs, i) == Ok::<Outcome, RoundOver>(Outcome::Correct),
    ensures
        round_after_all(round, inputs.take(n)).status == Status::Won,
    decreases n - i,
{
    assert(inputs.take(n).drop_last() =~= inputs.take(n - 1));
    assert(inputs.take(n).last() == inputs[n - 1]);
    if n - 1 > i {
        lemma_won_after_correct(round, inputs, i, n - 1);
    }
}

/// In any run of submissions to one round, at most one is answered `Correct`:
/// after it the round is won, and every later input is either turned away or
/// `Invalid`.
pub proof fn lemma_correct_at_most_once(
    round: RoundView,
    inputs: Seq<Seq<char>>,
    i: int,
    j: int,
)
    requires
        0 <= i < j < inputs.len(),
        result_at(round, inputs, i) == Ok::<Outcome, RoundOver>(Outcome::Correct),
    ensures
        round_after_all(round, inputs.take(j)).status == Status::Won,
        round_after_all(round, inputs).status == Status::Won,
        result_at(round, inputs, j) != Ok::<Outcome, RoundOver>(Outcome::Correct),
        result_at(round, inputs, j) is Err || result_at(round, inputs, j) == Ok::<
            Outcome,
            RoundOver,
        >(Outcome::Invalid),
{
    lemma_won_after_correct(round, inputs, i, j);
    lemma_won_after_correct(round, inputs, i, inputs.len() as int);
    assert(inputs.take(inputs.len() as int) =~= inputs);
}

/// Whether a round takes guesses depends on its state alone: asking twice
/// with nothing submitted in between gives the same answer.
pub proof fn lemma_is_active_is_stable(first: RoundView, second: RoundView)
    requires
        first == second,
    ensures
        first.is_active() == second.is_active(),
{
}

} // verus!
