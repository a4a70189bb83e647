use guessing_game::{GuessingGameEngine, Outcome, Round, RoundOver, Status, SECRET_MAX, SECRET_MIN};

fn engine_with_secret(secret: u32) -> GuessingGameEngine {
    GuessingGameEngine::with_round(Round::new(secret).expect("secret within the range"))
}

#[test]
fn scenario_low_high_correct_then_rejected() {
    let mut engine = engine_with_secret(50);
    assert_eq!(engine.submit_guess("10"), Ok(Outcome::TooLow));
    assert!(engine.is_active());
    assert_eq!(engine.submit_guess("90"), Ok(Outcome::TooHigh));
    assert!(engine.is_active());
    assert_eq!(engine.submit_guess("50"), Ok(Outcome::Correct));
    assert_eq!(engine.round().status(), Status::Won);
    assert!(!engine.is_active());
    assert_eq!(engine.submit_guess("50"), Err(RoundOver));
    assert_eq!(engine.round().status(), Status::Won);
    assert_eq!(engine.round().secret(), 50);
}

#[test]
fn scenario_invalid_text_then_correct() {
    let mut engine = engine_with_secret(7);
    assert_eq!(engine.submit_guess("seven"), Ok(Outcome::Invalid));
    assert_eq!(engine.round().status(), Status::InProgress);
    assert_eq!(engine.submit_guess("7"), Ok(Outcome::Correct));
    assert_eq!(engine.round().status(), Status::Won);
}

#[test]
fn every_guess_below_every_secret_is_too_low() {
    for secret in SECRET_MIN..=SECRET_MAX {
        let mut engine = engine_with_secret(secret);
        for guess in 0..secret {
            assert_eq!(engine.submit_guess(&guess.to_string()), Ok(Outcome::TooLow));
            assert_eq!(engine.round().status(), Status::InProgress);
            assert_eq!(engine.round().secret(), secret);
        }
    }
}

#[test]
fn every_guess_above_every_secret_is_too_high() {
    for secret in SECRET_MIN..=SECRET_MAX {
        let mut engine = engine_with_secret(secret);
        for guess in (secret + 1)..=(SECRET_MAX + 20) {
            assert_eq!(engine.submit_guess(&guess.to_string()), Ok(Outcome::TooHigh));
            assert_eq!(engine.round().status(), Status::InProgress);
            assert_eq!(engine.round().secret(), secret);
        }
        assert_eq!(engine.submit_guess("4294967295"), Ok(Outcome::TooHigh));
        assert!(engine.is_active());
    }
}

#[test]
fn guessing_the_secret_wins_every_round_once() {
    for secret in SECRET_MIN..=SECRET_MAX {
        let mut engine = engine_with_secret(secret);
        let text = secret.to_string();
        assert_eq!(engine.submit_guess(&text), Ok(Outcome::Correct));
        assert_eq!(engine.round().status(), Status::Won);
        assert_eq!(engine.round().secret(), secret);
        for _ in 0..3 {
            assert_eq!(engine.submit_guess(&text), Err(RoundOver));
            assert_eq!(engine.round().status(), Status::Won);
            assert_eq!(engine.round().secret(), secret);
        }
    }
}

#[test]
fn won_round_turns_every_number_away() {
    let mut engine = engine_with_secret(50);
    assert_eq!(engine.submit_guess("50"), Ok(Outcome::Correct));
    let won = engine.round();
    for text in ["0", "10", "49", "50", "51", "90", " 50 ", "+50", "4294967295"] {
        assert_eq!(engine.submit_guess(text), Err(RoundOver));
        assert_eq!(engine.round(), won);
    }
}

#[test]
fn text_without_number_is_invalid_while_in_progress() {
    let mut engine = engine_with_secret(42);
    let before = engine.round();
    for text in ["abc", "", "  ", "seven", "-1", "4.2", "4 2", "0x2A", "4294967296", "+", "\t\n"] {
        assert_eq!(engine.submit_guess(text), Ok(Outcome::Invalid));
        assert_eq!(engine.round(), before);
        assert!(engine.is_active());
    }
}

#[test]
fn text_without_number_is_invalid_after_the_win() {
    let mut engine = engine_with_secret(42);
    assert_eq!(engine.submit_guess("42"), Ok(Outcome::Correct));
    let won = engine.round();
    for text in ["abc", "", "  ", "seven", "-1", "4294967296"] {
        assert_eq!(engine.submit_guess(text), Ok(Outcome::Invalid));
        assert_eq!(engine.round(), won);
        assert!(!engine.is_active());
    }
}

#[test]
fn whitespace_and_plus_sign_around_a_guess_are_accepted() {
    let mut engine = engine_with_secret(50);
    assert_eq!(engine.submit_guess(" 10\n"), Ok(Outcome::TooLow));
    assert_eq!(engine.submit_guess("+90"), Ok(Outcome::TooHigh));
    assert_eq!(engine.submit_guess("\t+00050\r\n"), Ok(Outcome::Correct));
    assert!(!engine.is_active());
}

#[test]
fn is_active_gives_the_same_answer_until_something_is_submitted() {
    let mut engine = engine_with_secret(3);
    for _ in 0..5 {
        assert!(engine.is_active());
    }
    assert_eq!(engine.submit_guess("3"), Ok(Outcome::Correct));
    for _ in 0..5 {
        assert!(!engine.is_active());
    }
    engine.reset();
    for _ in 0..5 {
        assert!(engine.is_active());
    }
}

#[test]
fn start_round_draws_a_secret_within_the_range() {
    for _ in 0..1000 {
        let round = GuessingGameEngine::start_round();
        assert!(SECRET_MIN <= round.secret() && round.secret() <= SECRET_MAX);
        assert_eq!(round.status(), Status::InProgress);
        assert!(round.is_active());
    }
}

#[test]
fn new_engine_starts_in_progress() {
    let engine = GuessingGameEngine::new();
    assert!(engine.is_active());
    let round = engine.round();
    assert!(1 <= round.secret() && round.secret() <= 100);
    assert_eq!(round.status(), Status::InProgress);
}

#[test]
fn reset_replaces_a_won_round_with_a_fresh_one() {
    let mut engine = engine_with_secret(50);
    assert_eq!(engine.submit_guess("50"), Ok(Outcome::Correct));
    for _ in 0..200 {
        let fresh = engine.reset();
        assert_eq!(engine.round(), fresh);
        assert_eq!(fresh.status(), Status::InProgress);
        assert!(1 <= fresh.secret() && fresh.secret() <= 100);
        assert!(engine.is_active());
        assert_eq!(engine.submit_guess(&fresh.secret().to_string()), Ok(Outcome::Correct));
        assert!(!engine.is_active());
    }
}

#[test]
fn reset_replaces_a_round_in_progress_too() {
    let mut engine = engine_with_secret(50);
    assert_eq!(engine.submit_guess("10"), Ok(Outcome::TooLow));
    let fresh = engine.reset();
    assert_eq!(engine.round(), fresh);
    assert_eq!(fresh.status(), Status::InProgress);
}

#[test]
fn drawn_secrets_are_not_all_the_same() {
    let mut seen = [false; 101];
    let mut engine = GuessingGameEngine::new();
    for _ in 0..2000 {
        let secret = engine.reset().secret();
        seen[secret as usize] = true;
    }
    assert!(!seen[0]);
    let distinct = seen.iter().filter(|hit| **hit).count();
    assert!(distinct > 1);
    assert!(distinct <= 100);
}

#[test]
fn round_new_accepts_exactly_the_range() {
    assert_eq!(Round::new(0), None);
    assert_eq!(Round::new(101), None);
    assert_eq!(Round::new(u32::MAX), None);
    for secret in 1..=100u32 {
        let round = Round::new(secret).expect("secret within the range");
        assert_eq!(round.secret(), secret);
        assert_eq!(round.status(), Status::InProgress);
        assert!(round.is_active());
    }
    assert_eq!(SECRET_MIN, 1);
    assert_eq!(SECRET_MAX, 100);
}

#[test]
fn with_round_keeps_the_round_it_is_given() {
    let round = Round::new(64).expect("secret within the range");
    let engine = GuessingGameEngine::with_round(round);
    assert_eq!(engine.round(), round);
    assert!(engine.is_active());
}
