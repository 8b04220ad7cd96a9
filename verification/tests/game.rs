use guessing_game::Feedback;
use guessing_game::compare_guess;
use guessing_game::game::Game;
use guessing_game::game::StepOutcome;
use guessing_game::parse::parse_guess;

#[test]
fn feedback_direction_examples() {
    assert_eq!(compare_guess(10, 42), Feedback::TooSmall);
    assert_eq!(compare_guess(50, 42), Feedback::TooBig);
    assert_eq!(compare_guess(42, 42), Feedback::Win);
}

#[test]
fn feedback_messages() {
    assert_eq!(Feedback::TooSmall.message(), "Too small!");
    assert_eq!(Feedback::TooBig.message(), "Too big!");
    assert_eq!(Feedback::Win.message(), "You win!");
}

#[test]
fn feedback_direction_whole_range() {
    for t in 1..=100u32 {
        for g in 1..=100u32 {
            let f = compare_guess(g, t);
            if g < t {
                assert_eq!(f, Feedback::TooSmall);
            } else if g > t {
                assert_eq!(f, Feedback::TooBig);
            } else {
                assert_eq!(f, Feedback::Win);
            }
        }
    }
}

#[test]
fn scripted_session_with_target_42() {
    let game = Game::with_target(42);
    let script = vec![String::from("abc"), String::from("10"), String::from("42")];
    let log = game.play_script(&script);
    assert_eq!(
        log,
        vec![
            StepOutcome::Rejected,
            StepOutcome::Judged(10, Feedback::TooSmall),
            StepOutcome::Judged(42, Feedback::Win),
        ]
    );
}

#[test]
fn session_stops_right_after_the_winning_line() {
    let game = Game::with_target(42);
    let script = vec![
        String::from("100"),
        String::from("1"),
        String::from("50"),
        String::from("42"),
        String::from("77"),
    ];
    let log = game.play_script(&script);
    assert_eq!(log.len(), 4);
    assert_eq!(log[0], StepOutcome::Judged(100, Feedback::TooBig));
    assert_eq!(log[1], StepOutcome::Judged(1, Feedback::TooSmall));
    assert_eq!(log[2], StepOutcome::Judged(50, Feedback::TooBig));
    assert_eq!(log[3], StepOutcome::Judged(42, Feedback::Win));
}

#[test]
fn session_without_a_winning_line_consumes_every_line() {
    let game = Game::with_target(42);
    let script = vec![String::from("41"), String::from("43"), String::from("x")];
    let log = game.play_script(&script);
    assert_eq!(
        log,
        vec![
            StepOutcome::Judged(41, Feedback::TooSmall),
            StepOutcome::Judged(43, Feedback::TooBig),
            StepOutcome::Rejected,
        ]
    );
}

#[test]
fn rejected_lines_leave_the_session_unchanged() {
    let game = Game::with_target(42);
    assert_eq!(game.step("hello"), StepOutcome::Rejected);
    assert_eq!(game.step("hello"), StepOutcome::Rejected);
    assert_eq!(game.step(""), StepOutcome::Rejected);
    assert_eq!(game.target(), 42);
    assert_eq!(game.step("42"), StepOutcome::Judged(42, Feedback::Win));
}

#[test]
fn boundary_target_one() {
    let game = Game::with_target(1);
    assert_eq!(game.step("100"), StepOutcome::Judged(100, Feedback::TooBig));
    assert_eq!(game.step("2"), StepOutcome::Judged(2, Feedback::TooBig));
    assert_eq!(game.step("1"), StepOutcome::Judged(1, Feedback::Win));
}

#[test]
fn boundary_target_one_hundred() {
    let game = Game::with_target(100);
    assert_eq!(game.step("1"), StepOutcome::Judged(1, Feedback::TooSmall));
    assert_eq!(game.step("99"), StepOutcome::Judged(99, Feedback::TooSmall));
    assert_eq!(game.step("100"), StepOutcome::Judged(100, Feedback::Win));
}

#[test]
fn random_target_stays_in_range() {
    for _ in 0..50 {
        let game = Game::new();
        let t = game.target();
        assert!((1..=100).contains(&t));
    }
}

#[test]
fn parse_accepts_plain_and_padded_digits() {
    assert_eq!(parse_guess("42"), Some(42));
    assert_eq!(parse_guess(" 42 "), Some(42));
    assert_eq!(parse_guess("\t42\r\n"), Some(42));
    assert_eq!(parse_guess("042"), Some(42));
    assert_eq!(parse_guess("0"), Some(0));
    assert_eq!(parse_guess("4294967295"), Some(u32::MAX));
}

#[test]
fn parse_rejects_non_numeric_input() {
    assert_eq!(parse_guess(""), None);
    assert_eq!(parse_guess("   "), None);
    assert_eq!(parse_guess("abc"), None);
    assert_eq!(parse_guess("12a"), None);
    assert_eq!(parse_guess("4 2"), None);
    assert_eq!(parse_guess("+42"), None);
    assert_eq!(parse_guess("-3"), None);
    assert_eq!(parse_guess("１２"), None);
}

#[test]
fn parse_rejects_values_beyond_u32() {
    assert_eq!(parse_guess("4294967296"), None);
    assert_eq!(parse_guess("99999999999999999999"), None);
}
