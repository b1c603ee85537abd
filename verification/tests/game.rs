use guessing_game::game::compare;
use guessing_game::game::new_secret;
use guessing_game::game::Outcome;
use guessing_game::game::Reply;
use guessing_game::game::Session;
use guessing_game::game::State;

#[test]
fn outcome_partition_exhaustive() {
    for s in 1u32..=100 {
        for g in 1u32..=100 {
            let o = compare(g, s);
            assert_eq!(o == Outcome::Less, g < s);
            assert_eq!(o == Outcome::Greater, g > s);
            assert_eq!(o == Outcome::Equal, g == s);
        }
    }
}

#[test]
fn scenario_secret_fifty() {
    let mut session = Session::new(50);
    assert_eq!(session.submit("abc"), Reply::ParseError);
    assert_eq!(session.submit("25"), Reply::TooLow(25));
    assert_eq!(session.submit("75"), Reply::TooHigh(75));
    assert_eq!(session.submit("50"), Reply::Won(50));
    assert_eq!(session.state, State::Won);
    assert_eq!(session.secret, 50);
}

#[test]
fn scenario_secret_one() {
    let mut session = Session::new(1);
    assert_eq!(session.submit("1"), Reply::Won(1));
    assert_eq!(session.state, State::Won);
}

#[test]
fn scenario_secret_one_hundred() {
    let mut session = Session::new(100);
    assert_eq!(session.submit("99"), Reply::TooLow(99));
    assert_eq!(session.state, State::AwaitingInput);
    assert_eq!(session.submit("100"), Reply::Won(100));
    assert_eq!(session.state, State::Won);
}

#[test]
fn malformed_lines_change_nothing() {
    let mut session = Session::new(42);
    for line in ["", "  ", "forty-two", "-1", "9999999999999999999999"] {
        assert_eq!(session.submit(line), Reply::ParseError);
        assert_eq!(session.state, State::AwaitingInput);
        assert_eq!(session.secret, 42);
    }
    assert_eq!(session.submit("42"), Reply::Won(42));
}

#[test]
fn well_formed_guess_answered_the_same_after_failures() {
    let mut fresh = Session::new(60);
    let direct = fresh.submit("42");
    let mut tried = Session::new(60);
    assert_eq!(tried.submit("abc"), Reply::ParseError);
    assert_eq!(tried.submit("x"), Reply::ParseError);
    assert_eq!(tried.submit("42"), direct);
    assert_eq!(direct, Reply::TooLow(42));
}

#[test]
fn guesses_outside_the_secret_range_still_compare() {
    let mut session = Session::new(100);
    assert_eq!(session.submit("101"), Reply::TooHigh(101));
    assert_eq!(session.submit("0"), Reply::TooLow(0));
    assert_eq!(session.state, State::AwaitingInput);
}

#[test]
fn drawn_secret_lies_in_range() {
    for _ in 0..200 {
        let s = new_secret();
        assert!((1..=100).contains(&s));
    }
}

#[test]
fn random_session_starts_waiting() {
    let session = Session::random();
    assert!((1..=100).contains(&session.secret));
    assert_eq!(session.state, State::AwaitingInput);
}
