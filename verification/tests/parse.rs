use guessing_game::parse::parse_guess;

#[test]
fn plain_number() {
    assert_eq!(parse_guess("42"), Some(42));
}

#[test]
fn number_with_surrounding_blanks() {
    assert_eq!(parse_guess("  42\r\n"), Some(42));
    assert_eq!(parse_guess("\t7\n"), Some(7));
}

#[test]
fn zero_and_leading_zeros() {
    assert_eq!(parse_guess("0"), Some(0));
    assert_eq!(parse_guess("007"), Some(7));
}

#[test]
fn largest_value() {
    assert_eq!(parse_guess("4294967295"), Some(u32::MAX));
}

#[test]
fn value_too_large() {
    assert_eq!(parse_guess("4294967296"), None);
    assert_eq!(parse_guess("99999999999999999999"), None);
}

#[test]
fn non_numeric_rejected() {
    assert_eq!(parse_guess("abc"), None);
    assert_eq!(parse_guess("12a"), None);
    assert_eq!(parse_guess("1 2"), None);
}

#[test]
fn negative_rejected() {
    assert_eq!(parse_guess("-5"), None);
}

#[test]
fn empty_and_blank_rejected() {
    assert_eq!(parse_guess(""), None);
    assert_eq!(parse_guess("   \n"), None);
}

#[test]
fn parse_is_repeatable() {
    let first = parse_guess("42");
    let again = parse_guess("42");
    assert_eq!(first, Some(42));
    assert_eq!(again, first);
}
