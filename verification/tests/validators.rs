//! The rule library and its composition.

use cli_ui::prompt::{
    alpha_only, alphanumeric, email, ends_with, exact_chars, forbid_chars, has_digit, has_lower,
    has_special, has_upper, int_between, max_chars, min_chars, one_of, only_chars, required,
    starts_with, word_count, words_between, Validator,
};

fn err(v: &Validator, input: &str) -> String {
    match v.check(input) {
        Ok(()) => panic!("expected {input:?} to be refused"),
        Err(m) => m,
    }
}

#[test]
fn required_refuses_blank_input() {
    assert_eq!(err(&required(), "   "), "Value is required");
    assert!(required().check(" x ").is_ok());
}

#[test]
fn character_counts() {
    assert_eq!(err(&min_chars(3), "ab"), "Must be at least 3 characters");
    assert!(min_chars(3).check("héé").is_ok());
    assert_eq!(err(&max_chars(2), "abc"), "Must be at most 2 characters");
    assert!(max_chars(2).check("ab").is_ok());
    assert_eq!(err(&exact_chars(2), "abc"), "Must be exactly 2 characters (got 3)");
    assert!(exact_chars(2).check("ab").is_ok());
}

#[test]
fn word_counts() {
    assert!(word_count(2).check("  hello\tworld ").is_ok());
    assert_eq!(err(&word_count(2), "one"), "Must be exactly 2 words (got 1)");
    assert!(words_between(1, 3).check("a b c").is_ok());
    assert_eq!(err(&words_between(1, 3), ""), "Must be 1–3 words (got 0)");
    assert_eq!(err(&words_between(1, 3), "a b c d"), "Must be 1–3 words (got 4)");
}

#[test]
fn character_classes() {
    assert!(has_upper().check("aB").is_ok());
    assert_eq!(err(&has_upper(), "ab"), "Must contain an uppercase letter");
    assert!(has_lower().check("Ab").is_ok());
    assert_eq!(err(&has_lower(), "AB"), "Must contain a lowercase letter");
    assert!(has_digit().check("a1").is_ok());
    assert_eq!(err(&has_digit(), "ab"), "Must contain a digit");
    assert!(has_special().check("a!").is_ok());
    assert_eq!(err(&has_special(), "ab1"), "Must contain a special character");
}

#[test]
fn letters_and_digits() {
    assert!(alpha_only().check("héllo").is_ok());
    assert_eq!(err(&alpha_only(), "abc1"), "Letters only");
    assert!(alphanumeric().check("abc1").is_ok());
    assert_eq!(err(&alphanumeric(), "a b"), "Letters and digits only");
}

#[test]
fn allowed_and_forbidden_characters() {
    assert!(only_chars("abc").check("cab").is_ok());
    assert_eq!(err(&only_chars("abc"), "abd"), "Allowed characters: abc");
    assert!(forbid_chars("/\\").check("name").is_ok());
    assert_eq!(err(&forbid_chars("/\\"), "a/b\\c"), "'/' is not allowed");
}

#[test]
fn integers_in_range() {
    assert!(int_between(1, 10).check(" 7 ").is_ok());
    assert!(int_between(-5, 5).check("-5").is_ok());
    assert_eq!(err(&int_between(1, 10), "11"), "Must be between 1 and 10 (got 11)");
    assert_eq!(err(&int_between(1, 10), "+0"), "Must be between 1 and 10 (got 0)");
    assert_eq!(err(&int_between(1, 10), "seven"), "Must be an integer");
}

#[test]
fn email_shape() {
    assert!(email().check(" a@b.c ").is_ok());
    assert_eq!(err(&email(), "a@b"), "Must be a valid email");
    assert_eq!(err(&email(), "@b.c"), "Must be a valid email");
    assert_eq!(err(&email(), "a@.bc"), "Must be a valid email");
    assert_eq!(err(&email(), "a@bc."), "Must be a valid email");
    assert!(email().check("a@b@c.d").is_ok());
}

#[test]
fn prefixes_suffixes_and_choices() {
    assert!(starts_with("ab").check("abc").is_ok());
    assert_eq!(err(&starts_with("ab"), "cab"), "Must start with `ab`");
    assert!(ends_with("bc").check("abc").is_ok());
    assert_eq!(err(&ends_with("bc"), "bca"), "Must end with `bc`");
    assert!(one_of(&["red", "green"]).check("green").is_ok());
    assert_eq!(err(&one_of(&["red", "green"]), "Red"), "Must be one of: red, green");
}

#[test]
fn composition_and_messages() {
    let both = min_chars(3).and(has_digit());
    assert_eq!(err(&both, "a1"), "Must be at least 3 characters");
    assert_eq!(err(&both, "abc"), "Must contain a digit");
    assert!(both.check("ab1").is_ok());
    let either = has_digit().or(has_upper());
    assert!(either.check("A").is_ok());
    assert_eq!(err(&either, "a"), "Must contain an uppercase letter");
    let renamed = min_chars(3).msg("Too short");
    assert_eq!(err(&renamed, "a"), "Too short");
    assert!(renamed.check("abc").is_ok());
    let copy = both.clone();
    assert_eq!(err(&copy, "abc"), "Must contain a digit");
}

#[test]
fn user_rules() {
    let even = Validator::new(|s: &str| {
        if s.len() % 2 == 0 { Ok(()) } else { Err("odd length".to_string()) }
    });
    assert!(even.check("ab").is_ok());
    assert_eq!(err(&even, "abc"), "odd length");
    let from: Validator = Validator::from(|s: &str| if s == "x" { Ok(()) } else { Err("not x".to_string()) });
    assert_eq!(err(&from, "y"), "not x");
    let combined = even.and(min_chars(4));
    assert_eq!(err(&combined, "ab"), "Must be at least 4 characters");
}

fn is_x() -> Validator {
    Validator::new(|s: &str| if s == "x" { Ok(()) } else { Err("not x".to_string()) })
}

#[test]
fn user_rules_compose_like_built_in_ones() {
    let renamed = is_x().msg("pick x");
    assert!(renamed.check("x").is_ok());
    assert_eq!(err(&renamed, "y"), "pick x");
    let first = required().and(is_x());
    assert_eq!(err(&first, " "), "Value is required");
    assert_eq!(err(&first, "y"), "not x");
    let either = is_x().or(min_chars(3));
    assert!(either.check("x").is_ok());
    assert!(either.check("abc").is_ok());
    assert_eq!(err(&either, "ab"), "Must be at least 3 characters");
    let other = min_chars(3).or(is_x());
    assert_eq!(err(&other, "ab"), "not x");
}

#[test]
fn unicode_spaces_separate_words() {
    assert!(word_count(2).check("a\u{3000}b").is_ok());
    assert!(word_count(2).check("a\u{a0}b").is_ok());
    assert!(word_count(1).check("a\u{200b}b").is_ok());
    assert_eq!(err(&required(), "\u{2028}\u{85}"), "Value is required");
}
