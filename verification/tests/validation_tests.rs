use blog_api::crud::{create_author_check, create_post_check, user_params_check, validate_all_params};
use blog_api::validations::{
    DatabaseError, MissingParameter, Rejection, TooLongError, TooShortError, Validations,
};

#[test]
fn validate_accepts_four_to_fifteen_bytes() {
    assert_eq!(Validations::validate("abcd"), Ok(()));
    assert_eq!(Validations::validate("abcdefghijklmno"), Ok(()));
}

#[test]
fn validate_refuses_too_long_and_too_short() {
    assert_eq!(Validations::validate("abcdefghijklmnop"), Err(Rejection::TooLong(TooLongError)));
    assert_eq!(Validations::validate("abc"), Err(Rejection::TooShort(TooShortError)));
    assert_eq!(Validations::validate(""), Err(Rejection::TooShort(TooShortError)));
}

#[test]
fn validate_counts_bytes_not_characters() {
    // two characters of two bytes each
    assert_eq!(Validations::validate("éé"), Ok(()));
    // eight characters, sixteen bytes
    assert_eq!(Validations::validate("éééééééé"), Err(Rejection::TooLong(TooLongError)));
}

#[test]
fn length_predicates() {
    assert!(Validations::bigger_than_max_charachters("abcdef", 5));
    assert!(!Validations::bigger_than_max_charachters("abcde", 5));
    assert!(Validations::smaller_than_min_charachters("abc", 4));
    assert!(!Validations::smaller_than_min_charachters("abcd", 4));
    assert!(Validations::bigger_than_max_charachters("é", 1));
}

#[test]
fn special_characters_are_found() {
    assert!(!Validations::no_special_charachters("abcXYZ019"));
    assert!(!Validations::no_special_charachters(""));
    assert!(Validations::no_special_charachters("ab c"));
    assert!(Validations::no_special_charachters("a_b"));
    assert!(Validations::no_special_charachters("héllo"));
    assert!(Validations::no_special_charachters("line\nbreak"));
}

#[test]
fn all_params_pass_or_first_refusal_wins() {
    assert_eq!(validate_all_params(vec!["alice".to_string(), "secret1".to_string()]), Ok(true));
    assert_eq!(validate_all_params(vec![]), Ok(true));
    assert_eq!(
        validate_all_params(vec!["al".to_string(), "waytoolongpassword".to_string()]),
        Err(Rejection::TooShort(TooShortError))
    );
    assert_eq!(
        validate_all_params(vec!["alice".to_string(), "waytoolongpassword".to_string()]),
        Err(Rejection::TooLong(TooLongError))
    );
}

#[test]
fn author_creation_needs_a_valid_name() {
    assert_eq!(create_author_check(Some("Tolkien")), Ok(()));
    assert_eq!(create_author_check(Some("Al")), Err(Rejection::TooShort(TooShortError)));
    assert_eq!(create_author_check(None), Err(Rejection::MissingParameter(MissingParameter)));
}

#[test]
fn post_creation_needs_all_parameters_and_a_valid_title() {
    assert_eq!(create_post_check(Some("A title"), Some("body"), Some("1")), Ok(()));
    assert_eq!(
        create_post_check(Some("A very long title indeed"), Some("body"), Some("1")),
        Err(Rejection::TooLong(TooLongError))
    );
    assert_eq!(
        create_post_check(Some("A title"), None, Some("1")),
        Err(Rejection::Database(DatabaseError))
    );
}

#[test]
fn user_parameters_are_both_required_and_validated() {
    assert_eq!(user_params_check(Some("alice"), Some("secret1")), Ok(()));
    assert_eq!(
        user_params_check(Some("alice"), None),
        Err(Rejection::MissingParameter(MissingParameter))
    );
    assert_eq!(
        user_params_check(Some("bob"), Some("x")),
        Err(Rejection::TooShort(TooShortError))
    );
}
