use blog_api::hashing::{generate_salt, hash_string, salt_char_at, salt_from_indices, verify_string};
use blog_api::text::{decimal_string, to_hex_lower};

#[test]
fn hash_of_password_and_salt_is_sha256_hex() {
    assert_eq!(
        hash_string("password", "salt"),
        "7a37b85c8918eac19a9089c0fa5a2ab4dce3f90528dcdeec108b23ddf3607b99"
    );
}

#[test]
fn hash_of_empty_input_is_sha256_of_nothing() {
    assert_eq!(
        hash_string("", ""),
        "e3b0c44298fc1c149afbf4c8996fb92427ae41e4649b934ca495991b7852b855"
    );
}

#[test]
fn hash_is_sixty_four_lowercase_hex_digits() {
    let h = hash_string("secret", "ABCDEFGHabcdefgh");
    assert_eq!(h, "36d8db9f25031486ba25bc727facba6cd574ae15b38e9af9eb191015e96dd549");
    assert_eq!(h.len(), 64);
    assert!(h.chars().all(|c| c.is_ascii_digit() || ('a'..='f').contains(&c)));
}

#[test]
fn verify_accepts_the_stored_hash() {
    let stored = hash_string("alice", "salt1234567");
    assert!(verify_string(&stored, "alice", "salt1234567"));
}

#[test]
fn verify_rejects_wrong_password_or_salt() {
    let stored = hash_string("alice", "salt1234567");
    assert!(!verify_string(&stored, "alicf", "salt1234567"));
    assert!(!verify_string(&stored, "alice", "salt1234568"));
    assert!(!verify_string("", "alice", "salt1234567"));
}

#[test]
fn salt_is_sixteen_alphanumeric_characters() {
    for _ in 0..20 {
        let salt = generate_salt();
        assert_eq!(salt.chars().count(), 16);
        assert!(salt.chars().all(|c| c.is_ascii_alphanumeric()));
    }
}

#[test]
fn salt_alphabet_order() {
    assert_eq!(salt_char_at(0), 'A');
    assert_eq!(salt_char_at(25), 'Z');
    assert_eq!(salt_char_at(26), 'a');
    assert_eq!(salt_char_at(51), 'z');
    assert_eq!(salt_char_at(52), '0');
    assert_eq!(salt_char_at(61), '9');
    assert_eq!(salt_from_indices(&[0, 26, 52, 61, 7]), "Aa09H");
    assert_eq!(salt_from_indices(&[]), "");
}

#[test]
fn hex_rendering_of_bytes() {
    assert_eq!(to_hex_lower(&[0x0a, 0x14, 0x1e]), "0a141e");
    assert_eq!(to_hex_lower(&[0x00, 0xff, 0xbe, 0xef]), "00ffbeef");
    assert_eq!(to_hex_lower(&[]), "");
}

#[test]
fn decimal_rendering_matches_display() {
    for n in [0i64, 7, 10, 42, -1, -10, 1234567890, i64::MAX, i64::MIN] {
        assert_eq!(decimal_string(n), n.to_string());
    }
}

#[test]
fn generated_salt_has_no_special_characters() {
    for _ in 0..10 {
        let salt = generate_salt();
        assert!(!blog_api::validations::Validations::no_special_charachters(&salt));
    }
}

#[test]
fn different_bytes_render_differently() {
    assert_ne!(to_hex_lower(&[0x01, 0x23]), to_hex_lower(&[0x12, 0x30]));
    assert_ne!(to_hex_lower(&[0x00]), to_hex_lower(&[0x00, 0x00]));
    assert_eq!(to_hex_lower(&[0xab; 32]).len(), 64);
}
