use secure_password_manager::password_generator::{
    GeneratorError, PasswordGenerator, MIN_PASSWORD_LEN,
};

const LOWER: &str = "abcdefghijklmnopqrstuvwxyz";
const UPPER: &str = "ABCDEFGHIJKLMNOPQRSTUVWXYZ";
const DIGITS: &str = "0123456789";
const SYMBOLS: &str = "!@#$%^&*()-_=+[]{}|;:,.<>?";

fn has_one_of(password: &str, alphabet: &str) -> bool {
    password.chars().any(|c| alphabet.contains(c))
}

#[test]
fn generate_rejects_lengths_under_four() {
    let generator = PasswordGenerator::new();
    assert_eq!(MIN_PASSWORD_LEN, 4);
    for length in 0..4 {
        assert_eq!(generator.generate(length, true), Err(GeneratorError::LengthTooShort));
        assert_eq!(generator.generate(length, false), Err(GeneratorError::LengthTooShort));
    }
    assert_eq!(
        GeneratorError::LengthTooShort.message(),
        "Password length must be at least 4 characters"
    );
}

#[test]
fn generate_returns_the_length_asked_for() {
    let generator = PasswordGenerator::new();
    for length in [4usize, 5, 16, 64, 200] {
        assert_eq!(generator.generate(length, true).unwrap().chars().count(), length);
        assert_eq!(generator.generate(length, false).unwrap().len(), length);
    }
}

#[test]
fn generate_with_symbols_holds_every_class() {
    let generator = PasswordGenerator::new();
    for _ in 0..200 {
        let password = generator.generate(4, true).unwrap();
        assert!(has_one_of(&password, LOWER));
        assert!(has_one_of(&password, UPPER));
        assert!(has_one_of(&password, DIGITS));
        assert!(has_one_of(&password, SYMBOLS));
    }
}

#[test]
fn generate_without_symbols_holds_letters_and_digits_only() {
    let generator = PasswordGenerator::new();
    for _ in 0..200 {
        let password = generator.generate(12, false).unwrap();
        assert!(has_one_of(&password, LOWER));
        assert!(has_one_of(&password, UPPER));
        assert!(has_one_of(&password, DIGITS));
        assert!(!has_one_of(&password, SYMBOLS));
        assert!(password.chars().all(|c| c.is_ascii_alphanumeric()));
    }
}

#[test]
fn generate_draws_from_the_character_set() {
    let generator = PasswordGenerator::new();
    let all = format!("{}{}{}{}", LOWER, UPPER, DIGITS, SYMBOLS);
    let password = generator.generate(500, true).unwrap();
    assert!(password.chars().all(|c| all.contains(c)));
}

#[test]
fn generate_gives_different_passwords() {
    let generator = PasswordGenerator::new();
    let a = generator.generate(32, true).unwrap();
    let b = generator.generate(32, true).unwrap();
    assert_ne!(a, b);
}

#[test]
fn generate_puts_the_required_characters_anywhere() {
    let generator = PasswordGenerator::new();
    let mut first_is_not_lowercase = false;
    for _ in 0..200 {
        let password = generator.generate(16, true).unwrap();
        if !LOWER.contains(password.chars().next().unwrap()) {
            first_is_not_lowercase = true;
        }
    }
    assert!(first_is_not_lowercase);
}
