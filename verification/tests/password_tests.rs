use rustguard::password::{
    alphabet_char, alphabet_len, generate_password, LETTERS_AND_DIGITS, SYMBOLS,
};

#[test]
fn alphabet_has_sixty_two_or_ninety_characters() {
    assert_eq!(alphabet_len(false), 62);
    assert_eq!(alphabet_len(true), 90);
    assert_eq!(LETTERS_AND_DIGITS.chars().count(), 62);
    assert_eq!(SYMBOLS.chars().count(), 28);
}

#[test]
fn alphabet_characters_are_in_order() {
    assert_eq!(alphabet_char(false, 0), Some('a'));
    assert_eq!(alphabet_char(false, 25), Some('z'));
    assert_eq!(alphabet_char(false, 26), Some('A'));
    assert_eq!(alphabet_char(false, 61), Some('9'));
    assert_eq!(alphabet_char(true, 61), Some('9'));
    assert_eq!(alphabet_char(true, 62), Some('!'));
    assert_eq!(alphabet_char(true, 88), Some('\\'));
    assert_eq!(alphabet_char(true, 89), Some('|'));
}

#[test]
fn alphabet_ends_where_its_length_says() {
    assert_eq!(alphabet_char(false, 62), None);
    assert_eq!(alphabet_char(true, 90), None);
    assert_eq!(alphabet_char(false, usize::MAX), None);
    assert_eq!(alphabet_char(true, usize::MAX), None);
}

#[test]
fn generated_password_has_the_length_asked_for() {
    for length in [0usize, 1, 16, 64, 1000] {
        assert_eq!(generate_password(length, false).unwrap().chars().count(), length);
        assert_eq!(generate_password(length, true).unwrap().chars().count(), length);
    }
}

#[test]
fn generated_password_of_no_characters_is_empty() {
    assert_eq!(generate_password(0, false), Ok(String::new()));
    assert_eq!(generate_password(0, true), Ok(String::new()));
}

#[test]
fn generated_password_without_symbols_is_alphanumeric() {
    let password = generate_password(5000, false).unwrap();
    assert!(password.chars().all(|c| LETTERS_AND_DIGITS.contains(c)));
}

#[test]
fn generated_password_with_symbols_stays_in_the_alphabet() {
    let password = generate_password(5000, true).unwrap();
    assert!(password
        .chars()
        .all(|c| LETTERS_AND_DIGITS.contains(c) || SYMBOLS.contains(c)));
    assert!(password.chars().any(|c| SYMBOLS.contains(c)));
}

#[test]
fn generated_passwords_differ() {
    assert_ne!(generate_password(32, true).unwrap(), generate_password(32, true).unwrap());
}
