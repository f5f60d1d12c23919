use rustguard::cipher::{
    decrypt, decrypt_message, encode_sealed, encrypt, encrypt_message, nonce_from_bytes, seal,
    text_from_opened, unseal, BASE64_ALPHABET, KEY_LEN, MAX_PLAINTEXT_LEN, NONCE_LEN, TAG_LEN,
};
use rustguard::error::VaultError;
use std::collections::HashSet;

const KEY: [u8; 32] = *b"ThisIsASecretKeyForAES256!!!1234";
const OTHER_KEY: [u8; 32] = *b"ThisIsAnotherKeyForAES256!!!5678";

fn hex(text: &str) -> Vec<u8> {
    let digits: Vec<u8> = text
        .bytes()
        .map(|b| match b {
            b'0'..=b'9' => b - b'0',
            _ => b - b'a' + 10,
        })
        .collect();
    digits.chunks(2).map(|pair| pair[0] * 16 + pair[1]).collect()
}

#[test]
fn sizes_are_those_of_aes_256_gcm() {
    assert_eq!(KEY_LEN, 32);
    assert_eq!(NONCE_LEN, 12);
    assert_eq!(TAG_LEN, 16);
    assert_eq!(MAX_PLAINTEXT_LEN, 1u64 << 36);
}

#[test]
fn round_trip_plain_text() {
    let (nonce, sealed) = encrypt(&KEY, "secret123").unwrap();
    assert_eq!(sealed.len(), 9 + 16);
    assert_eq!(decrypt(&KEY, &nonce, &sealed), Ok("secret123".to_string()));
}

#[test]
fn round_trip_empty_text() {
    let (nonce, sealed) = encrypt(&KEY, "").unwrap();
    assert_eq!(sealed.len(), 16);
    assert_eq!(decrypt(&KEY, &nonce, &sealed), Ok(String::new()));
}

#[test]
fn round_trip_text_with_null_and_unicode() {
    let text = "p\u{0}ss\u{e9}\u{4e16}\u{754c}\u{1f511} w\u{0}rd";
    let (nonce, sealed) = encrypt(&KEY, text).unwrap();
    assert_eq!(sealed.len(), text.len() + 16);
    assert_eq!(decrypt(&KEY, &nonce, &sealed), Ok(text.to_string()));
}

#[test]
fn round_trip_under_many_keys() {
    for seed in 0u8..32 {
        let mut key = [0u8; 32];
        for (i, byte) in key.iter_mut().enumerate() {
            *byte = seed.wrapping_mul(31).wrapping_add(i as u8);
        }
        let text = format!("password number {}", seed);
        let (nonce, sealed) = encrypt(&key, &text).unwrap();
        assert_eq!(decrypt(&key, &nonce, &sealed), Ok(text));
    }
}

#[test]
fn round_trip_message() {
    let (nonce_text, sealed_text) = encrypt_message(&KEY, "secret123").unwrap();
    assert_eq!(nonce_text.len(), 16);
    assert_eq!(sealed_text.len(), 36);
    assert_eq!(
        decrypt_message(&KEY, &nonce_text, &sealed_text),
        Ok("secret123".to_string())
    );
}

#[test]
fn round_trip_message_empty_and_unicode() {
    for text in ["", "\u{0}", "na\u{ef}ve \u{1f600}", "a\nb\tc"] {
        let (nonce_text, sealed_text) = encrypt_message(&KEY, text).unwrap();
        assert_eq!(decrypt_message(&KEY, &nonce_text, &sealed_text), Ok(text.to_string()));
    }
}

#[test]
fn seal_matches_known_answer_for_empty_plaintext() {
    let sealed = seal(&[0u8; 32], &[0u8; 12], &[]).unwrap();
    assert_eq!(sealed, hex("530f8afbc74536b9a963b4f1c4cb738b"));
}

#[test]
fn seal_matches_known_answer_for_one_block() {
    let sealed = seal(&[0u8; 32], &[0u8; 12], &[0u8; 16]).unwrap();
    assert_eq!(
        sealed,
        hex("cea7403d4d606b6e074ec5d3baf39d18d0d1c8a799996bf0265b98b5d48ab919")
    );
}

#[test]
fn unseal_matches_known_answer() {
    let sealed = hex("cea7403d4d606b6e074ec5d3baf39d18d0d1c8a799996bf0265b98b5d48ab919");
    assert_eq!(unseal(&[0u8; 32], &[0u8; 12], &sealed), Ok(vec![0u8; 16]));
    assert_eq!(
        unseal(&[0u8; 32], &[0u8; 12], &hex("530f8afbc74536b9a963b4f1c4cb738b")),
        Ok(vec![])
    );
}

#[test]
fn seal_is_a_function_of_key_nonce_and_plaintext() {
    let nonce = [7u8; 12];
    let first = seal(&KEY, &nonce, b"same input").unwrap();
    let second = seal(&KEY, &nonce, b"same input").unwrap();
    assert_eq!(first, second);
    assert_ne!(first, seal(&KEY, &[8u8; 12], b"same input").unwrap());
    assert_ne!(first, seal(&OTHER_KEY, &nonce, b"same input").unwrap());
    assert_ne!(&first[..10], b"same input");
}

#[test]
fn unseal_inverts_seal() {
    let nonce = [9u8; 12];
    let sealed = seal(&KEY, &nonce, &[1, 2, 3, 255, 0]).unwrap();
    assert_eq!(sealed.len(), 5 + 16);
    assert_eq!(unseal(&KEY, &nonce, &sealed), Ok(vec![1, 2, 3, 255, 0]));
}

#[test]
fn nonces_do_not_repeat() {
    let mut seen = HashSet::new();
    for _ in 0..2000 {
        let (nonce, _) = encrypt(&KEY, "x").unwrap();
        assert!(seen.insert(nonce));
    }
    assert_eq!(seen.len(), 2000);
}

#[test]
fn message_nonces_do_not_repeat() {
    let mut seen = HashSet::new();
    for _ in 0..1000 {
        let (nonce_text, _) = encrypt_message(&KEY, "x").unwrap();
        assert!(seen.insert(nonce_text));
    }
}

#[test]
fn any_flipped_bit_of_the_sealed_bytes_is_detected() {
    let (nonce, sealed) = encrypt(&KEY, "secret123").unwrap();
    for position in 0..sealed.len() {
        for bit in 0..8 {
            let mut damaged = sealed.clone();
            damaged[position] ^= 1 << bit;
            assert_eq!(decrypt(&KEY, &nonce, &damaged), Err(VaultError::Authentication));
        }
    }
}

#[test]
fn any_flipped_bit_of_the_nonce_is_detected() {
    let (nonce, sealed) = encrypt(&KEY, "secret123").unwrap();
    for position in 0..nonce.len() {
        for bit in 0..8 {
            let mut damaged = nonce;
            damaged[position] ^= 1 << bit;
            assert_eq!(decrypt(&KEY, &damaged, &sealed), Err(VaultError::Authentication));
        }
    }
}

#[test]
fn wrong_key_is_rejected() {
    let (nonce, sealed) = encrypt(&KEY, "secret123").unwrap();
    assert_eq!(decrypt(&OTHER_KEY, &nonce, &sealed), Err(VaultError::Authentication));
    let (nonce_text, sealed_text) = encrypt_message(&KEY, "secret123").unwrap();
    assert_eq!(
        decrypt_message(&OTHER_KEY, &nonce_text, &sealed_text),
        Err(VaultError::Authentication)
    );
}

#[test]
fn sealed_bytes_shorter_than_a_tag_are_rejected() {
    let nonce = [0u8; 12];
    assert_eq!(decrypt(&KEY, &nonce, &[]), Err(VaultError::Authentication));
    assert_eq!(decrypt(&KEY, &nonce, &[0u8; 15]), Err(VaultError::Authentication));
    assert_eq!(unseal(&KEY, &nonce, &[1u8; 15]), Err(VaultError::Authentication));
}

#[test]
fn truncated_sealed_bytes_are_rejected() {
    let (nonce, sealed) = encrypt(&KEY, "secret123").unwrap();
    assert_eq!(
        decrypt(&KEY, &nonce, &sealed[..sealed.len() - 1]),
        Err(VaultError::Authentication)
    );
    assert_eq!(decrypt(&KEY, &nonce, &sealed[1..]), Err(VaultError::Authentication));
}

#[test]
fn plaintext_that_is_not_utf8_is_an_encoding_error() {
    let nonce = [3u8; 12];
    let sealed = seal(&KEY, &nonce, &[0xff, 0xfe, 0x41]).unwrap();
    assert_eq!(decrypt(&KEY, &nonce, &sealed), Err(VaultError::Encoding));
    let (nonce_text, sealed_text) = encode_sealed(&nonce, &sealed);
    assert_eq!(
        decrypt_message(&KEY, &nonce_text, &sealed_text),
        Err(VaultError::Encoding)
    );
}

#[test]
fn malformed_base64_is_an_encoding_error() {
    let (nonce_text, sealed_text) = encrypt_message(&KEY, "secret123").unwrap();
    assert_eq!(
        decrypt_message(&KEY, "not base64!", &sealed_text),
        Err(VaultError::Encoding)
    );
    assert_eq!(
        decrypt_message(&KEY, &nonce_text, "***"),
        Err(VaultError::Encoding)
    );
    assert_eq!(
        decrypt_message(&KEY, &nonce_text[..15], &sealed_text),
        Err(VaultError::Encoding)
    );
    assert_eq!(
        decrypt_message(&KEY, &nonce_text, &format!("{}\n", sealed_text)),
        Err(VaultError::Encoding)
    );
}

#[test]
fn nonce_of_the_wrong_length_is_an_authentication_error() {
    let (_, sealed_text) = encrypt_message(&KEY, "secret123").unwrap();
    assert_eq!(
        decrypt_message(&KEY, "AAAA", &sealed_text),
        Err(VaultError::Authentication)
    );
    assert_eq!(
        decrypt_message(&KEY, "", &sealed_text),
        Err(VaultError::Authentication)
    );
    assert_eq!(
        decrypt_message(&KEY, "AAAAAAAAAAAAAAAAAAAA", &sealed_text),
        Err(VaultError::Authentication)
    );
}

#[test]
fn encode_sealed_gives_standard_padded_base64() {
    let (nonce_text, sealed_text) = encode_sealed(&[0u8; 12], b"hello");
    assert_eq!(nonce_text, "AAAAAAAAAAAAAAAA");
    assert_eq!(sealed_text, "aGVsbG8=");
    let (nonce_text, sealed_text) = encode_sealed(&[0xfb; 12], &[0xff, 0xef]);
    assert_eq!(nonce_text, "+/v7+/v7+/v7+/v7");
    assert_eq!(sealed_text, "/+8=");
    let (_, empty) = encode_sealed(&[0u8; 12], &[]);
    assert_eq!(empty, "");
}

#[test]
fn stored_message_decrypts_from_known_texts() {
    let nonce = [0u8; 12];
    let sealed = seal(&[0u8; 32], &nonce, b"hi").unwrap();
    let (nonce_text, sealed_text) = encode_sealed(&nonce, &sealed);
    assert_eq!(nonce_text, "AAAAAAAAAAAAAAAA");
    assert_eq!(sealed_text.len(), 24);
    assert_eq!(
        decrypt_message(&[0u8; 32], "AAAAAAAAAAAAAAAA", &sealed_text),
        Ok("hi".to_string())
    );
}

#[test]
fn nonce_from_bytes_takes_exactly_twelve() {
    assert_eq!(
        nonce_from_bytes(&[1, 2, 3, 4, 5, 6, 7, 8, 9, 10, 11, 12]),
        Ok([1, 2, 3, 4, 5, 6, 7, 8, 9, 10, 11, 12])
    );
    assert_eq!(nonce_from_bytes(&[]), Err(VaultError::Authentication));
    assert_eq!(nonce_from_bytes(&[0u8; 11]), Err(VaultError::Authentication));
    assert_eq!(nonce_from_bytes(&[0u8; 13]), Err(VaultError::Authentication));
}

#[test]
fn text_from_opened_decodes_or_hands_on_the_failure() {
    assert_eq!(text_from_opened(Ok(b"hello".to_vec())), Ok("hello".to_string()));
    assert_eq!(text_from_opened(Ok(vec![])), Ok(String::new()));
    assert_eq!(
        text_from_opened(Ok(vec![0xe4, 0xb8, 0x96])),
        Ok("\u{4e16}".to_string())
    );
    assert_eq!(text_from_opened(Ok(vec![0xc3])), Err(VaultError::Encoding));
    assert_eq!(text_from_opened(Ok(vec![0xed, 0xa0, 0x80])), Err(VaultError::Encoding));
    assert_eq!(
        text_from_opened(Err(VaultError::Authentication)),
        Err(VaultError::Authentication)
    );
}

#[test]
fn failures_have_distinct_descriptions() {
    let all = [
        VaultError::Encryption,
        VaultError::Authentication,
        VaultError::Encoding,
        VaultError::Storage,
        VaultError::NotFound,
    ];
    assert_eq!(VaultError::Encryption.describe(), "encryption failed");
    assert_eq!(VaultError::Authentication.describe(), "authentication failed");
    assert_eq!(VaultError::Encoding.describe(), "invalid encoding");
    assert_eq!(VaultError::Storage.describe(), "storage failure");
    assert_eq!(VaultError::NotFound.describe(), "not found");
    let texts: HashSet<&str> = all.iter().map(|e| e.describe()).collect();
    assert_eq!(texts.len(), 5);
}

#[test]
fn sealed_text_has_four_characters_for_every_three_bytes_begun() {
    for length in [0usize, 1, 2, 3, 4, 5, 44, 45, 46, 100, 1000, 4096] {
        let text = "x".repeat(length);
        let (nonce_text, sealed_text) = encrypt_message(&KEY, &text).unwrap();
        assert_eq!(nonce_text.len(), 16);
        assert_eq!(sealed_text.len(), (length + 16 + 2) / 3 * 4);
        assert!(sealed_text
            .chars()
            .all(|c| c.is_ascii_alphanumeric() || c == '+' || c == '/' || c == '='));
    }
}

#[test]
fn stored_message_too_short_for_a_tag_is_an_authentication_error() {
    let (nonce_text, _) = encrypt_message(&KEY, "secret123").unwrap();
    assert_eq!(decrypt_message(&KEY, &nonce_text, ""), Err(VaultError::Authentication));
    assert_eq!(decrypt_message(&KEY, &nonce_text, "AAAA"), Err(VaultError::Authentication));
    assert_eq!(
        decrypt_message(&KEY, &nonce_text, "AAAAAAAAAAAAAAAAAAAA"),
        Err(VaultError::Authentication)
    );
    assert_eq!(decrypt_message(&KEY, "AAAA", "AAAA"), Err(VaultError::Authentication));
}

#[test]
fn stored_texts_hold_only_the_base64_alphabet_and_padding() {
    assert_eq!(BASE64_ALPHABET.chars().count(), 64);
    let every_byte: Vec<u8> = (0u8..=255).collect();
    let (nonce_text, sealed_text) = encode_sealed(&[0xff; 12], &every_byte);
    for text in [nonce_text, sealed_text] {
        assert!(text.chars().all(|c| BASE64_ALPHABET.contains(c) || c == '='));
        assert!(!text.contains('\n'));
    }
    let long = "p".repeat(10_000);
    let (nonce_text, sealed_text) = encrypt_message(&KEY, &long).unwrap();
    for text in [nonce_text, sealed_text] {
        assert!(text.chars().all(|c| BASE64_ALPHABET.contains(c) || c == '='));
    }
}
