//! The cipher engine: AES-256-GCM sealing of one text under a 256-bit key,
//! with a fresh 96-bit nonce per sealing and a 128-bit tag, and the base64
//! text form in which nonce and sealed bytes are kept.
//!
//! The cipher, the base64 codec and the random source are outside crates. Their
//! results are spoken of through the names declared below; everything that is
//! decided around those calls is verified.

use vstd::prelude::*;
use vstd::string::*;
use vstd::utf8::*;
use crate::error::VaultError;

verus! {

/// Length of a key in bytes.
pub const KEY_LEN: usize = 32;

/// Length of a nonce in bytes.
pub const NONCE_LEN: usize = 12;

/// Length of the authentication tag that ends every sealed message.
pub const TAG_LEN: usize = 16;

/// The longest plaintext, in bytes, that the cipher seals.
pub const MAX_PLAINTEXT_LEN: u64 = 0x10_0000_0000;

#[verifier::external_type_specification]
#[verifier::external_body]
pub struct ExAeadError(aes_gcm::Error);

#[verifier::external_type_specification]
#[verifier::external_body]
pub struct ExDecodeError(base64::DecodeError);

#[verifier::external_type_specification]
#[verifier::external_body]
pub struct ExRandError(rand::Error);

/// What AES-256-GCM, with no associated data, makes of a plaintext under a key
/// and a nonce: the ciphertext followed by the tag.
pub uninterp spec fn aes256_gcm_sealed(key: Seq<u8>, nonce: Seq<u8>, plaintext: Seq<u8>) -> Seq<u8>;

/// What AES-256-GCM, with no associated data, recovers from sealed bytes under
/// a key and a nonce: the plaintext, or nothing where the tag does not verify.
pub uninterp spec fn aes256_gcm_opened(key: Seq<u8>, nonce: Seq<u8>, sealed: Seq<u8>) -> Option<Seq<u8>>;

/// The standard, padded base64 text of a byte sequence.
pub uninterp spec fn base64_encoded(bytes: Seq<u8>) -> Seq<char>;

/// The bytes that a standard, padded base64 text stands for, or nothing where
/// the text is not canonical base64.
pub uninterp spec fn base64_decoded(text: Seq<char>) -> Option<Seq<u8>>;

/// The sixty-four characters of the standard base64 alphabet.
pub const BASE64_ALPHABET: &'static str =
    "ABCDEFGHIJKLMNOPQRSTUVWXYZabcdefghijklmnopqrstuvwxyz0123456789+/";

/// Whether a text holds nothing but characters of the standard base64
/// alphabet and the padding character: no line break and no space.
pub open spec fn is_base64_text(text: Seq<char>) -> bool {
    forall|i: int|
        0 <= i < text.len() ==> BASE64_ALPHABET@.contains(#[trigger] text[i]) || text[i] == '='
}

/// Whether a byte sequence of length `n` has a base64 text that fits in memory.
pub open spec fn base64_fits(n: int) -> bool {
    n / 3 * 4 + 4 <= usize::MAX
}

/// `rand::rngs::OsRng::try_fill_bytes` on a 12-byte buffer: the operating
/// system's random bytes, or the error it reported. Nothing is claimed of the
/// bytes themselves.
#[verifier::external_body]
fn random_nonce() -> (res: Result<[u8; 12], rand::Error>) {
    let mut buf = [0u8; 12];
    match rand::RngCore::try_fill_bytes(&mut rand::rngs::OsRng, &mut buf) {
        Ok(()) => Ok(buf),
        Err(e) => Err(e),
    }
}

/// `Aes256Gcm::encrypt` with an empty associated data. It fails exactly when
/// the plaintext is longer than the cipher takes; otherwise it returns the
/// sealed bytes, sixteen longer than the plaintext, which the same key and
/// nonce open again to that plaintext.
#[verifier::external_body]
fn aes256_gcm_seal(key: &[u8; 32], nonce: &[u8; 12], plaintext: &[u8]) -> (res: Result<
    Vec<u8>,
    aes_gcm::Error,
>)
    ensures
        match res {
            Ok(sealed) => {
                &&& plaintext@.len() <= MAX_PLAINTEXT_LEN
                &&& sealed@ == aes256_gcm_sealed(key@, nonce@, plaintext@)
                &&& sealed@.len() == plaintext@.len() + TAG_LEN
                &&& aes256_gcm_opened(key@, nonce@, sealed@) == Some(plaintext@)
            },
            Err(_) => plaintext@.len() > MAX_PLAINTEXT_LEN,
        },
{
    let cipher = <aes_gcm::Aes256Gcm as aes_gcm::KeyInit>::new(aes_gcm::Key::<aes_gcm::Aes256Gcm>::from_slice(key));
    aes_gcm::aead::Aead::encrypt(&cipher, aes_gcm::Nonce::from_slice(nonce), plaintext)
}

/// `Aes256Gcm::decrypt` with an empty associated data. It returns the
/// plaintext, sixteen bytes shorter than the sealed input, where the tag
/// verifies, and fails otherwise; input shorter than a tag always fails.
#[verifier::external_body]
fn aes256_gcm_open(key: &[u8; 32], nonce: &[u8; 12], sealed: &[u8]) -> (res: Result<
    Vec<u8>,
    aes_gcm::Error,
>)
    ensures
        match res {
            Ok(plaintext) => {
                &&& aes256_gcm_opened(key@, nonce@, sealed@) == Some(plaintext@)
                &&& plaintext@.len() + TAG_LEN == sealed@.len()
            },
            Err(_) => aes256_gcm_opened(key@, nonce@, sealed@).is_none(),
        },
        sealed@.len() < TAG_LEN ==> res.is_err(),
{
    let cipher = <aes_gcm::Aes256Gcm as aes_gcm::KeyInit>::new(aes_gcm::Key::<aes_gcm::Aes256Gcm>::from_slice(key));
    aes_gcm::aead::Aead::decrypt(&cipher, aes_gcm::Nonce::from_slice(nonce), sealed)
}

/// `Engine::encode` of base64's `STANDARD` engine: the padded text, four
/// characters for every three bytes begun, all of the standard alphabet or the
/// padding character, which `STANDARD` decodes back to the same bytes.
#[verifier::external_body]
fn base64_encode(bytes: &[u8]) -> (text: String)
    requires
        base64_fits(bytes@.len() as int),
    ensures
        text@ == base64_encoded(bytes@),
        text@.len() == (bytes@.len() + 2) / 3 * 4,
        is_base64_text(text@),
        base64_decoded(text@) == Some(bytes@),
{
    base64::Engine::encode(&base64::engine::general_purpose::STANDARD, bytes)
}

/// `Engine::decode` of base64's `STANDARD` engine: the bytes of a canonical
/// padded text, or the error it reported for any other text.
#[verifier::external_body]
fn base64_decode(text: &str) -> (res: Result<Vec<u8>, base64::DecodeError>)
    ensures
        match res {
            Ok(bytes) => base64_decoded(text@) == Some(bytes@),
            Err(_) => base64_decoded(text@).is_none(),
        },
{
    base64::Engine::decode(&base64::engine::general_purpose::STANDARD, text)
}

/// `String::from_utf8`: the text that the bytes encode, exactly when they are
/// valid UTF-8.
#[verifier::external_body]
fn string_from_utf8(bytes: Vec<u8>) -> (res: Option<String>)
    ensures
        match res {
            Some(text) => valid_utf8(bytes@) && text@ == decode_utf8(bytes@),
            None => !valid_utf8(bytes@),
        },
{
    match String::from_utf8(bytes) {
        Ok(text) => Some(text),
        Err(_) => None,
    }
}

/// The result of sealing `plaintext` under `key` and `nonce`.
pub open spec fn seal_outcome(key: Seq<u8>, nonce: Seq<u8>, plaintext: Seq<u8>) -> Result<
    Seq<u8>,
    VaultError,
> {
    if plaintext.len() <= MAX_PLAINTEXT_LEN {
        Ok(aes256_gcm_sealed(key, nonce, plaintext))
    } else {
        Err(VaultError::Encryption)
    }
}

/// The result of opening `sealed` under `key` and `nonce`.
pub open spec fn unseal_outcome(key: Seq<u8>, nonce: Seq<u8>, sealed: Seq<u8>) -> Result<
    Seq<u8>,
    VaultError,
> {
    match aes256_gcm_opened(key, nonce, sealed) {
        Some(plaintext) => Ok(plaintext),
        None => Err(VaultError::Authentication),
    }
}

/// Seals `plaintext` under `key` and `nonce`. The caller answers for the nonce:
/// it must never have been used with this key before. [`encrypt`] draws one
/// itself and is the entry point for ordinary use.
pub fn seal(key: &[u8; 32], nonce: &[u8; 12], plaintext: &[u8]) -> (res: Result<Vec<u8>, VaultError>)
    ensures
        match res {
            Ok(sealed) => {
                &&& seal_outcome(key@, nonce@, plaintext@) == Ok::<Seq<u8>, VaultError>(sealed@)
                &&& sealed@.len() == plaintext@.len() + TAG_LEN
                &&& unseal_outcome(key@, nonce@, sealed@) == Ok::<Seq<u8>, VaultError>(plaintext@)
            },
            Err(e) => seal_outcome(key@, nonce@, plaintext@) == Err::<Seq<u8>, VaultError>(e),
        },
{
    match aes256_gcm_seal(key, nonce, plaintext) {
        Ok(sealed) => Ok(sealed),
        Err(_) => Err(VaultError::Encryption),
    }
}

/// Opens `sealed` under `key` and `nonce`: the plaintext where the tag
/// verifies, [`VaultError::Authentication`] otherwise.
pub fn unseal(key: &[u8; 32], nonce: &[u8; 12], sealed: &[u8]) -> (res: Result<Vec<u8>, VaultError>)
    ensures
        match res {
            Ok(plaintext) => {
                &&& unseal_outcome(key@, nonce@, sealed@) == Ok::<Seq<u8>, VaultError>(plaintext@)
                &&& plaintext@.len() + TAG_LEN == sealed@.len()
            },
            Err(e) => unseal_outcome(key@, nonce@, sealed@) == Err::<Seq<u8>, VaultError>(e),
        },
        sealed@.len() < TAG_LEN ==> res == Err::<Vec<u8>, VaultError>(VaultError::Authentication),
{
    match aes256_gcm_open(key, nonce, sealed) {
        Ok(plaintext) => Ok(plaintext),
        Err(_) => Err(VaultError::Authentication),
    }
}

/// Whether `(nonce, sealed)` is a sealing of the text `plaintext` under `key`:
/// what [`encrypt`] promises of its result.
pub open spec fn encrypts_to(
    key: Seq<u8>,
    plaintext: Seq<char>,
    nonce: Seq<u8>,
    sealed: Seq<u8>,
) -> bool {
    let bytes = encode_utf8(plaintext);
    &&& nonce.len() == NONCE_LEN
    &&& seal_outcome(key, nonce, bytes) == Ok::<Seq<u8>, VaultError>(sealed)
    &&& sealed.len() == bytes.len() + TAG_LEN
    &&& unseal_outcome(key, nonce, sealed) == Ok::<Seq<u8>, VaultError>(bytes)
}

/// The result of decrypting `sealed` under `key` and `nonce`: the text where
/// the tag verifies and the plaintext is UTF-8.
pub open spec fn decrypt_outcome(key: Seq<u8>, nonce: Seq<u8>, sealed: Seq<u8>) -> Result<
    Seq<char>,
    VaultError,
> {
    text_outcome(unseal_outcome(key, nonce, sealed))
}

/// The text that opened bytes stand for.
pub open spec fn text_outcome(opened: Result<Seq<u8>, VaultError>) -> Result<Seq<char>, VaultError> {
    match opened {
        Ok(bytes) => if valid_utf8(bytes) {
            Ok(decode_utf8(bytes))
        } else {
            Err(VaultError::Encoding)
        },
        Err(e) => Err(e),
    }
}

/// The view of bytes that the cipher opened, or of the failure to open them.
pub open spec fn opened_view(opened: Result<Vec<u8>, VaultError>) -> Result<Seq<u8>, VaultError> {
    match opened {
        Ok(bytes) => Ok(bytes@),
        Err(e) => Err(e),
    }
}

/// Turns the bytes that the cipher opened into text. A failure of the cipher is
/// handed on; bytes that are not UTF-8 are a [`VaultError::Encoding`].
pub fn text_from_opened(opened: Result<Vec<u8>, VaultError>) -> (res: Result<String, VaultError>)
    ensures
        match res {
            Ok(text) => text_outcome(opened_view(opened)) == Ok::<Seq<char>, VaultError>(text@),
            Err(e) => text_outcome(opened_view(opened)) == Err::<Seq<char>, VaultError>(e),
        },
{
    match opened {
        Ok(bytes) => match string_from_utf8(bytes) {
            Some(text) => Ok(text),
            None => Err(VaultError::Encoding),
        },
        Err(e) => Err(e),
    }
}

/// Encrypts `plaintext` under `key` with a nonce drawn from the operating
/// system's random source, and returns the nonce with the sealed bytes.
///
/// The only failures are a plaintext longer than the cipher takes and a random
/// source that does not answer; both are [`VaultError::Encryption`].
pub fn encrypt(key: &[u8; 32], plaintext: &str) -> (res: Result<([u8; 12], Vec<u8>), VaultError>)
    ensures
        match res {
            Ok(pair) => encrypts_to(key@, plaintext@, pair.0@, pair.1@),
            Err(e) => e == VaultError::Encryption,
        },
        encode_utf8(plaintext@).len() > MAX_PLAINTEXT_LEN ==> res.is_err(),
{
    match random_nonce() {
        Ok(nonce) => match seal(key, &nonce, plaintext.as_bytes()) {
            Ok(sealed) => Ok((nonce, sealed)),
            Err(e) => Err(e),
        },
        Err(_) => Err(VaultError::Encryption),
    }
}

/// Decrypts `sealed` under `key` and `nonce`.
///
/// Fails with [`VaultError::Authentication`] where the tag does not verify, and
/// with [`VaultError::Encoding`] where the plaintext is not UTF-8; it never
/// returns a text other than the one that was sealed.
pub fn decrypt(key: &[u8; 32], nonce: &[u8; 12], sealed: &[u8]) -> (res: Result<String, VaultError>)
    ensures
        match res {
            Ok(text) => decrypt_outcome(key@, nonce@, sealed@) == Ok::<Seq<char>, VaultError>(text@),
            Err(e) => decrypt_outcome(key@, nonce@, sealed@) == Err::<Seq<char>, VaultError>(e),
        },
        sealed@.len() < TAG_LEN ==> res == Err::<String, VaultError>(VaultError::Authentication),
{
    text_from_opened(unseal(key, nonce, sealed))
}

/// Decryption undoes encryption: whatever nonce [`encrypt`] drew, the pair it
/// returned decrypts under the same key to the text that was encrypted.
pub proof fn lemma_decrypt_inverts_encrypt(
    key: Seq<u8>,
    plaintext: Seq<char>,
    nonce: Seq<u8>,
    sealed: Seq<u8>,
)
    requires
        encrypts_to(key, plaintext, nonce, sealed),
    ensures
        decrypt_outcome(key, nonce, sealed) == Ok::<Seq<char>, VaultError>(plaintext),
{
    encode_utf8_valid_utf8(plaintext);
    encode_utf8_decode_utf8(plaintext);
}

/// The result of reading a decoded nonce: the same bytes where there are
/// exactly twelve of them.
pub open spec fn nonce_outcome(bytes: Seq<u8>) -> Result<Seq<u8>, VaultError> {
    if bytes.len() == NONCE_LEN {
        Ok(bytes)
    } else {
        Err(VaultError::Authentication)
    }
}

/// Reads a nonce out of decoded bytes. Anything but twelve bytes is a damaged
/// nonce, under which no tag can verify: [`VaultError::Authentication`].
pub fn nonce_from_bytes(bytes: &[u8]) -> (res: Result<[u8; 12], VaultError>)
    ensures
        match res {
            Ok(nonce) => nonce_outcome(bytes@) == Ok::<Seq<u8>, VaultError>(nonce@),
            Err(e) => nonce_outcome(bytes@) == Err::<Seq<u8>, VaultError>(e),
        },
{
    if bytes.len() != NONCE_LEN {
        return Err(VaultError::Authentication);
    }
    let mut nonce = [0u8; 12];
    let mut i: usize = 0;
    while i < NONCE_LEN
        invariant
            i <= NONCE_LEN,
            bytes@.len() == NONCE_LEN,
            forall|j: int| 0 <= j < i ==> nonce@[j] == bytes@[j],
        decreases NONCE_LEN - i,
    {
        nonce[i] = bytes[i];
        i += 1;
    }
    assert(nonce@ =~= bytes@);
    Ok(nonce)
}

/// Whether the texts `(nonce_text, sealed_text)` are the base64 forms of a
/// sealing of `plaintext` under `key`: what [`encrypt_message`] promises of its
/// result.
pub open spec fn message_encrypts_to(
    key: Seq<u8>,
    plaintext: Seq<char>,
    nonce_text: Seq<char>,
    sealed_text: Seq<char>,
) -> bool {
    exists|nonce: Seq<u8>, sealed: Seq<u8>|
        {
            &&& encrypts_to(key, plaintext, nonce, sealed)
            &&& #[trigger] base64_encoded(nonce) == nonce_text
            &&& #[trigger] base64_encoded(sealed) == sealed_text
            &&& base64_decoded(nonce_text) == Some(nonce)
            &&& base64_decoded(sealed_text) == Some(sealed)
        }
}

/// The result of decrypting a stored message: both texts must be base64, the
/// nonce twelve bytes, and the sealed bytes must open to UTF-8 under the key.
pub open spec fn decrypt_message_outcome(
    key: Seq<u8>,
    nonce_text: Seq<char>,
    sealed_text: Seq<char>,
) -> Result<Seq<char>, VaultError> {
    match (base64_decoded(nonce_text), base64_decoded(sealed_text)) {
        (Some(nonce_bytes), Some(sealed)) => match nonce_outcome(nonce_bytes) {
            Ok(nonce) => decrypt_outcome(key, nonce, sealed),
            Err(e) => Err(e),
        },
        _ => Err(VaultError::Encoding),
    }
}

/// Whether both texts of a stored message are base64 and the sealed bytes are
/// too few to hold a tag.
pub open spec fn lacks_tag(nonce_text: Seq<char>, sealed_text: Seq<char>) -> bool {
    match (base64_decoded(nonce_text), base64_decoded(sealed_text)) {
        (Some(_), Some(sealed)) => sealed.len() < TAG_LEN,
        _ => false,
    }
}

/// Puts a nonce and sealed bytes into the text form in which they are stored.
pub fn encode_sealed(nonce: &[u8; 12], sealed: &[u8]) -> (res: (String, String))
    requires
        base64_fits(sealed@.len() as int),
    ensures
        res.0@ == base64_encoded(nonce@),
        res.1@ == base64_encoded(sealed@),
        base64_decoded(res.0@) == Some(nonce@),
        base64_decoded(res.1@) == Some(sealed@),
        res.0@.len() == 16,
        res.1@.len() == (sealed@.len() + 2) / 3 * 4,
        is_base64_text(res.0@),
        is_base64_text(res.1@),
{
    (base64_encode(nonce.as_slice()), base64_encode(sealed))
}

/// Encrypts `plaintext` under `key` and returns the nonce and the sealed bytes
/// as base64 text, ready to be stored.
///
/// Fails, with [`VaultError::Encryption`], where [`encrypt`] fails, and where
/// the sealed bytes are too many for their base64 text to fit in memory.
pub fn encrypt_message(key: &[u8; 32], plaintext: &str) -> (res: Result<(String, String), VaultError>)
    ensures
        match res {
            Ok(pair) => {
                &&& message_encrypts_to(key@, plaintext@, pair.0@, pair.1@)
                &&& pair.0@.len() == 16
                &&& pair.1@.len() == (encode_utf8(plaintext@).len() + TAG_LEN + 2) / 3 * 4
                &&& is_base64_text(pair.0@)
                &&& is_base64_text(pair.1@)
            },
            Err(e) => e == VaultError::Encryption,
        },
        !base64_fits(encode_utf8(plaintext@).len() + TAG_LEN) || encode_utf8(plaintext@).len()
            > MAX_PLAINTEXT_LEN ==> res.is_err(),
{
    match encrypt(key, plaintext) {
        Ok(pair) => {
            let (nonce, sealed) = pair;
            if sealed.len() / 3 > (usize::MAX - 4) / 4 {
                return Err(VaultError::Encryption);
            }
            let texts = encode_sealed(&nonce, sealed.as_slice());
            Ok(texts)
        },
        Err(e) => Err(e),
    }
}

/// Decrypts a stored message: base64 texts of a nonce and of sealed bytes.
///
/// Fails with [`VaultError::Encoding`] where either text is not base64 or the
/// plaintext is not UTF-8, and with [`VaultError::Authentication`] where the
/// nonce is not twelve bytes or the tag does not verify, as it never does for
/// sealed bytes too few to hold a tag.
pub fn decrypt_message(key: &[u8; 32], nonce_text: &str, sealed_text: &str) -> (res: Result<
    String,
    VaultError,
>)
    ensures
        match res {
            Ok(text) => decrypt_message_outcome(key@, nonce_text@, sealed_text@) == Ok::<
                Seq<char>,
                VaultError,
            >(text@),
            Err(e) => decrypt_message_outcome(key@, nonce_text@, sealed_text@) == Err::<
                Seq<char>,
                VaultError,
            >(e),
        },
        lacks_tag(nonce_text@, sealed_text@) ==> res == Err::<String, VaultError>(
            VaultError::Authentication,
        ),
{
    let nonce_bytes = base64_decode(nonce_text);
    let sealed = base64_decode(sealed_text);
    match (nonce_bytes, sealed) {
        (Ok(nonce_bytes), Ok(sealed)) => match nonce_from_bytes(nonce_bytes.as_slice()) {
            Ok(nonce) => decrypt(key, &nonce, sealed.as_slice()),
            Err(e) => Err(e),
        },
        _ => Err(VaultError::Encoding),
    }
}

/// Decryption undoes encryption on stored messages too: the texts that
/// [`encrypt_message`] returned decrypt under the same key to the text that
/// was encrypted.
pub proof fn lemma_decrypt_message_inverts_encrypt_message(
    key: Seq<u8>,
    plaintext: Seq<char>,
    nonce_text: Seq<char>,
    sealed_text: Seq<char>,
)
    requires
        message_encrypts_to(key, plaintext, nonce_text, sealed_text),
    ensures
        decrypt_message_outcome(key, nonce_text, sealed_text) == Ok::<Seq<char>, VaultError>(
            plaintext,
        ),
{
    let (nonce, sealed) = choose|nonce: Seq<u8>, sealed: Seq<u8>|
        {
            &&& encrypts_to(key, plaintext, nonce, sealed)
            &&& #[trigger] base64_encoded(nonce) == nonce_text
            &&& #[trigger] base64_encoded(sealed) == sealed_text
            &&& base64_decoded(nonce_text) == Some(nonce)
            &&& base64_decoded(sealed_text) == Some(sealed)
        };
    lemma_decrypt_inverts_encrypt(key, plaintext, nonce, sealed);
}

} // verus!
