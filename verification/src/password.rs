//! Random passwords over a fixed alphabet.

use vstd::prelude::*;
use vstd::string::*;
use crate::error::VaultError;

verus! {

/// The letters and digits that every generated password draws from.
pub const LETTERS_AND_DIGITS: &'static str =
    "abcdefghijklmnopqrstuvwxyzABCDEFGHIJKLMNOPQRSTUVWXYZ0123456789";

/// The symbols that a generated password draws from as well, on request.
pub const SYMBOLS: &'static str = "!@#$%^&*()-_=+[]{};:,.<>?/\\|";

/// The characters that a password is drawn from.
pub open spec fn alphabet(symbols: bool) -> Seq<char> {
    if symbols {
        LETTERS_AND_DIGITS@ + SYMBOLS@
    } else {
        LETTERS_AND_DIGITS@
    }
}

/// `SeedableRng::from_rng` of rand's standard generator on the operating
/// system's random source, and `Rng::gen_range` of that generator on
/// `0..bound`: some index below `bound`, or the error of a random source that
/// did not answer. Nothing else is claimed of the index.
#[verifier::external_body]
fn random_below(bound: usize) -> (res: Result<usize, rand::Error>)
    requires
        bound > 0,
    ensures
        match res {
            Ok(index) => index < bound,
            Err(_) => true,
        },
{
    match <rand::rngs::StdRng as rand::SeedableRng>::from_rng(rand::rngs::OsRng) {
        Ok(mut generator) => Ok(rand::Rng::gen_range(&mut generator, 0..bound)),
        Err(e) => Err(e),
    }
}

/// `String::from_iter` on the characters of a vector: the text made of those
/// characters, in order.
#[verifier::external_body]
fn string_from_chars(chars: Vec<char>) -> (text: String)
    ensures
        text@ == chars@,
{
    String::from_iter(chars)
}

/// The number of characters in the alphabet.
pub fn alphabet_len(symbols: bool) -> (len: usize)
    ensures
        len == alphabet(symbols).len(),
        len == if symbols { 90usize } else { 62usize },
{
    proof {
        reveal_strlit("abcdefghijklmnopqrstuvwxyzABCDEFGHIJKLMNOPQRSTUVWXYZ0123456789");
        reveal_strlit("!@#$%^&*()-_=+[]{};:,.<>?/\\|");
    }
    if symbols {
        LETTERS_AND_DIGITS.unicode_len() + SYMBOLS.unicode_len()
    } else {
        LETTERS_AND_DIGITS.unicode_len()
    }
}

/// The character of the alphabet at `index`, if the alphabet reaches that far.
pub fn alphabet_char(symbols: bool, index: usize) -> (res: Option<char>)
    ensures
        res == if index < alphabet(symbols).len() {
            Some(alphabet(symbols)[index as int])
        } else {
            None
        },
{
    let letters = LETTERS_AND_DIGITS.unicode_len();
    if index < letters {
        Some(LETTERS_AND_DIGITS.get_char(index))
    } else if symbols && index - letters < SYMBOLS.unicode_len() {
        Some(SYMBOLS.get_char(index - letters))
    } else {
        None
    }
}

/// A password of `length` characters, each drawn at random from the letters
/// and digits, and from the symbols too where `symbols` is set.
///
/// Fails with [`VaultError::Encryption`] where the random source does not
/// answer; a password of no characters asks nothing of it and cannot fail.
pub fn generate_password(length: usize, symbols: bool) -> (res: Result<String, VaultError>)
    ensures
        match res {
            Ok(password) => {
                &&& password@.len() == length
                &&& forall|i: int|
                    0 <= i < length ==> alphabet(symbols).contains(#[trigger] password@[i])
            },
            Err(e) => e == VaultError::Encryption && length > 0,
        },
{
    let bound = alphabet_len(symbols);
    let mut chars: Vec<char> = Vec::new();
    let mut i: usize = 0;
    while i < length
        invariant
            i <= length,
            chars@.len() == i,
            bound == alphabet(symbols).len(),
            bound > 0,
            forall|j: int| 0 <= j < i ==> alphabet(symbols).contains(#[trigger] chars@[j]),
        decreases length - i,
    {
        match random_below(bound) {
            Ok(index) => {
                chars.push(password_char(symbols, index));
            },
            Err(_) => {
                return Err(VaultError::Encryption);
            },
        }
        i += 1;
    }
    Ok(string_from_chars(chars))
}

/// The character that a drawn index stands for.
fn password_char(symbols: bool, index: usize) -> (c: char)
    requires
        index < alphabet(symbols).len(),
    ensures
        c == alphabet(symbols)[index as int],
{
    alphabet_char(symbols, index).unwrap()
}

} // verus!
