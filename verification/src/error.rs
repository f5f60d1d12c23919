//! The failures that the vault reports to its callers.

use vstd::prelude::*;

verus! {

/// Every way in which an operation of the vault can fail.
#[derive(Clone, Copy, Debug, PartialEq, Eq, Structural)]
pub enum VaultError {
    /// The random source or the cipher refused to work.
    Encryption,
    /// The tag did not verify: wrong key, or a damaged nonce or ciphertext.
    Authentication,
    /// Stored text is not base64, or decrypted bytes are not UTF-8.
    Encoding,
    /// The backing database refused a statement.
    Storage,
    /// No record carries the label that was asked for.
    NotFound,
}

impl VaultError {
    /// A short, stable, human-readable name of the failure.
    pub fn describe(&self) -> (text: &'static str)
        ensures
            text@ == describe_spec(*self),
    {
        match self {
            VaultError::Encryption => "encryption failed",
            VaultError::Authentication => "authentication failed",
            VaultError::Encoding => "invalid encoding",
            VaultError::Storage => "storage failure",
            VaultError::NotFound => "not found",
        }
    }
}

/// The text that [`VaultError::describe`] returns for each failure.
pub open spec fn describe_spec(e: VaultError) -> Seq<char> {
    match e {
        VaultError::Encryption => "encryption failed"@,
        VaultError::Authentication => "authentication failed"@,
        VaultError::Encoding => "invalid encoding"@,
        VaultError::Storage => "storage failure"@,
        VaultError::NotFound => "not found"@,
    }
}

} // verus!
