//! An offline credential vault: authenticated encryption of secrets and a
//! durable store of the encrypted records, with machine-checked contracts.

pub mod cipher;
pub mod error;
pub mod password;
pub mod store;
pub mod vault;
