//! An encrypted, file-backed key-value store for small secrets.
//!
//! The vault keeps a mapping from entry ids to secret values. It is saved as a
//! fixed-layout header followed by the AES-256-GCM encryption of the entries,
//! under a key that Argon2id derives from a master password.
use vstd::prelude::*;

pub mod codec;
pub mod command;
pub mod crypto;
pub mod entries;
pub mod error;
pub mod header;
pub mod vault;

verus! {

} // verus!
