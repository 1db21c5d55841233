//! Cryptographically Random Unique IDentifiers (CRUIDs).
//!
//! A CRUID is a 128-bit value written in the 36-character hyphenated hex
//! layout of a UUID. An [`EncryptionKey`] maps a 64-bit integer to a CRUID
//! by encrypting it with AES-128 together with an all-zero tag, and back.
use vstd::prelude::*;

pub mod cruid;
pub mod encryption;
pub mod error;
pub mod hex;
pub mod interop;

pub use crate::cruid::Cruid;
pub use crate::encryption::EncryptionKey;
pub use crate::error::{Error, Result};

verus! {

/// 128-bit (16-byte) buffer, i.e. the size of data in a CRUID.
pub type Bytes = [u8; 16];

} // verus!
