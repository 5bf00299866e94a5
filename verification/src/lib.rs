//! Storage engine of a local, single-user credential vault: key derivation,
//! authenticated encryption, the vault file layout and the entry store.

pub mod aead;
pub mod argon;
pub mod cli;
pub mod clock;
pub mod collection;
pub mod crypto;
pub mod entropy;
pub mod error;
pub mod layout;
pub mod password_entry;
pub mod password_generator;
pub mod persistence;
pub mod records;
pub mod storage;
pub mod text;
pub mod wipe;
pub mod wire;
