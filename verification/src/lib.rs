//! The core of a local, single-user encrypted vault: how records are kept,
//! how plaintext becomes a stored ciphertext and back, and how the vault is
//! bound to one encryption key.

pub mod text;
pub mod table;
pub mod error;
pub mod tags;
pub mod store;
pub mod statements;
pub mod paths;
pub mod exchange;
pub mod gateway;
pub mod diagnosis;
pub mod vault;
pub mod secrets;
pub mod files;
pub mod commands;
pub mod laws;
