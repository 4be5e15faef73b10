//! The closed set of failures an operation on the vault can end with, and
//! the message that each is reported with.

use crate::text::{join2, join3};
use vstd::prelude::*;
use vstd::string::*;

verus! {

/// What the encryption engine said of a failed call: its numeric code and
/// its own description. The code goes no further than the gateway, which
/// names the failure; the description goes into the named failure.
#[derive(Debug, PartialEq, Eq)]
pub struct EngineFailure {
    pub code: u32,
    pub message: String,
}

/// An engine failure, as a mathematical value.
pub struct EngineFailureView {
    pub code: u32,
    pub message: Seq<char>,
}

impl View for EngineFailure {
    type V = EngineFailureView;

    open spec fn view(&self) -> EngineFailureView {
        EngineFailureView { code: self.code, message: self.message@ }
    }
}

/// Why an operation failed. Every failure ends the operation at once. A
/// failure of the engine carries the engine's description of it.
#[derive(Debug, PartialEq, Eq)]
pub enum DmError {
    /// No vault in this place: the storage file is absent.
    VaultNotFound,
    /// A vault is already here, so none can be initialized.
    VaultAlreadyExists,
    /// The file to add or update is not on disk.
    SourceNotFound(String),
    /// The key is not in the keyring, or cannot encrypt.
    KeyNotFound(String),
    /// A record with this identifier is already stored.
    RecordAlreadyExists(String),
    /// No file record, or no secret to update, has this identifier.
    RecordNotInStorage(String),
    /// No secret to show has this name.
    SecretNotInStorage(String),
    /// The storage engine failed.
    StorageEngineError(String),
    /// The bound key can no longer encrypt.
    EncryptionUnusableKey(String),
    /// The engine failed in any other way while encrypting.
    EncryptionEngineError(String),
    /// No private key matches the ciphertext.
    DecryptionKeyUnavailable(String),
    /// The private key could not be unlocked.
    DecryptionPassphraseInvalid(String),
    /// The engine failed in any other way while decrypting.
    DecryptionEngineError(String),
    /// The engine failed before a key could be looked up for validation.
    KeyStoreError(String),
    /// Reading, writing or asking on the console failed.
    IoError(String),
}

/// A failure, as a mathematical value.
pub enum DmErrorView {
    VaultNotFound,
    VaultAlreadyExists,
    SourceNotFound(Seq<char>),
    KeyNotFound(Seq<char>),
    RecordAlreadyExists(Seq<char>),
    RecordNotInStorage(Seq<char>),
    SecretNotInStorage(Seq<char>),
    StorageEngineError(Seq<char>),
    EncryptionUnusableKey(Seq<char>),
    EncryptionEngineError(Seq<char>),
    DecryptionKeyUnavailable(Seq<char>),
    DecryptionPassphraseInvalid(Seq<char>),
    DecryptionEngineError(Seq<char>),
    KeyStoreError(Seq<char>),
    IoError(Seq<char>),
}

impl View for DmError {
    type V = DmErrorView;

    open spec fn view(&self) -> DmErrorView {
        match self {
            DmError::VaultNotFound => DmErrorView::VaultNotFound,
            DmError::VaultAlreadyExists => DmErrorView::VaultAlreadyExists,
            DmError::SourceNotFound(s) => DmErrorView::SourceNotFound(s@),
            DmError::KeyNotFound(s) => DmErrorView::KeyNotFound(s@),
            DmError::RecordAlreadyExists(s) => DmErrorView::RecordAlreadyExists(s@),
            DmError::RecordNotInStorage(s) => DmErrorView::RecordNotInStorage(s@),
            DmError::SecretNotInStorage(s) => DmErrorView::SecretNotInStorage(s@),
            DmError::StorageEngineError(s) => DmErrorView::StorageEngineError(s@),
            DmError::EncryptionUnusableKey(s) => DmErrorView::EncryptionUnusableKey(s@),
            DmError::EncryptionEngineError(s) => DmErrorView::EncryptionEngineError(s@),
            DmError::DecryptionKeyUnavailable(s) => DmErrorView::DecryptionKeyUnavailable(s@),
            DmError::DecryptionPassphraseInvalid(s) => DmErrorView::DecryptionPassphraseInvalid(s@),
            DmError::DecryptionEngineError(s) => DmErrorView::DecryptionEngineError(s@),
            DmError::KeyStoreError(s) => DmErrorView::KeyStoreError(s@),
            DmError::IoError(s) => DmErrorView::IoError(s@),
        }
    }
}

impl DmErrorView {
    /// The message a failure is reported with.
    pub open spec fn message(self) -> Seq<char> {
        match self {
            DmErrorView::VaultNotFound =>
                "Error: database dm-vault.db not found. Please run 'dm init <gpg_key_hash>' to create a new vault."@,
            DmErrorView::VaultAlreadyExists =>
                "Error: database dm-vault.db already exists. Please remove it or use a different directory."@,
            DmErrorView::SourceNotFound(path) => "Error: File '"@ + path + "' not found"@,
            DmErrorView::KeyNotFound(key) => "Error: GPG key '"@ + key + "' not found"@,
            DmErrorView::RecordAlreadyExists(id) => "Error: File '"@ + id
                + "' already exists in vault. Use 'dm update <filename>' to update it."@,
            DmErrorView::RecordNotInStorage(id) => "Error: File '"@ + id + "' not found in vault"@,
            DmErrorView::SecretNotInStorage(name) => "Error: Secret '"@ + name
                + "' not found in vault"@,
            DmErrorView::StorageEngineError(cause) => "Database error: "@ + cause,
            DmErrorView::EncryptionUnusableKey(cause) => "GPG error: "@ + cause,
            DmErrorView::EncryptionEngineError(cause) => "GPG error: "@ + cause,
            DmErrorView::DecryptionKeyUnavailable(cause) => "GPG error: "@ + cause,
            DmErrorView::DecryptionPassphraseInvalid(cause) => "GPG error: "@ + cause,
            DmErrorView::DecryptionEngineError(cause) => "GPG error: "@ + cause,
            DmErrorView::KeyStoreError(cause) => "GPG error: "@ + cause,
            DmErrorView::IoError(cause) => "IO error: "@ + cause,
        }
    }
}

impl DmError {
    /// The message this failure is reported with.
    pub fn message(&self) -> (r: String)
        ensures
            r@ == self@.message(),
    {
        match self {
            DmError::VaultNotFound => String::from_str(
                "Error: database dm-vault.db not found. Please run 'dm init <gpg_key_hash>' to create a new vault.",
            ),
            DmError::VaultAlreadyExists => String::from_str(
                "Error: database dm-vault.db already exists. Please remove it or use a different directory.",
            ),
            DmError::SourceNotFound(path) => join3("Error: File '", path.as_str(), "' not found"),
            DmError::KeyNotFound(key) => join3("Error: GPG key '", key.as_str(), "' not found"),
            DmError::RecordAlreadyExists(id) => join3(
                "Error: File '",
                id.as_str(),
                "' already exists in vault. Use 'dm update <filename>' to update it.",
            ),
            DmError::RecordNotInStorage(id) => join3(
                "Error: File '",
                id.as_str(),
                "' not found in vault",
            ),
            DmError::SecretNotInStorage(name) => join3(
                "Error: Secret '",
                name.as_str(),
                "' not found in vault",
            ),
            DmError::StorageEngineError(cause) => join2("Database error: ", cause.as_str()),
            DmError::EncryptionUnusableKey(cause) => join2("GPG error: ", cause.as_str()),
            DmError::EncryptionEngineError(cause) => join2("GPG error: ", cause.as_str()),
            DmError::DecryptionKeyUnavailable(cause) => join2("GPG error: ", cause.as_str()),
            DmError::DecryptionPassphraseInvalid(cause) => join2("GPG error: ", cause.as_str()),
            DmError::DecryptionEngineError(cause) => join2("GPG error: ", cause.as_str()),
            DmError::KeyStoreError(cause) => join2("GPG error: ", cause.as_str()),
            DmError::IoError(cause) => join2("IO error: ", cause.as_str()),
        }
    }
}

} // verus!
