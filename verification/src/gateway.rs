//! Key binding and the encryption gateway: which keys a vault may be bound
//! to, when content may be encrypted, and what the engine's failures mean.

use crate::error::{DmError, DmErrorView, EngineFailure, EngineFailureView};
use crate::exchange::{
    reply_at, say, shown, warn, Asked, AskedView, Output, OutputView, Reply, Request, RequestView,
};
use crate::text::{decimal, join2, join3, to_decimal};
use vstd::prelude::*;
use vstd::string::*;

verus! {

/// The engine's code for a public key that cannot be used to encrypt
/// (`GPG_ERR_UNUSABLE_PUBKEY`).
pub const UNUSABLE_KEY_CODE: u32 = 53;

/// The engine's code for a ciphertext whose private key is not at hand
/// (`GPG_ERR_NO_SECKEY`).
pub const NO_SECRET_KEY_CODE: u32 = 17;

/// The engine's code for a private key that could not be unlocked
/// (`GPG_ERR_BAD_PASSPHRASE`).
pub const BAD_PASSPHRASE_CODE: u32 = 11;

/// A line for standard output.
pub open spec fn out(text: Seq<char>) -> OutputView {
    OutputView::Stdout(text)
}

/// A line for the error stream.
pub open spec fn err(text: Seq<char>) -> OutputView {
    OutputView::Stderr(text)
}

/// No output at all.
pub open spec fn silence() -> Seq<OutputView> {
    Seq::empty()
}

/// An empty list of output.
pub fn quiet() -> (output: Vec<Output>)
    ensures
        shown(output@) == silence(),
{
    let output: Vec<Output> = Vec::new();
    assert(shown(output@) =~= silence());
    output
}

/// Key binding: whether a vault may be bound to the key `key_hash`, decided
/// from the reply at `at` to a lookup of the key. The key must be in the
/// keyring and able to encrypt.
pub open spec fn verify_gpg_key_spec(key_hash: Seq<char>, replies: Seq<Reply>, at: int) -> AskedView<
    (),
> {
    match reply_at(replies, at) {
        Some(Reply::EngineUnavailable(e)) => AskedView::Failed(
            silence(),
            DmErrorView::KeyStoreError(e.message@),
        ),
        Some(Reply::Key(Ok(info))) => if info.can_encrypt {
            AskedView::Ready(
                silence().push(out("GPG key found and can be used for encryption"@)),
                (),
            )
        } else {
            AskedView::Failed(
                silence().push(err("Key cannot be used for encryption"@)).push(
                    err("Please ensure the key is not expired and has encryption capabilities"@),
                ),
                DmErrorView::KeyNotFound(key_hash + " (key cannot be used for encryption)"@),
            )
        },
        Some(Reply::Key(Err(e))) => AskedView::Failed(
            silence().push(err("GPG key not found: "@ + e.message@)).push(
                err("Try run: gpg --list-keys "@ + key_hash),
            ),
            DmErrorView::KeyNotFound(key_hash),
        ),
        _ => AskedView::Ask(RequestView::LookupKey { key_id: key_hash }),
    }
}

/// Validates the key a vault is to be bound to.
pub fn verify_gpg_key(key_hash: &str, replies: &Vec<Reply>, at: usize) -> (r: Asked<()>)
    ensures
        r@ == verify_gpg_key_spec(key_hash@, replies@, at as int),
{
    if at < replies.len() {
        match &replies[at] {
            Reply::EngineUnavailable(e) => {
                return Asked::Failed(quiet(), DmError::KeyStoreError(e.message.clone()));
            },
            Reply::Key(Ok(info)) => {
                let mut output = quiet();
                if info.can_encrypt {
                    say(
                        &mut output,
                        String::from_str("GPG key found and can be used for encryption"),
                    );
                    return Asked::Ready(output, ());
                }
                warn(&mut output, String::from_str("Key cannot be used for encryption"));
                warn(
                    &mut output,
                    String::from_str(
                        "Please ensure the key is not expired and has encryption capabilities",
                    ),
                );
                return Asked::Failed(
                    output,
                    DmError::KeyNotFound(join2(key_hash, " (key cannot be used for encryption)")),
                );
            },
            Reply::Key(Err(e)) => {
                let mut output = quiet();
                warn(&mut output, join2("GPG key not found: ", e.message.as_str()));
                warn(&mut output, join2("Try run: gpg --list-keys ", key_hash));
                return Asked::Failed(output, DmError::KeyNotFound(String::from_str(key_hash)));
            },
            _ => {},
        }
    }
    Asked::Ask(Request::LookupKey { key_id: String::from_str(key_hash) })
}

/// The description given of a key that is found but cannot encrypt. The
/// engine is not asked in that case, so the description is the vault's own.
pub open spec fn unusable_key() -> Seq<char> {
    "Unusable public key"@
}

/// What is said on the error stream when the engine fails to encrypt.
pub open spec fn encrypt_diagnostics(e: EngineFailureView, key_hash: Seq<char>) -> Seq<OutputView> {
    let head = silence().push(err("Encrypt error: "@ + e.message)).push(
        err("Error code: "@ + decimal(e.code as nat)),
    );
    if e.code == UNUSABLE_KEY_CODE {
        head.push(err("GPG key cannot be used for encryption."@)).push(
            err("Possible reasons:"@),
        ).push(err("1. Key expired"@)).push(err("2. Key revoked"@)).push(
            err("3. Key has no encryption subkey"@),
        ).push(err("4. Insufficient trust level for key"@)).push(err(""@)).push(
            err("Try running:"@),
        ).push(err("  gpg --edit-key "@ + key_hash + " trust"@)).push(
            err("  (then select '5' for absolute trust)"@),
        )
    } else {
        head
    }
}

/// The named failure for an engine failure while encrypting: the engine's
/// code is read here and goes no further.
pub open spec fn encrypt_failure(e: EngineFailureView) -> DmErrorView {
    if e.code == UNUSABLE_KEY_CODE {
        DmErrorView::EncryptionUnusableKey(e.message)
    } else {
        DmErrorView::EncryptionEngineError(e.message)
    }
}

/// The encryption gateway's way to a ciphertext of `content` under the key
/// `key_hash`, from the replies at `at` (the key's lookup) and after it
/// (the engine's answer). The key's capability is checked anew each time;
/// a key that cannot encrypt is never handed to the engine. The
/// ciphertext is always asked for armored.
pub open spec fn encrypt_content_spec(
    content: Seq<u8>,
    key_hash: Seq<char>,
    replies: Seq<Reply>,
    at: int,
) -> AskedView<Seq<u8>> {
    match reply_at(replies, at) {
        Some(Reply::EngineUnavailable(e)) => AskedView::Failed(
            silence(),
            DmErrorView::EncryptionEngineError(e.message@),
        ),
        Some(Reply::Key(Err(e))) => AskedView::Failed(
            silence(),
            DmErrorView::EncryptionEngineError(e.message@),
        ),
        Some(Reply::Key(Ok(info))) => if !info.can_encrypt {
            AskedView::Failed(
                silence(),
                DmErrorView::EncryptionUnusableKey(unusable_key()),
            )
        } else {
            match reply_at(replies, at + 1) {
                Some(Reply::EngineUnavailable(e)) => AskedView::Failed(
                    silence(),
                    DmErrorView::EncryptionEngineError(e.message@),
                ),
                Some(Reply::Ciphertext(Ok(bytes))) => AskedView::Ready(silence(), bytes@),
                Some(Reply::Ciphertext(Err(e))) => AskedView::Failed(
                    encrypt_diagnostics(e@, key_hash),
                    encrypt_failure(e@),
                ),
                _ => AskedView::Ask(
                    RequestView::Encrypt { key_id: key_hash, plaintext: content, armored: true },
                ),
            }
        },
        _ => AskedView::Ask(RequestView::LookupKey { key_id: key_hash }),
    }
}

fn say_encrypt_failure(e: &EngineFailure, key_hash: &str) -> (output: Vec<Output>)
    ensures
        shown(output@) == encrypt_diagnostics(e@, key_hash@),
{
    let mut output = quiet();
    warn(&mut output, join2("Encrypt error: ", e.message.as_str()));
    let code = to_decimal(e.code as usize);
    warn(&mut output, join2("Error code: ", code.as_str()));
    if e.code == UNUSABLE_KEY_CODE {
        warn(&mut output, String::from_str("GPG key cannot be used for encryption."));
        warn(&mut output, String::from_str("Possible reasons:"));
        warn(&mut output, String::from_str("1. Key expired"));
        warn(&mut output, String::from_str("2. Key revoked"));
        warn(&mut output, String::from_str("3. Key has no encryption subkey"));
        warn(&mut output, String::from_str("4. Insufficient trust level for key"));
        warn(&mut output, String::from_str(""));
        warn(&mut output, String::from_str("Try running:"));
        warn(&mut output, join3("  gpg --edit-key ", key_hash, " trust"));
        warn(&mut output, String::from_str("  (then select '5' for absolute trust)"));
    }
    output
}

/// Encrypts `content` to the key `key_hash` through the engine.
pub fn encrypt_content(content: &Vec<u8>, key_hash: &str, replies: &Vec<Reply>, at: usize) -> (r:
    Asked<Vec<u8>>)
    ensures
        r@ == encrypt_content_spec(content@, key_hash@, replies@, at as int),
{
    if at < replies.len() {
        match &replies[at] {
            Reply::EngineUnavailable(e) => {
                return Asked::Failed(quiet(), DmError::EncryptionEngineError(e.message.clone()));
            },
            Reply::Key(Err(e)) => {
                return Asked::Failed(quiet(), DmError::EncryptionEngineError(e.message.clone()));
            },
            Reply::Key(Ok(info)) => {
                if !info.can_encrypt {
                    return Asked::Failed(
                        quiet(),
                        DmError::EncryptionUnusableKey(String::from_str("Unusable public key")),
                    );
                }
                if at + 1 < replies.len() {
                    match &replies[at + 1] {
                        Reply::EngineUnavailable(e) => {
                            return Asked::Failed(
                                quiet(),
                                DmError::EncryptionEngineError(e.message.clone()),
                            );
                        },
                        Reply::Ciphertext(Ok(bytes)) => {
                            return Asked::Ready(quiet(), bytes.clone());
                        },
                        Reply::Ciphertext(Err(e)) => {
                            let output = say_encrypt_failure(e, key_hash);
                            let error = if e.code == UNUSABLE_KEY_CODE {
                                DmError::EncryptionUnusableKey(e.message.clone())
                            } else {
                                DmError::EncryptionEngineError(e.message.clone())
                            };
                            return Asked::Failed(output, error);
                        },
                        _ => {},
                    }
                }
                return Asked::Ask(
                    Request::Encrypt {
                        key_id: String::from_str(key_hash),
                        plaintext: content.clone(),
                        armored: true,
                    },
                );
            },
            _ => {},
        }
    }
    Asked::Ask(Request::LookupKey { key_id: String::from_str(key_hash) })
}

/// What is said on the error stream when the engine fails to decrypt.
pub open spec fn decrypt_diagnostics(e: EngineFailureView) -> Seq<OutputView> {
    let head = silence().push(err("Decrypt error: "@ + e.message)).push(
        err("Error code: "@ + decimal(e.code as nat)),
    );
    if e.code == NO_SECRET_KEY_CODE {
        head.push(err("GPG key not found"@)).push(
            err("Make sure you have the corresponding private key"@),
        )
    } else if e.code == BAD_PASSPHRASE_CODE {
        head.push(err("Invalid passphrase for private key"@)).push(
            err("Make sure gpg-agent is running and configured"@),
        )
    } else {
        head
    }
}

/// The named failure for an engine failure while decrypting: the engine's
/// code is read here and goes no further.
pub open spec fn decrypt_failure(e: EngineFailureView) -> DmErrorView {
    if e.code == NO_SECRET_KEY_CODE {
        DmErrorView::DecryptionKeyUnavailable(e.message)
    } else if e.code == BAD_PASSPHRASE_CODE {
        DmErrorView::DecryptionPassphraseInvalid(e.message)
    } else {
        DmErrorView::DecryptionEngineError(e.message)
    }
}

/// The encryption gateway's way to the plaintext of `encrypted_content`,
/// from the reply at `at`. A failure is final: there is no second try and
/// no plaintext in its place.
pub open spec fn decrypt_content_spec(encrypted_content: Seq<u8>, replies: Seq<Reply>, at: int) -> AskedView<
    Seq<u8>,
> {
    match reply_at(replies, at) {
        Some(Reply::EngineUnavailable(e)) => AskedView::Failed(
            silence(),
            DmErrorView::DecryptionEngineError(e.message@),
        ),
        Some(Reply::Plaintext(Ok(bytes))) => AskedView::Ready(silence(), bytes@),
        Some(Reply::Plaintext(Err(e))) => AskedView::Failed(
            decrypt_diagnostics(e@),
            decrypt_failure(e@),
        ),
        _ => AskedView::Ask(RequestView::Decrypt { ciphertext: encrypted_content }),
    }
}

fn say_decrypt_failure(e: &EngineFailure) -> (output: Vec<Output>)
    ensures
        shown(output@) == decrypt_diagnostics(e@),
{
    let mut output = quiet();
    warn(&mut output, join2("Decrypt error: ", e.message.as_str()));
    let code = to_decimal(e.code as usize);
    warn(&mut output, join2("Error code: ", code.as_str()));
    if e.code == NO_SECRET_KEY_CODE {
        warn(&mut output, String::from_str("GPG key not found"));
        warn(&mut output, String::from_str("Make sure you have the corresponding private key"));
    } else if e.code == BAD_PASSPHRASE_CODE {
        warn(&mut output, String::from_str("Invalid passphrase for private key"));
        warn(&mut output, String::from_str("Make sure gpg-agent is running and configured"));
    }
    output
}

/// Decrypts `encrypted_content` through the engine.
pub fn decrypt_content(encrypted_content: &Vec<u8>, replies: &Vec<Reply>, at: usize) -> (r: Asked<
    Vec<u8>,
>)
    ensures
        r@ == decrypt_content_spec(encrypted_content@, replies@, at as int),
{
    if at < replies.len() {
        match &replies[at] {
            Reply::EngineUnavailable(e) => {
                return Asked::Failed(quiet(), DmError::DecryptionEngineError(e.message.clone()));
            },
            Reply::Plaintext(Ok(bytes)) => {
                return Asked::Ready(quiet(), bytes.clone());
            },
            Reply::Plaintext(Err(e)) => {
                let output = say_decrypt_failure(e);
                let error = if e.code == NO_SECRET_KEY_CODE {
                    DmError::DecryptionKeyUnavailable(e.message.clone())
                } else if e.code == BAD_PASSPHRASE_CODE {
                    DmError::DecryptionPassphraseInvalid(e.message.clone())
                } else {
                    DmError::DecryptionEngineError(e.message.clone())
                };
                return Asked::Failed(output, error);
            },
            _ => {},
        }
    }
    Asked::Ask(Request::Decrypt { ciphertext: encrypted_content.clone() })
}

} // verus!
