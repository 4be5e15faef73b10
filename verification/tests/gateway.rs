use dark_matter::commands::{handle_key_command, KeysCommands};
use dark_matter::diagnosis::diagnose_key;
use dark_matter::error::{DmError, EngineFailure};
use dark_matter::exchange::{
    Asked, Completion, KeyInfo, Output, Reply, Request, Step, SubkeyInfo, UserIdInfo,
};
use dark_matter::gateway::{
    decrypt_content, encrypt_content, verify_gpg_key, BAD_PASSPHRASE_CODE, NO_SECRET_KEY_CODE,
    UNUSABLE_KEY_CODE,
};

fn gw_out(text: &str) -> Output {
    Output::Stdout(text.to_string())
}

fn gw_err(text: &str) -> Output {
    Output::Stderr(text.to_string())
}

fn failure(code: u32, message: &str) -> EngineFailure {
    EngineFailure { code, message: message.to_string() }
}

fn plain_key(can_encrypt: bool) -> KeyInfo {
    KeyInfo {
        can_encrypt,
        can_sign: false,
        can_certify: false,
        can_authenticate: false,
        id: None,
        fingerprint: None,
        subkeys: Vec::new(),
        user_ids: Vec::new(),
    }
}

fn ready<T>(asked: Asked<T>) -> (Vec<Output>, T) {
    match asked {
        Asked::Ready(said, value) => (said, value),
        Asked::Ask(request) => panic!("asks {:?}", request),
        Asked::Failed(_, error) => panic!("failed with {:?}", error),
    }
}

fn failed<T>(asked: Asked<T>) -> (Vec<Output>, DmError) {
    match asked {
        Asked::Failed(said, error) => (said, error),
        Asked::Ask(request) => panic!("asks {:?}", request),
        Asked::Ready(_, _) => panic!("is ready"),
    }
}

fn asks<T>(asked: Asked<T>) -> Request {
    match asked {
        Asked::Ask(request) => request,
        _ => panic!("does not ask"),
    }
}

fn done(step: Step) -> Completion {
    match step {
        Step::Done(completion) => completion,
        Step::Ask(request) => panic!("asks {:?}", request),
    }
}

#[test]
fn engine_codes() {
    assert_eq!(UNUSABLE_KEY_CODE, 53);
    assert_eq!(NO_SECRET_KEY_CODE, 17);
    assert_eq!(BAD_PASSPHRASE_CODE, 11);
}

#[test]
fn verify_asks_for_the_key_first() {
    assert_eq!(
        asks(verify_gpg_key("ABC", &Vec::new(), 0)),
        Request::LookupKey { key_id: "ABC".to_string() }
    );
    let replies = vec![Reply::Key(Ok(plain_key(true)))];
    assert_eq!(
        asks(verify_gpg_key("ABC", &replies, 1)),
        Request::LookupKey { key_id: "ABC".to_string() }
    );
    let (said, _) = ready(verify_gpg_key("ABC", &replies, 0));
    assert_eq!(said, vec![gw_out("GPG key found and can be used for encryption")]);
}

#[test]
fn verify_fails_with_key_store_error_when_engine_is_down() {
    let replies = vec![Reply::EngineUnavailable(failure(150, "Invalid crypto engine"))];
    let (said, error) = failed(verify_gpg_key("ABC", &replies, 0));
    assert!(said.is_empty());
    assert_eq!(error, DmError::KeyStoreError("Invalid crypto engine".to_string()));
    assert_eq!(error.message(), "GPG error: Invalid crypto engine");
}

#[test]
fn encrypt_looks_the_key_up_then_encrypts() {
    let content = b"hello".to_vec();
    assert_eq!(
        asks(encrypt_content(&content, "K", &Vec::new(), 0)),
        Request::LookupKey { key_id: "K".to_string() }
    );
    let mut replies = vec![Reply::Key(Ok(plain_key(true)))];
    assert_eq!(
        asks(encrypt_content(&content, "K", &replies, 0)),
        Request::Encrypt { key_id: "K".to_string(), plaintext: b"hello".to_vec(), armored: true }
    );
    replies.push(Reply::Ciphertext(Ok(b"-----BEGIN PGP MESSAGE-----".to_vec())));
    let (said, body) = ready(encrypt_content(&content, "K", &replies, 0));
    assert!(said.is_empty());
    assert_eq!(body, b"-----BEGIN PGP MESSAGE-----".to_vec());
}

#[test]
fn encrypt_refuses_a_key_that_cannot_encrypt() {
    let replies = vec![
        Reply::Key(Ok(plain_key(false))),
        Reply::Ciphertext(Ok(b"never used".to_vec())),
    ];
    let (said, error) = failed(encrypt_content(&b"x".to_vec(), "K", &replies, 0));
    assert!(said.is_empty());
    assert_eq!(
        error,
        DmError::EncryptionUnusableKey("Unusable public key".to_string())
    );
    assert_eq!(error.message(), "GPG error: Unusable public key");
}

#[test]
fn encrypt_failures_are_named() {
    let lookup_failed = vec![Reply::Key(Err(failure(9, "No public key")))];
    let (said, error) = failed(encrypt_content(&b"x".to_vec(), "K", &lookup_failed, 0));
    assert!(said.is_empty());
    assert_eq!(error, DmError::EncryptionEngineError("No public key".to_string()));

    let engine_down = vec![Reply::EngineUnavailable(failure(1, "General error"))];
    let (_, error) = failed(encrypt_content(&b"x".to_vec(), "K", &engine_down, 0));
    assert_eq!(error, DmError::EncryptionEngineError("General error".to_string()));

    let down_later =
        vec![Reply::Key(Ok(plain_key(true))), Reply::EngineUnavailable(failure(1, "General error"))];
    let (_, error) = failed(encrypt_content(&b"x".to_vec(), "K", &down_later, 0));
    assert_eq!(error, DmError::EncryptionEngineError("General error".to_string()));

    let other = vec![
        Reply::Key(Ok(plain_key(true))),
        Reply::Ciphertext(Err(failure(55, "Invalid value (gpg error 55)"))),
    ];
    let (said, error) = failed(encrypt_content(&b"x".to_vec(), "K", &other, 0));
    assert_eq!(
        said,
        vec![gw_err("Encrypt error: Invalid value (gpg error 55)"), gw_err("Error code: 55")]
    );
    assert_eq!(error, DmError::EncryptionEngineError("Invalid value (gpg error 55)".to_string()));
}

#[test]
fn encrypt_unusable_key_comes_with_advice() {
    let replies = vec![
        Reply::Key(Ok(plain_key(true))),
        Reply::Ciphertext(Err(failure(53, "Unusable public key (gpg error 53)"))),
    ];
    let (said, error) = failed(encrypt_content(&b"x".to_vec(), "0xDEADBEEF", &replies, 0));
    assert_eq!(
        said,
        vec![
            gw_err("Encrypt error: Unusable public key (gpg error 53)"),
            gw_err("Error code: 53"),
            gw_err("GPG key cannot be used for encryption."),
            gw_err("Possible reasons:"),
            gw_err("1. Key expired"),
            gw_err("2. Key revoked"),
            gw_err("3. Key has no encryption subkey"),
            gw_err("4. Insufficient trust level for key"),
            gw_err(""),
            gw_err("Try running:"),
            gw_err("  gpg --edit-key 0xDEADBEEF trust"),
            gw_err("  (then select '5' for absolute trust)"),
        ]
    );
    assert_eq!(error, DmError::EncryptionUnusableKey("Unusable public key (gpg error 53)".to_string()));
}

#[test]
fn decrypt_gives_the_plaintext() {
    let body = b"cipher".to_vec();
    assert_eq!(
        asks(decrypt_content(&body, &Vec::new(), 0)),
        Request::Decrypt { ciphertext: b"cipher".to_vec() }
    );
    let replies = vec![Reply::Plaintext(Ok(b"plain".to_vec()))];
    let (said, plaintext) = ready(decrypt_content(&body, &replies, 0));
    assert!(said.is_empty());
    assert_eq!(plaintext, b"plain".to_vec());
}

#[test]
fn decrypt_failures_are_named() {
    let body = b"cipher".to_vec();
    let no_key = vec![Reply::Plaintext(Err(failure(17, "No secret key")))];
    let (said, error) = failed(decrypt_content(&body, &no_key, 0));
    assert_eq!(
        said,
        vec![
            gw_err("Decrypt error: No secret key"),
            gw_err("Error code: 17"),
            gw_err("GPG key not found"),
            gw_err("Make sure you have the corresponding private key"),
        ]
    );
    assert_eq!(error, DmError::DecryptionKeyUnavailable("No secret key".to_string()));

    let bad_pass = vec![Reply::Plaintext(Err(failure(11, "Bad passphrase")))];
    let (said, error) = failed(decrypt_content(&body, &bad_pass, 0));
    assert_eq!(
        said,
        vec![
            gw_err("Decrypt error: Bad passphrase"),
            gw_err("Error code: 11"),
            gw_err("Invalid passphrase for private key"),
            gw_err("Make sure gpg-agent is running and configured"),
        ]
    );
    assert_eq!(error, DmError::DecryptionPassphraseInvalid("Bad passphrase".to_string()));

    let other = vec![Reply::Plaintext(Err(failure(58, "No data")))];
    let (said, error) = failed(decrypt_content(&body, &other, 0));
    assert_eq!(said, vec![gw_err("Decrypt error: No data"), gw_err("Error code: 58")]);
    assert_eq!(error, DmError::DecryptionEngineError("No data".to_string()));

    let down = vec![Reply::EngineUnavailable(failure(1, "General error"))];
    let (said, error) = failed(decrypt_content(&body, &down, 0));
    assert!(said.is_empty());
    assert_eq!(error, DmError::DecryptionEngineError("General error".to_string()));
}

#[test]
fn messages_of_failures() {
    let cases = vec![
        (
            DmError::VaultNotFound,
            "Error: database dm-vault.db not found. Please run 'dm init <gpg_key_hash>' to create a new vault.",
        ),
        (
            DmError::VaultAlreadyExists,
            "Error: database dm-vault.db already exists. Please remove it or use a different directory.",
        ),
        (DmError::SourceNotFound("a.txt".to_string()), "Error: File 'a.txt' not found"),
        (DmError::KeyNotFound("K".to_string()), "Error: GPG key 'K' not found"),
        (
            DmError::RecordAlreadyExists("/a".to_string()),
            "Error: File '/a' already exists in vault. Use 'dm update <filename>' to update it.",
        ),
        (DmError::RecordNotInStorage("/a".to_string()), "Error: File '/a' not found in vault"),
        (DmError::SecretNotInStorage("s".to_string()), "Error: Secret 's' not found in vault"),
        (DmError::StorageEngineError("locked".to_string()), "Database error: locked"),
        (DmError::EncryptionUnusableKey("boom".to_string()), "GPG error: boom"),
        (DmError::EncryptionEngineError("boom".to_string()), "GPG error: boom"),
        (DmError::DecryptionKeyUnavailable("boom".to_string()), "GPG error: boom"),
        (DmError::DecryptionPassphraseInvalid("boom".to_string()), "GPG error: boom"),
        (DmError::DecryptionEngineError("boom".to_string()), "GPG error: boom"),
        (DmError::KeyStoreError("boom".to_string()), "GPG error: boom"),
        (DmError::IoError("denied".to_string()), "IO error: denied"),
    ];
    for (error, message) in cases {
        assert_eq!(error.message(), message);
    }
}

fn full_key() -> KeyInfo {
    KeyInfo {
        can_encrypt: true,
        can_sign: true,
        can_certify: false,
        can_authenticate: false,
        id: Some("1122334455667788".to_string()),
        fingerprint: Some("AABB".to_string()),
        subkeys: vec![
            SubkeyInfo { id: Some("S1".to_string()), can_encrypt: false },
            SubkeyInfo { id: None, can_encrypt: true },
        ],
        user_ids: vec![UserIdInfo { name: Some("Ann".to_string()), email: None }],
    }
}

fn report_lines() -> Vec<Output> {
    vec![
        gw_out("✅ GPG key found in keyring"),
        gw_out("\nKey capabilities:"),
        gw_out("  - Encryption: ✅ Yes"),
        gw_out("  - Signing: ✅ Yes"),
        gw_out("  - Certification: ❌ No"),
        gw_out("  - Authentication: ❌ No"),
        gw_out("\nDetails:"),
        gw_out("  - ID: 1122334455667788"),
        gw_out("  - Fingerprint: AABB"),
        gw_out("Subkeys (2):"),
        gw_out("  Subkey #1"),
        gw_out("    - ID: S1"),
        gw_out("    - Can encrypt: ❌ No"),
        gw_out("  Subkey #2"),
        gw_out("    - ID: Unknown"),
        gw_out("    - Can encrypt: ✅ Yes"),
        gw_out("\nUser IDs (1):"),
        gw_out("  ID #1"),
        gw_out("    - Name: Ann"),
        gw_out("    - Email: Unknown"),
    ]
}

#[test]
fn diagnosis_reports_and_tests_a_key() {
    let mut replies: Vec<Reply> = Vec::new();
    assert_eq!(
        diagnose_key("K", &replies),
        Step::Ask(Request::LookupKey { key_id: "K".to_string() })
    );
    replies.push(Reply::Key(Ok(full_key())));
    assert_eq!(
        diagnose_key("K", &replies),
        Step::Ask(Request::LookupKey { key_id: "K".to_string() })
    );
    replies.push(Reply::Key(Ok(full_key())));
    assert_eq!(
        diagnose_key("K", &replies),
        Step::Ask(Request::Encrypt {
            key_id: "K".to_string(),
            plaintext: b"Test encryption capability".to_vec(),
            armored: true,
        })
    );
    replies.push(Reply::Ciphertext(Ok(b"sealed".to_vec())));
    let completion = done(diagnose_key("K", &replies));
    assert_eq!(completion.result, Ok(()));
    let mut expected = report_lines();
    expected.push(gw_out("\nEncryption testing:"));
    expected.push(gw_out("  ✅ Encryption successful"));
    expected.push(gw_out("\n✅ Key is suitable for use with dark-matter"));
    assert_eq!(completion.output, expected);
}

#[test]
fn diagnosis_reports_a_failed_test_without_failing() {
    let replies = vec![
        Reply::Key(Ok(full_key())),
        Reply::Key(Ok(full_key())),
        Reply::Ciphertext(Err(failure(55, "Invalid value"))),
    ];
    let completion = done(diagnose_key("K", &replies));
    assert_eq!(completion.result, Ok(()));
    let mut expected = report_lines();
    expected.push(gw_out("\nEncryption testing:"));
    expected.push(gw_err("Encrypt error: Invalid value"));
    expected.push(gw_err("Error code: 55"));
    expected.push(gw_out("  ❌ Encryption failed: GPG error: Invalid value"));
    expected.push(gw_out("\n✅ Key is suitable for use with dark-matter"));
    assert_eq!(completion.output, expected);
}

#[test]
fn diagnosis_skips_the_test_for_a_key_that_cannot_encrypt() {
    let replies = vec![Reply::Key(Ok(plain_key(false)))];
    let completion = done(diagnose_key("K", &replies));
    assert_eq!(completion.result, Ok(()));
    assert_eq!(
        completion.output,
        vec![
            gw_out("✅ GPG key found in keyring"),
            gw_out("\nKey capabilities:"),
            gw_out("  - Encryption: ❌ No"),
            gw_out("  - Signing: ❌ No"),
            gw_out("  - Certification: ❌ No"),
            gw_out("  - Authentication: ❌ No"),
            gw_out("\nDetails:"),
            gw_out("  - ID: Unknown"),
            gw_out("  - Fingerprint: Unknown"),
            gw_out("Subkeys (0):"),
            gw_out("\nUser IDs (0):"),
            gw_out("\nEncryption testing: ❌ Skipped (key does not support encryption)"),
            gw_out("\n❌ Problem: Key cannot be used for encryption"),
            gw_out(
                "   Solution: Create a new key with encryption capability or add a subkey for encryption"
            ),
        ]
    );
}

#[test]
fn diagnosis_of_a_key_that_is_not_there() {
    let replies = vec![Reply::Key(Err(failure(16383, "End of file")))];
    let action = KeysCommands::Validate { key_hash: "NOPE".to_string() };
    let completion = done(handle_key_command(&action, &replies));
    assert_eq!(completion.result, Err(DmError::KeyNotFound("NOPE".to_string())));
    assert_eq!(
        completion.output,
        vec![
            gw_out("❌ GPG key not found: End of file"),
            gw_out("\nDiagnosis:"),
            gw_out("1. Check the hash: NOPE"),
            gw_out("2. Check available keys:"),
            gw_out("   $ gpg --list-keys"),
            gw_out("3. Maybe you need to import the key:"),
            gw_out("   $ gpg --import path/to/key.asc"),
        ]
    );
    let down = vec![Reply::EngineUnavailable(failure(1, "General error"))];
    let completion = done(handle_key_command(&action, &down));
    assert_eq!(completion.result, Err(DmError::KeyStoreError("General error".to_string())));
    assert!(completion.output.is_empty());
}

#[test]
fn other_codes_are_plain_engine_failures() {
    let body = b"cipher".to_vec();
    let no_public_key = vec![Reply::Plaintext(Err(failure(9, "No public key")))];
    let (said, error) = failed(decrypt_content(&body, &no_public_key, 0));
    assert_eq!(said, vec![gw_err("Decrypt error: No public key"), gw_err("Error code: 9")]);
    assert_eq!(error, DmError::DecryptionEngineError("No public key".to_string()));

    let card_removed = vec![
        Reply::Key(Ok(plain_key(true))),
        Reply::Ciphertext(Err(failure(110, "Card removed"))),
    ];
    let (said, error) = failed(encrypt_content(&b"x".to_vec(), "K", &card_removed, 0));
    assert_eq!(said, vec![gw_err("Encrypt error: Card removed"), gw_err("Error code: 110")]);
    assert_eq!(error, DmError::EncryptionEngineError("Card removed".to_string()));
}
