//! Key diagnostics: what is reported of a key, and whether it suits a vault.

use crate::error::{DmError, DmErrorView, EngineFailureView};
use crate::exchange::{
    extend, failed, reply_at, say, shown, succeeded, Asked, AskedView, KeyInfo, Output, OutputView,
    Reply, Request, RequestView, Step, StepView, SubkeyInfo, UserIdInfo,
};
use crate::gateway::{encrypt_content, encrypt_content_spec, out, quiet, silence};
use crate::text::{decimal, join2, join3, to_decimal};
use vstd::prelude::*;
use vstd::string::*;

verus! {

/// How a capability is shown.
pub open spec fn yes_no(b: bool) -> Seq<char> {
    if b {
        "✅ Yes"@
    } else {
        "❌ No"@
    }
}

fn yes_no_text(b: bool) -> (r: &'static str)
    ensures
        r@ == yes_no(b),
{
    if b {
        "✅ Yes"
    } else {
        "❌ No"
    }
}

/// A detail of a key, or `Unknown` where the keyring has none.
pub open spec fn or_unknown(text: Option<String>) -> Seq<char> {
    match text {
        Some(t) => t@,
        None => "Unknown"@,
    }
}

fn or_unknown_text(text: &Option<String>) -> (r: &str)
    ensures
        r@ == or_unknown(*text),
{
    match text {
        Some(t) => t.as_str(),
        None => "Unknown",
    }
}

/// The message whose encryption tests a key.
pub open spec fn test_message() -> Seq<u8> {
    "Test encryption capability".spec_bytes()
}

/// The head of a key's report: its capabilities and details.
pub open spec fn report_head(info: KeyInfo) -> Seq<OutputView> {
    silence().push(out("✅ GPG key found in keyring"@)).push(out("\nKey capabilities:"@)).push(
        out("  - Encryption: "@ + yes_no(info.can_encrypt)),
    ).push(out("  - Signing: "@ + yes_no(info.can_sign))).push(
        out("  - Certification: "@ + yes_no(info.can_certify)),
    ).push(out("  - Authentication: "@ + yes_no(info.can_authenticate))).push(
        out("\nDetails:"@),
    ).push(out("  - ID: "@ + or_unknown(info.id))).push(
        out("  - Fingerprint: "@ + or_unknown(info.fingerprint)),
    )
}

/// The report of the first `n` subkeys, numbered from 1, after the line
/// that counts them all.
pub open spec fn subkey_lines(subkeys: Seq<SubkeyInfo>, n: int) -> Seq<OutputView>
    decreases n,
{
    if n <= 0 {
        silence().push(out("Subkeys ("@ + decimal(subkeys.len()) + "):"@))
    } else {
        subkey_lines(subkeys, n - 1).push(out("  Subkey #"@ + decimal(n as nat))).push(
            out("    - ID: "@ + or_unknown(subkeys[n - 1].id)),
        ).push(out("    - Can encrypt: "@ + yes_no(subkeys[n - 1].can_encrypt)))
    }
}

/// The report of the first `n` user identities, numbered from 1, after the
/// line that counts them all.
pub open spec fn user_id_lines(user_ids: Seq<UserIdInfo>, n: int) -> Seq<OutputView>
    decreases n,
{
    if n <= 0 {
        silence().push(out("\nUser IDs ("@ + decimal(user_ids.len()) + "):"@))
    } else {
        user_id_lines(user_ids, n - 1).push(out("  ID #"@ + decimal(n as nat))).push(
            out("    - Name: "@ + or_unknown(user_ids[n - 1].name)),
        ).push(out("    - Email: "@ + or_unknown(user_ids[n - 1].email)))
    }
}

/// All that is reported of a key that was found.
pub open spec fn key_report(info: KeyInfo) -> Seq<OutputView> {
    report_head(info) + subkey_lines(info.subkeys@, info.subkeys@.len() as int) + user_id_lines(
        info.user_ids@,
        info.user_ids@.len() as int,
    )
}

/// What is said of a key that the keyring does not have.
pub open spec fn not_found_advice(e: EngineFailureView, key_hash: Seq<char>) -> Seq<OutputView> {
    silence().push(out("❌ GPG key not found: "@ + e.message)).push(out("\nDiagnosis:"@)).push(
        out("1. Check the hash: "@ + key_hash),
    ).push(out("2. Check available keys:"@)).push(out("   $ gpg --list-keys"@)).push(
        out("3. Maybe you need to import the key:"@),
    ).push(out("   $ gpg --import path/to/key.asc"@))
}

/// The verdict on a key that cannot encrypt: the test is skipped.
pub open spec fn verdict_unsuitable() -> Seq<OutputView> {
    silence().push(
        out("\nEncryption testing: ❌ Skipped (key does not support encryption)"@),
    ).push(out("\n❌ Problem: Key cannot be used for encryption"@)).push(
        out(
            "   Solution: Create a new key with encryption capability or add a subkey for encryption"@,
        ),
    )
}

/// The diagnosis of the key `key_hash`. The key is looked up; a key that is
/// found is reported, and if it can encrypt it is tested by encrypting a
/// message. That the test fails is part of the report, not a failure of
/// the diagnosis: only a key that is not found is.
pub open spec fn diagnose_key_spec(key_hash: Seq<char>, replies: Seq<Reply>) -> StepView {
    match reply_at(replies, 0) {
        Some(Reply::EngineUnavailable(e)) => StepView::failed(
            silence(),
            DmErrorView::KeyStoreError(e.message@),
        ),
        Some(Reply::Key(Err(e))) => StepView::failed(
            not_found_advice(e@, key_hash),
            DmErrorView::KeyNotFound(key_hash),
        ),
        Some(Reply::Key(Ok(info))) => if info.can_encrypt {
            let before = key_report(info).push(out("\nEncryption testing:"@));
            match encrypt_content_spec(test_message(), key_hash, replies, 1) {
                AskedView::Ask(request) => StepView::Ask(request),
                AskedView::Ready(said, _) => StepView::succeeded(
                    (before + said).push(out("  ✅ Encryption successful"@)).push(
                        out("\n✅ Key is suitable for use with dark-matter"@),
                    ),
                ),
                AskedView::Failed(said, error) => StepView::succeeded(
                    (before + said).push(out("  ❌ Encryption failed: "@ + error.message())).push(
                        out("\n✅ Key is suitable for use with dark-matter"@),
                    ),
                ),
            }
        } else {
            StepView::succeeded(key_report(info) + verdict_unsuitable())
        },
        _ => StepView::Ask(RequestView::LookupKey { key_id: key_hash }),
    }
}

fn say_head(info: &KeyInfo) -> (output: Vec<Output>)
    ensures
        shown(output@) == report_head(*info),
{
    let mut output = quiet();
    say(&mut output, String::from_str("✅ GPG key found in keyring"));
    say(&mut output, String::from_str("\nKey capabilities:"));
    say(&mut output, join2("  - Encryption: ", yes_no_text(info.can_encrypt)));
    say(&mut output, join2("  - Signing: ", yes_no_text(info.can_sign)));
    say(&mut output, join2("  - Certification: ", yes_no_text(info.can_certify)));
    say(&mut output, join2("  - Authentication: ", yes_no_text(info.can_authenticate)));
    say(&mut output, String::from_str("\nDetails:"));
    say(&mut output, join2("  - ID: ", or_unknown_text(&info.id)));
    say(&mut output, join2("  - Fingerprint: ", or_unknown_text(&info.fingerprint)));
    output
}

fn say_subkeys(subkeys: &Vec<SubkeyInfo>) -> (output: Vec<Output>)
    ensures
        shown(output@) == subkey_lines(subkeys@, subkeys@.len() as int),
{
    let mut output = quiet();
    let count = to_decimal(subkeys.len());
    say(&mut output, join3("Subkeys (", count.as_str(), "):"));
    let mut i: usize = 0;
    while i < subkeys.len()
        invariant
            i <= subkeys@.len(),
            shown(output@) == subkey_lines(subkeys@, i as int),
        decreases subkeys@.len() - i,
    {
        let subkey = &subkeys[i];
        let number = to_decimal(i + 1);
        say(&mut output, join2("  Subkey #", number.as_str()));
        say(&mut output, join2("    - ID: ", or_unknown_text(&subkey.id)));
        say(&mut output, join2("    - Can encrypt: ", yes_no_text(subkey.can_encrypt)));
        i += 1;
    }
    output
}

fn say_user_ids(user_ids: &Vec<UserIdInfo>) -> (output: Vec<Output>)
    ensures
        shown(output@) == user_id_lines(user_ids@, user_ids@.len() as int),
{
    let mut output = quiet();
    let count = to_decimal(user_ids.len());
    say(&mut output, join3("\nUser IDs (", count.as_str(), "):"));
    let mut i: usize = 0;
    while i < user_ids.len()
        invariant
            i <= user_ids@.len(),
            shown(output@) == user_id_lines(user_ids@, i as int),
        decreases user_ids@.len() - i,
    {
        let user_id = &user_ids[i];
        let number = to_decimal(i + 1);
        say(&mut output, join2("  ID #", number.as_str()));
        say(&mut output, join2("    - Name: ", or_unknown_text(&user_id.name)));
        say(&mut output, join2("    - Email: ", or_unknown_text(&user_id.email)));
        i += 1;
    }
    output
}

fn say_report(info: &KeyInfo) -> (output: Vec<Output>)
    ensures
        shown(output@) == key_report(*info),
{
    let mut output = say_head(info);
    extend(&mut output, say_subkeys(&info.subkeys));
    extend(&mut output, say_user_ids(&info.user_ids));
    output
}

/// Diagnoses the key `key_hash` for use with a vault.
pub fn diagnose_key(key_hash: &str, replies: &Vec<Reply>) -> (step: Step)
    ensures
        step@ == diagnose_key_spec(key_hash@, replies@),
{
    if 0 < replies.len() {
        match &replies[0] {
            Reply::EngineUnavailable(e) => {
                return failed(quiet(), DmError::KeyStoreError(e.message.clone()));
            },
            Reply::Key(Err(e)) => {
                let mut output = quiet();
                say(&mut output, join2("❌ GPG key not found: ", e.message.as_str()));
                say(&mut output, String::from_str("\nDiagnosis:"));
                say(&mut output, join2("1. Check the hash: ", key_hash));
                say(&mut output, String::from_str("2. Check available keys:"));
                say(&mut output, String::from_str("   $ gpg --list-keys"));
                say(&mut output, String::from_str("3. Maybe you need to import the key:"));
                say(&mut output, String::from_str("   $ gpg --import path/to/key.asc"));
                return failed(output, DmError::KeyNotFound(String::from_str(key_hash)));
            },
            Reply::Key(Ok(info)) => {
                let mut output = say_report(info);
                if info.can_encrypt {
                    say(&mut output, String::from_str("\nEncryption testing:"));
                    let message = "Test encryption capability".as_bytes_vec();
                    match encrypt_content(&message, key_hash, replies, 1) {
                        Asked::Ask(request) => {
                            return Step::Ask(request);
                        },
                        Asked::Ready(said, _) => {
                            extend(&mut output, said);
                            say(&mut output, String::from_str("  ✅ Encryption successful"));
                        },
                        Asked::Failed(said, error) => {
                            extend(&mut output, said);
                            let message = error.message();
                            say(&mut output, join2("  ❌ Encryption failed: ", message.as_str()));
                        },
                    }
                    say(
                        &mut output,
                        String::from_str("\n✅ Key is suitable for use with dark-matter"),
                    );
                } else {
                    say(
                        &mut output,
                        String::from_str(
                            "\nEncryption testing: ❌ Skipped (key does not support encryption)",
                        ),
                    );
                    say(
                        &mut output,
                        String::from_str("\n❌ Problem: Key cannot be used for encryption"),
                    );
                    say(
                        &mut output,
                        String::from_str(
                            "   Solution: Create a new key with encryption capability or add a subkey for encryption",
                        ),
                    );
                    assert(shown(output@) =~= key_report(*info) + verdict_unsuitable());
                }
                return succeeded(output);
            },
            _ => {},
        }
    }
    Step::Ask(Request::LookupKey { key_id: String::from_str(key_hash) })
}

} // verus!
