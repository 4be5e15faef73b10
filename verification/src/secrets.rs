//! The operations on secret records: short values kept under a name, each
//! with a list of tags.

use crate::error::{DmError, DmErrorView};
use crate::exchange::{
    failed, say, shown, succeeded, Asked, AskedView, Output, OutputView, Reply, Step, StepView,
};
use crate::gateway::{
    decrypt_content, decrypt_content_spec, encrypt_content, encrypt_content_spec, out, quiet,
    silence,
};
use crate::store::{Change, ChangeView, Storage, StorageView};
use crate::text::{join2, join3};
use crate::vault::DataManager;
use vstd::prelude::*;
use vstd::string::*;
use vstd::utf8::encode_utf8;

verus! {

/// The lines of a listing of secrets: a heading, then the first `n` of
/// `rows`, each with its tags.
pub open spec fn secret_lines(rows: Seq<(Seq<char>, Seq<char>)>, n: int) -> Seq<OutputView>
    decreases n,
{
    if n <= 0 {
        silence().push(out("List of secrets in vault:"@))
    } else {
        secret_lines(rows, n - 1).push(out("  "@ + rows[n - 1].0 + " tags: "@ + rows[n - 1].1))
    }
}

impl DataManager {
    /// Adding a secret. A name that is already stored is refused before
    /// anything is encrypted or written. Otherwise the value is encrypted
    /// to the bound key and stored, with its tags, under the name.
    pub open spec fn add_secret_spec(
        name: Seq<char>,
        value: Seq<char>,
        tags: Seq<char>,
        storage: StorageView,
        replies: Seq<Reply>,
    ) -> StepView {
        match Self::open_database_spec(storage) {
            Err(error) => StepView::failed(silence(), error),
            Ok(store) => if store.secrets.contains_key(name) {
                StepView::failed(silence(), DmErrorView::RecordAlreadyExists(name))
            } else {
                match Self::get_gpg_key_hash_spec(store) {
                    Err(error) => StepView::failed(silence(), error),
                    Ok(key) => match encrypt_content_spec(encode_utf8(value), key, replies, 0) {
                        AskedView::Ask(request) => StepView::Ask(request),
                        AskedView::Failed(said, error) => StepView::failed(said, error),
                        AskedView::Ready(said, body) => Self::persist_spec(
                            ChangeView::InsertSecret { name, body, tags },
                            "Secret '"@ + name + "' successfully added"@,
                            said,
                            replies,
                            2,
                        ),
                    },
                }
            },
        }
    }

    /// Adds the secret `name` with the value `value` and the tags `tags`.
    pub fn add_secret(
        name: &str,
        value: &str,
        tags: &str,
        storage: &Storage,
        replies: &Vec<Reply>,
    ) -> (step: Step)
        requires
            storage.wf(),
        ensures
            step@ == Self::add_secret_spec(name@, value@, tags@, storage@, replies@),
    {
        let store = match Self::open_database(storage) {
            Ok(store) => store,
            Err(error) => {
                return failed(quiet(), error);
            },
        };
        if store.secret_exists(name) {
            return failed(quiet(), DmError::RecordAlreadyExists(String::from_str(name)));
        }
        let key = match Self::get_gpg_key_hash(store) {
            Ok(key) => key,
            Err(error) => {
                return failed(quiet(), error);
            },
        };
        let plaintext = value.as_bytes_vec();
        match encrypt_content(&plaintext, key.as_str(), replies, 0) {
            Asked::Ask(request) => Step::Ask(request),
            Asked::Failed(said, error) => failed(said, error),
            Asked::Ready(said, body) => Self::persist(
                Change::InsertSecret {
                    name: String::from_str(name),
                    body,
                    tags: String::from_str(tags),
                },
                join3("Secret '", name, "' successfully added"),
                said,
                replies,
                2,
            ),
        }
    }

    /// Listing the secrets: those that the filter `tags` shows, by
    /// ascending name, each with its tags. An empty filter shows them all.
    pub open spec fn list_secrets_spec(tags: Seq<char>, storage: StorageView) -> StepView {
        match Self::open_database_spec(storage) {
            Err(error) => StepView::failed(silence(), error),
            Ok(store) => {
                let rows = store.secret_listing(tags);
                if rows.len() == 0 {
                    StepView::succeeded(silence().push(out("No secrets found in vault"@)))
                } else {
                    StepView::succeeded(secret_lines(rows, rows.len() as int))
                }
            },
        }
    }

    /// Lists the secrets that share a tag with `tags`, or all of them where
    /// `tags` is empty.
    pub fn list_secrets(tags: &str, storage: &Storage) -> (step: Step)
        requires
            storage.wf(),
        ensures
            step@ == Self::list_secrets_spec(tags@, storage@),
    {
        let store = match Self::open_database(storage) {
            Ok(store) => store,
            Err(error) => {
                return failed(quiet(), error);
            },
        };
        let rows = store.list_secrets(tags);
        let mut output = quiet();
        if rows.len() == 0 {
            say(&mut output, String::from_str("No secrets found in vault"));
            return succeeded(output);
        }
        say(&mut output, String::from_str("List of secrets in vault:"));
        let ghost listing = store@.secret_listing(tags@);
        let mut i: usize = 0;
        while i < rows.len()
            invariant
                i <= rows@.len(),
                rows@.len() == listing.len(),
                forall|k: int|
                    0 <= k < rows@.len() ==> (#[trigger] rows@[k]).0@ == listing[k].0 && rows@[k].1@
                        == listing[k].1,
                shown(output@) == secret_lines(listing, i as int),
            decreases rows@.len() - i,
        {
            let row = &rows[i];
            let mut line = join2("  ", row.0.as_str());
            line.append(" tags: ");
            line.append(row.1.as_str());
            say(&mut output, line);
            i += 1;
        }
        succeeded(output)
    }

    /// Updating a secret. A name that is not stored is refused before
    /// anything is encrypted or written. Otherwise the value is encrypted
    /// anew to the bound key and replaces the stored body; the tags are
    /// replaced where `tags` is not empty, and kept where it is.
    pub open spec fn update_secret_spec(
        name: Seq<char>,
        value: Seq<char>,
        tags: Seq<char>,
        storage: StorageView,
        replies: Seq<Reply>,
    ) -> StepView {
        match Self::open_database_spec(storage) {
            Err(error) => StepView::failed(silence(), error),
            Ok(store) => if !store.secrets.contains_key(name) {
                StepView::failed(silence(), DmErrorView::RecordNotInStorage(name))
            } else {
                match Self::get_gpg_key_hash_spec(store) {
                    Err(error) => StepView::failed(silence(), error),
                    Ok(key) => match encrypt_content_spec(encode_utf8(value), key, replies, 0) {
                        AskedView::Ask(request) => StepView::Ask(request),
                        AskedView::Failed(said, error) => StepView::failed(said, error),
                        AskedView::Ready(said, body) => Self::persist_spec(
                            ChangeView::UpdateSecret {
                                name,
                                body,
                                new_tags: if tags.len() == 0 {
                                    None
                                } else {
                                    Some(tags)
                                },
                            },
                            "Secret '"@ + name + "' successfully updated"@,
                            said,
                            replies,
                            2,
                        ),
                    },
                }
            },
        }
    }

    /// Gives the secret `name` the value `value` and, unless `tags` is
    /// empty, the tags `tags`.
    pub fn update_secret(
        name: &str,
        value: &str,
        tags: &str,
        storage: &Storage,
        replies: &Vec<Reply>,
    ) -> (step: Step)
        requires
            storage.wf(),
        ensures
            step@ == Self::update_secret_spec(name@, value@, tags@, storage@, replies@),
    {
        let store = match Self::open_database(storage) {
            Ok(store) => store,
            Err(error) => {
                return failed(quiet(), error);
            },
        };
        if !store.secret_exists(name) {
            return failed(quiet(), DmError::RecordNotInStorage(String::from_str(name)));
        }
        let key = match Self::get_gpg_key_hash(store) {
            Ok(key) => key,
            Err(error) => {
                return failed(quiet(), error);
            },
        };
        let plaintext = value.as_bytes_vec();
        match encrypt_content(&plaintext, key.as_str(), replies, 0) {
            Asked::Ask(request) => Step::Ask(request),
            Asked::Failed(said, error) => failed(said, error),
            Asked::Ready(said, body) => {
                let new_tags = if tags.unicode_len() == 0 {
                    None
                } else {
                    Some(String::from_str(tags))
                };
                Self::persist(
                    Change::UpdateSecret { name: String::from_str(name), body, new_tags },
                    join3("Secret '", name, "' successfully updated"),
                    said,
                    replies,
                    2,
                )
            },
        }
    }

    /// Removing a secret. That no secret has the name is no failure: it is
    /// said, and nothing is written.
    pub open spec fn remove_secret_spec(name: Seq<char>, storage: StorageView, replies: Seq<Reply>) -> StepView {
        match Self::open_database_spec(storage) {
            Err(error) => StepView::failed(silence(), error),
            Ok(store) => if !store.secrets.contains_key(name) {
                StepView::succeeded(
                    silence().push(out("Secret '"@ + name + "' not found in vault"@)),
                )
            } else {
                Self::persist_spec(
                    ChangeView::DeleteSecret { name },
                    "Secret '"@ + name + "' successfully removed from vault"@,
                    silence(),
                    replies,
                    0,
                )
            },
        }
    }

    /// Removes the secret `name`, if there is one.
    pub fn remove_secret(name: &str, storage: &Storage, replies: &Vec<Reply>) -> (step: Step)
        requires
            storage.wf(),
        ensures
            step@ == Self::remove_secret_spec(name@, storage@, replies@),
    {
        let store = match Self::open_database(storage) {
            Ok(store) => store,
            Err(error) => {
                return failed(quiet(), error);
            },
        };
        if !store.secret_exists(name) {
            let mut output = quiet();
            say(&mut output, join3("Secret '", name, "' not found in vault"));
            return succeeded(output);
        }
        Self::persist(
            Change::DeleteSecret { name: String::from_str(name) },
            join3("Secret '", name, "' successfully removed from vault"),
            quiet(),
            replies,
            0,
        )
    }

    /// Showing a secret: its stored body is decrypted and shown. The
    /// plaintext goes to the console and nowhere else.
    pub open spec fn show_secret_spec(name: Seq<char>, storage: StorageView, replies: Seq<Reply>) -> StepView {
        match Self::open_database_spec(storage) {
            Err(error) => StepView::failed(silence(), error),
            Ok(store) => if !store.secrets.contains_key(name) {
                StepView::failed(silence(), DmErrorView::SecretNotInStorage(name))
            } else {
                match decrypt_content_spec(store.secrets[name].0, replies, 0) {
                    AskedView::Ask(request) => StepView::Ask(request),
                    AskedView::Failed(said, error) => StepView::failed(said, error),
                    AskedView::Ready(said, plaintext) => StepView::succeeded(
                        said.push(OutputView::Secret(plaintext)),
                    ),
                }
            },
        }
    }

    /// Shows the secret `name`.
    pub fn show_secret(name: &str, storage: &Storage, replies: &Vec<Reply>) -> (step: Step)
        requires
            storage.wf(),
        ensures
            step@ == Self::show_secret_spec(name@, storage@, replies@),
    {
        let store = match Self::open_database(storage) {
            Ok(store) => store,
            Err(error) => {
                return failed(quiet(), error);
            },
        };
        let secret = match store.get_secret(name) {
            Some(secret) => secret,
            None => {
                return failed(quiet(), DmError::SecretNotInStorage(String::from_str(name)));
            },
        };
        match decrypt_content(&secret.body, replies, 0) {
            Asked::Ask(request) => Step::Ask(request),
            Asked::Failed(said, error) => failed(said, error),
            Asked::Ready(said, plaintext) => {
                let mut output = said;
                let ghost before = shown(output@);
                output.push(Output::Secret(plaintext));
                assert(shown(output@) =~= before.push(OutputView::Secret(plaintext@)));
                succeeded(output)
            },
        }
    }
}

} // verus!
