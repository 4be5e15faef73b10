//! The commands of the vault, and their dispatch to the operations.

use crate::diagnosis::{diagnose_key, diagnose_key_spec};
use crate::exchange::{warn, Completion, CompletionView, Reply, Step, StepView};
use crate::gateway::err;
use crate::store::{Storage, StorageView};
use crate::text::join2;
use crate::vault::DataManager;
use vstd::prelude::*;
use vstd::string::*;

verus! {

/// A command to the vault.
#[derive(Debug, PartialEq, Eq)]
#[allow(inconsistent_fields)]
pub enum Commands {
    /// Init new vault in current directory
    Init {
        /// Hash GPG key for encryption
        key_hash: String,
    },
    /// File management operations
    File { action: FileCommands },
    /// Secret management operations
    Secret { action: SecretsCommands },
    /// Key validation and diagnostics
    Keys { action: KeysCommands },
}

/// A command on the secrets of the vault.
#[derive(Debug, PartialEq, Eq)]
pub enum SecretsCommands {
    /// Add new secret to vault
    Add {
        /// Name of the secret
        name: String,
        /// New value for the secret
        value: String,
        /// Optional tags for the secret. Comma-separated.
        tags: String,
    },
    /// List all secrets in vault
    List {
        /// Optional tags for the secret. Comma-separated.
        tags: String,
    },
    /// Update existing secret in vault
    Update {
        /// Name of the secret to update
        name: String,
        /// New value for the secret
        value: String,
        /// Optional tags for the secret. Comma-separated.
        tags: String,
    },
    /// Remove secret from vault
    Remove {
        /// Name of the secret to remove
        name: String,
    },
    /// Show secret from vault
    Show {
        /// Name of the secret to show
        name: String,
    },
}

/// A command on the keys of the keyring.
#[derive(Debug, PartialEq, Eq)]
pub enum KeysCommands {
    /// Validate GPG key for use with dark-matter
    Validate {
        /// Hash of GPG key to validate
        key_hash: String,
    },
}

/// A command on the files of the vault.
#[derive(Debug, PartialEq, Eq)]
pub enum FileCommands {
    /// Add new file to vault
    Add {
        /// Absolute path to file for adding
        filename: String,
    },
    /// List all files in vault
    List,
    /// Update existing file in vault
    Update {
        /// Absolute path to file for updating
        filename: String,
    },
    /// Remove file from vault
    Remove {
        /// Absolute path to file for removing
        filename: String,
    },
    /// Export and decrypt file from vault
    Export {
        /// Absolute path to file for exporting
        filename: String,
        /// Export to current directory
        relative: bool,
        /// Overwrite without asking
        confirm: bool,
    },
}

/// A step whose failure, if it is one, is also announced on the error
/// stream, after `prefix`.
pub open spec fn announced(step: StepView, prefix: Seq<char>) -> StepView {
    match step {
        StepView::Done(completion) => match completion.result {
            Err(error) => StepView::Done(
                CompletionView {
                    output: completion.output.push(err(prefix + error.message())),
                    result: completion.result,
                },
            ),
            Ok(_) => step,
        },
        StepView::Ask(_) => step,
    }
}

fn announce(step: Step, prefix: &str) -> (r: Step)
    ensures
        r@ == announced(step@, prefix@),
{
    match step {
        Step::Done(completion) => {
            let Completion { output, result } = completion;
            match result {
                Err(error) => {
                    let mut output = output;
                    let message = error.message();
                    warn(&mut output, join2(prefix, message.as_str()));
                    Step::Done(Completion { output, result: Err(error) })
                },
                Ok(done) => Step::Done(Completion { output, result: Ok(done) }),
            }
        },
        Step::Ask(request) => Step::Ask(request),
    }
}

/// What a command on secrets comes to: the operation it names, with any
/// failure announced on the error stream as well.
pub open spec fn handle_secrets_command_spec(
    action: SecretsCommands,
    storage: StorageView,
    replies: Seq<Reply>,
) -> StepView {
    match action {
        SecretsCommands::Add { name, value, tags } => announced(
            DataManager::add_secret_spec(name@, value@, tags@, storage, replies),
            "Error adding secret: "@,
        ),
        SecretsCommands::List { tags } => announced(
            DataManager::list_secrets_spec(tags@, storage),
            "Error listing secrets: "@,
        ),
        SecretsCommands::Update { name, value, tags } => announced(
            DataManager::update_secret_spec(name@, value@, tags@, storage, replies),
            "Error updating secret: "@,
        ),
        SecretsCommands::Remove { name } => announced(
            DataManager::remove_secret_spec(name@, storage, replies),
            "Error removing secret: "@,
        ),
        SecretsCommands::Show { name } => announced(
            DataManager::show_secret_spec(name@, storage, replies),
            "Error showing secret: "@,
        ),
    }
}

/// Carries out a command on secrets, as far as `replies` lets it.
pub fn handle_secrets_command(action: &SecretsCommands, storage: &Storage, replies: &Vec<Reply>) -> (step:
    Step)
    requires
        storage.wf(),
    ensures
        step@ == handle_secrets_command_spec(*action, storage@, replies@),
{
    match action {
        SecretsCommands::Add { name, value, tags } => announce(
            DataManager::add_secret(name.as_str(), value.as_str(), tags.as_str(), storage, replies),
            "Error adding secret: ",
        ),
        SecretsCommands::List { tags } => announce(
            DataManager::list_secrets(tags.as_str(), storage),
            "Error listing secrets: ",
        ),
        SecretsCommands::Update { name, value, tags } => announce(
            DataManager::update_secret(
                name.as_str(),
                value.as_str(),
                tags.as_str(),
                storage,
                replies,
            ),
            "Error updating secret: ",
        ),
        SecretsCommands::Remove { name } => announce(
            DataManager::remove_secret(name.as_str(), storage, replies),
            "Error removing secret: ",
        ),
        SecretsCommands::Show { name } => announce(
            DataManager::show_secret(name.as_str(), storage, replies),
            "Error showing secret: ",
        ),
    }
}

/// What a command on keys comes to: the diagnosis of the key.
pub open spec fn handle_key_command_spec(action: KeysCommands, replies: Seq<Reply>) -> StepView {
    match action {
        KeysCommands::Validate { key_hash } => diagnose_key_spec(key_hash@, replies),
    }
}

/// Carries out a command on keys, as far as `replies` lets it.
pub fn handle_key_command(action: &KeysCommands, replies: &Vec<Reply>) -> (step: Step)
    ensures
        step@ == handle_key_command_spec(*action, replies@),
{
    match action {
        KeysCommands::Validate { key_hash } => diagnose_key(key_hash.as_str(), replies),
    }
}

/// What a command on files comes to: the operation it names.
pub open spec fn handle_file_command_spec(
    action: FileCommands,
    storage: StorageView,
    replies: Seq<Reply>,
) -> StepView {
    match action {
        FileCommands::Add { filename } => DataManager::add_spec(filename@, storage, replies),
        FileCommands::List => DataManager::list_spec(storage),
        FileCommands::Update { filename } => DataManager::update_spec(filename@, storage, replies),
        FileCommands::Remove { filename } => DataManager::remove_spec(filename@, storage, replies),
        FileCommands::Export { filename, relative, confirm } => DataManager::export_spec(
            filename@,
            relative,
            confirm,
            storage,
            replies,
        ),
    }
}

/// Carries out a command on files, as far as `replies` lets it.
pub fn handle_file_command(action: &FileCommands, storage: &Storage, replies: &Vec<Reply>) -> (step:
    Step)
    requires
        storage.wf(),
    ensures
        step@ == handle_file_command_spec(*action, storage@, replies@),
{
    match action {
        FileCommands::Add { filename } => DataManager::add(filename.as_str(), storage, replies),
        FileCommands::List => DataManager::list(storage),
        FileCommands::Update { filename } => DataManager::update(
            filename.as_str(),
            storage,
            replies,
        ),
        FileCommands::Remove { filename } => DataManager::remove(
            filename.as_str(),
            storage,
            replies,
        ),
        FileCommands::Export { filename, relative, confirm } => DataManager::export(
            filename.as_str(),
            *relative,
            *confirm,
            storage,
            replies,
        ),
    }
}

/// What a command comes to on the storage `storage`, after the replies
/// `replies` to the requests made so far: the next request, or the end.
pub open spec fn run_spec(command: Commands, storage: StorageView, replies: Seq<Reply>) -> StepView {
    match command {
        Commands::Init { key_hash } => DataManager::init_spec(key_hash@, storage, replies),
        Commands::File { action } => handle_file_command_spec(action, storage, replies),
        Commands::Keys { action } => handle_key_command_spec(action, replies),
        Commands::Secret { action } => handle_secrets_command_spec(action, storage, replies),
    }
}

/// Carries out a command as far as `replies` lets it. The caller starts
/// with no replies, answers each request that comes back, in order, and
/// calls again with that reply added, until the step is `Done`.
pub fn run(command: &Commands, storage: &Storage, replies: &Vec<Reply>) -> (step: Step)
    requires
        storage.wf(),
    ensures
        step@ == run_spec(*command, storage@, replies@),
{
    match command {
        Commands::Init { key_hash } => DataManager::init(key_hash.as_str(), storage, replies),
        Commands::File { action } => handle_file_command(action, storage, replies),
        Commands::Keys { action } => handle_key_command(action, replies),
        Commands::Secret { action } => handle_secrets_command(action, storage, replies),
    }
}

} // verus!
