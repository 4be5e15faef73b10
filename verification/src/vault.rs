//! The vault workflow: the steps that every operation shares, and the one
//! operation that takes a vault from uninitialized to active.

use crate::error::{DmError, DmErrorView};
use crate::exchange::{
    failed, reply_at, say, shown, succeeded, Asked, AskedView, Output, OutputView, Reply, Request,
    RequestView, Step, StepView,
};
use crate::gateway::{out, quiet, silence, verify_gpg_key, verify_gpg_key_spec};
use crate::paths::{canonical_path, canonicalize, identify, is_absolute, is_absolute_path, joined};
use crate::store::{Change, ChangeView, Storage, StorageView, Store, StoreView};
use crate::text::join2;
use vstd::prelude::*;
use vstd::string::*;

verus! {

/// Name of the storage file whose presence marks an active vault.
pub const DB_NAME: &'static str = "dm-vault.db";

/// The operations on the vault.
pub struct DataManager;

impl DataManager {
    /// The store an operation works on: that of an active vault. Absent
    /// storage ends the operation at once; no vault is made on the way.
    pub open spec fn open_database_spec(storage: StorageView) -> Result<StoreView, DmErrorView> {
        match storage {
            StorageView::Absent => Err(DmErrorView::VaultNotFound),
            StorageView::Unreadable(cause) => Err(DmErrorView::StorageEngineError(cause)),
            StorageView::Open(store) => Ok(store),
        }
    }

    /// Gives the store of an active vault.
    pub fn open_database(storage: &Storage) -> (r: Result<&Store, DmError>)
        requires
            storage.wf(),
        ensures
            r matches Ok(store) ==> store.wf() && Self::open_database_spec(storage@) == Ok::<
                StoreView,
                DmErrorView,
            >(store@),
            r matches Err(e) ==> Self::open_database_spec(storage@) == Err::<
                StoreView,
                DmErrorView,
            >(e@),
    {
        match storage {
            Storage::Absent => Err(DmError::VaultNotFound),
            Storage::Unreadable(cause) => Err(DmError::StorageEngineError(cause.clone())),
            Storage::Open(store) => Ok(store),
        }
    }

    /// The key the vault is bound to. It is read from the configuration
    /// each time it is needed.
    pub open spec fn get_gpg_key_hash_spec(store: StoreView) -> Result<Seq<char>, DmErrorView> {
        match store.bound_key() {
            Some(key) => Ok(key),
            None => Err(DmErrorView::StorageEngineError("Query returned no rows"@)),
        }
    }

    /// Reads the bound key from the configuration.
    pub fn get_gpg_key_hash(store: &Store) -> (r: Result<String, DmError>)
        requires
            store.wf(),
        ensures
            r matches Ok(key) ==> Self::get_gpg_key_hash_spec(store@) == Ok::<
                Seq<char>,
                DmErrorView,
            >(key@),
            r matches Err(e) ==> Self::get_gpg_key_hash_spec(store@) == Err::<
                Seq<char>,
                DmErrorView,
            >(e@),
    {
        match store.bound_key() {
            Some(key) => Ok(key.clone()),
            None => Err(DmError::StorageEngineError(String::from_str("Query returned no rows"))),
        }
    }

    /// How many replies it takes to identify the record for `filename`:
    /// one, with the working directory, unless the path is absolute already.
    pub open spec fn path_replies(filename: Seq<char>) -> int {
        if is_absolute_path(filename) {
            0
        } else {
            1
        }
    }

    /// The identifier of the file record for `filename`: the canonical
    /// form of its absolute path, taken against the working directory given
    /// in the reply at `at` where the path is relative. Every spelling of a
    /// path so comes to the same identifier.
    pub open spec fn get_absolute_path_spec(filename: Seq<char>, replies: Seq<Reply>, at: int) -> AskedView<
        Seq<char>,
    > {
        if is_absolute_path(filename) {
            AskedView::Ready(silence(), canonical_path(filename))
        } else {
            match reply_at(replies, at) {
                Some(Reply::CurrentDir(Ok(cwd))) => AskedView::Ready(
                    silence(),
                    canonical_path(joined(cwd@, filename)),
                ),
                Some(Reply::CurrentDir(Err(cause))) => AskedView::Failed(
                    silence(),
                    DmErrorView::IoError(cause@),
                ),
                _ => AskedView::Ask(RequestView::CurrentDir),
            }
        }
    }

    /// Gives the identifier of the file record for `filename`.
    pub fn get_absolute_path(filename: &str, replies: &Vec<Reply>, at: usize) -> (r: Asked<String>)
        ensures
            r@ == Self::get_absolute_path_spec(filename@, replies@, at as int),
    {
        if is_absolute(filename) {
            return Asked::Ready(quiet(), canonicalize(filename));
        }
        if at < replies.len() {
            match &replies[at] {
                Reply::CurrentDir(Ok(cwd)) => {
                    return Asked::Ready(quiet(), identify(filename, cwd.as_str()));
                },
                Reply::CurrentDir(Err(cause)) => {
                    return Asked::Failed(quiet(), DmError::IoError(cause.clone()));
                },
                _ => {},
            }
        }
        Asked::Ask(Request::CurrentDir)
    }

    /// The end of an operation that changes a record: the change is written
    /// to storage, as the reply at `at` tells, and only then is `done` said.
    pub open spec fn persist_spec(
        change: ChangeView,
        done: Seq<char>,
        output: Seq<OutputView>,
        replies: Seq<Reply>,
        at: int,
    ) -> StepView {
        match reply_at(replies, at) {
            Some(Reply::Persisted(Ok(_))) => StepView::succeeded(output.push(out(done))),
            Some(Reply::Persisted(Err(cause))) => StepView::failed(
                output,
                DmErrorView::StorageEngineError(cause@),
            ),
            _ => StepView::Ask(RequestView::Persist { change }),
        }
    }

    /// Writes a change to storage and reports it.
    pub fn persist(
        change: Change,
        done: String,
        output: Vec<Output>,
        replies: &Vec<Reply>,
        at: usize,
    ) -> (step: Step)
        ensures
            step@ == Self::persist_spec(change@, done@, shown(output@), replies@, at as int),
    {
        if at < replies.len() {
            match &replies[at] {
                Reply::Persisted(Ok(_)) => {
                    let mut output = output;
                    say(&mut output, done);
                    return succeeded(output);
                },
                Reply::Persisted(Err(cause)) => {
                    return failed(output, DmError::StorageEngineError(cause.clone()));
                },
                _ => {},
            }
        }
        Step::Ask(Request::Persist { change })
    }

    /// Initialization, the one way from an uninitialized vault to an active
    /// one. It fails where storage is present; otherwise the key is
    /// validated and the vault is created, bound to it.
    pub open spec fn init_spec(key_hash: Seq<char>, storage: StorageView, replies: Seq<Reply>) -> StepView {
        if storage != StorageView::Absent {
            StepView::failed(silence(), DmErrorView::VaultAlreadyExists)
        } else {
            match verify_gpg_key_spec(key_hash, replies, 0) {
                AskedView::Ask(request) => StepView::Ask(request),
                AskedView::Failed(said, error) => StepView::failed(said, error),
                AskedView::Ready(said, _) => Self::persist_spec(
                    ChangeView::CreateVault { key_hash },
                    "Vault initialized with GPG key: "@ + key_hash,
                    said,
                    replies,
                    1,
                ),
            }
        }
    }

    /// Initializes a vault bound to the key `key_hash`.
    pub fn init(key_hash: &str, storage: &Storage, replies: &Vec<Reply>) -> (step: Step)
        ensures
            step@ == Self::init_spec(key_hash@, storage@, replies@),
    {
        match storage {
            Storage::Absent => {},
            _ => {
                return failed(quiet(), DmError::VaultAlreadyExists);
            },
        }
        match verify_gpg_key(key_hash, replies, 0) {
            Asked::Ask(request) => Step::Ask(request),
            Asked::Failed(said, error) => failed(said, error),
            Asked::Ready(said, _) => Self::persist(
                Change::CreateVault { key_hash: String::from_str(key_hash) },
                join2("Vault initialized with GPG key: ", key_hash),
                said,
                replies,
                1,
            ),
        }
    }
}

} // verus!
