//! The operations on file records: files kept encrypted under their
//! absolute path.

use crate::error::{DmError, DmErrorView};
use crate::exchange::{
    failed, reply_at, say, shown, succeeded, Asked, AskedView, Output, OutputView, Reply, Request,
    RequestView, Step, StepView,
};
use crate::gateway::{
    decrypt_content, decrypt_content_spec, encrypt_content, encrypt_content_spec, out, quiet,
    silence,
};
use crate::paths::{file_name, file_name_of, is_absolute};
use crate::store::{Change, ChangeView, Storage, StorageView, Store, StoreView};
use crate::text::{is_yes, join2, join3, says_yes};
use crate::vault::DataManager;
use vstd::prelude::*;
use vstd::string::*;

verus! {

/// The lines of a listing of files: a heading, then the first `n` of
/// `paths`.
pub open spec fn file_lines(paths: Seq<Seq<char>>, n: int) -> Seq<OutputView>
    decreases n,
{
    if n <= 0 {
        silence().push(out("List of files in vault:"@))
    } else {
        file_lines(paths, n - 1).push(out("  "@ + paths[n - 1]))
    }
}

/// The path a file is exported to: the path it was stored from, or, for an
/// export into the working directory, the final component of that path.
/// A path without final component (the root, or one that ends in `..`)
/// gives no target for such an export.
pub open spec fn export_target(filename: Seq<char>, relative: bool) -> Option<Seq<char>> {
    if relative {
        file_name_of(filename)
    } else {
        Some(filename)
    }
}

/// The cause given for an export that has no target.
pub open spec fn no_target(filename: Seq<char>) -> Seq<char> {
    "Path '"@ + filename + "' has no file name"@
}

impl DataManager {
    /// Encrypting the content of `filename` to the bound key and storing it
    /// under `realpath`, as a new record or in place of the record's body.
    /// The replies from `at` on are those to the encryption, then that to
    /// the write.
    pub open spec fn store_file_spec(
        filename: Seq<char>,
        realpath: Seq<char>,
        updating: bool,
        content: Seq<u8>,
        store: StoreView,
        replies: Seq<Reply>,
        at: int,
    ) -> StepView {
        match Self::get_gpg_key_hash_spec(store) {
            Err(error) => StepView::failed(silence(), error),
            Ok(key) => match encrypt_content_spec(content, key, replies, at) {
                AskedView::Ask(request) => StepView::Ask(request),
                AskedView::Failed(said, error) => StepView::failed(said, error),
                AskedView::Ready(said, body) => if updating {
                    Self::persist_spec(
                        ChangeView::UpdateFile { path: realpath, body },
                        "File '"@ + filename + "' successfully updated in vault"@,
                        said,
                        replies,
                        at + 2,
                    )
                } else {
                    Self::persist_spec(
                        ChangeView::InsertFile { path: realpath, body },
                        "File '"@ + filename + "' successfully added to vault"@,
                        said,
                        replies,
                        at + 2,
                    )
                },
            },
        }
    }

    fn store_file(
        filename: &str,
        realpath: String,
        updating: bool,
        content: &Vec<u8>,
        store: &Store,
        replies: &Vec<Reply>,
        at: usize,
    ) -> (step: Step)
        requires
            store.wf(),
            at <= 3,
        ensures
            step@ == Self::store_file_spec(
                filename@,
                realpath@,
                updating,
                content@,
                store@,
                replies@,
                at as int,
            ),
    {
        let key = match Self::get_gpg_key_hash(store) {
            Ok(key) => key,
            Err(error) => {
                return failed(quiet(), error);
            },
        };
        match encrypt_content(content, key.as_str(), replies, at) {
            Asked::Ask(request) => Step::Ask(request),
            Asked::Failed(said, error) => failed(said, error),
            Asked::Ready(said, body) => if updating {
                Self::persist(
                    Change::UpdateFile { path: realpath, body },
                    join3("File '", filename, "' successfully updated in vault"),
                    said,
                    replies,
                    at + 2,
                )
            } else {
                Self::persist(
                    Change::InsertFile { path: realpath, body },
                    join3("File '", filename, "' successfully added to vault"),
                    said,
                    replies,
                    at + 2,
                )
            },
        }
    }

    /// Putting a file into the vault, as a new record (`updating` false) or
    /// in place of a stored one (`updating` true). The path is brought to
    /// its canonical absolute form first, and that is the record's
    /// identifier. A new record must not be stored yet, and one to update
    /// must be: either is refused at once, before anything outside is asked
    /// for, so nothing is read, encrypted or written. Only then must the
    /// file be on disk.
    pub open spec fn put_spec(
        filename: Seq<char>,
        updating: bool,
        storage: StorageView,
        replies: Seq<Reply>,
    ) -> StepView {
        match Self::open_database_spec(storage) {
            Err(error) => StepView::failed(silence(), error),
            Ok(store) => match Self::get_absolute_path_spec(filename, replies, 0) {
                AskedView::Ask(request) => StepView::Ask(request),
                AskedView::Failed(said, error) => StepView::failed(said, error),
                AskedView::Ready(_, realpath) => if !updating && store.files.contains_key(
                    realpath,
                ) {
                    StepView::failed(silence(), DmErrorView::RecordAlreadyExists(realpath))
                } else if updating && !store.files.contains_key(realpath) {
                    StepView::failed(silence(), DmErrorView::RecordNotInStorage(realpath))
                } else {
                    let at = Self::path_replies(filename);
                    match reply_at(replies, at) {
                        Some(Reply::PathExists(present)) => if !present {
                            StepView::failed(silence(), DmErrorView::SourceNotFound(filename))
                        } else {
                            match reply_at(replies, at + 1) {
                                Some(Reply::FileContent(Ok(content))) => Self::store_file_spec(
                                    filename,
                                    realpath,
                                    updating,
                                    content@,
                                    store,
                                    replies,
                                    at + 2,
                                ),
                                Some(Reply::FileContent(Err(cause))) => StepView::failed(
                                    silence(),
                                    DmErrorView::IoError(cause@),
                                ),
                                _ => StepView::Ask(RequestView::ReadFile { path: filename }),
                            }
                        },
                        _ => StepView::Ask(RequestView::PathExists { path: filename }),
                    }
                },
            },
        }
    }

    fn put(filename: &str, updating: bool, storage: &Storage, replies: &Vec<Reply>) -> (step: Step)
        requires
            storage.wf(),
        ensures
            step@ == Self::put_spec(filename@, updating, storage@, replies@),
    {
        let store = match Self::open_database(storage) {
            Ok(store) => store,
            Err(error) => {
                return failed(quiet(), error);
            },
        };
        let (realpath, at) = match Self::get_absolute_path(filename, replies, 0) {
            Asked::Ask(request) => {
                return Step::Ask(request);
            },
            Asked::Failed(said, error) => {
                return failed(said, error);
            },
            Asked::Ready(_, realpath) => {
                let at: usize = if is_absolute(filename) {
                    0
                } else {
                    1
                };
                (realpath, at)
            },
        };
        let stored = store.file_exists(realpath.as_str());
        if !updating && stored {
            return failed(quiet(), DmError::RecordAlreadyExists(realpath));
        }
        if updating && !stored {
            return failed(quiet(), DmError::RecordNotInStorage(realpath));
        }
        if at < replies.len() {
            match &replies[at] {
                Reply::PathExists(present) => {
                    if !*present {
                        return failed(
                            quiet(),
                            DmError::SourceNotFound(String::from_str(filename)),
                        );
                    }
                    if at + 1 < replies.len() {
                        match &replies[at + 1] {
                            Reply::FileContent(Ok(content)) => {
                                return Self::store_file(
                                    filename,
                                    realpath,
                                    updating,
                                    content,
                                    store,
                                    replies,
                                    at + 2,
                                );
                            },
                            Reply::FileContent(Err(cause)) => {
                                return failed(quiet(), DmError::IoError(cause.clone()));
                            },
                            _ => {},
                        }
                    }
                    return Step::Ask(Request::ReadFile { path: String::from_str(filename) });
                },
                _ => {},
            }
        }
        Step::Ask(Request::PathExists { path: String::from_str(filename) })
    }

    /// Adding a file: see `put_spec`.
    pub open spec fn add_spec(filename: Seq<char>, storage: StorageView, replies: Seq<Reply>) -> StepView {
        Self::put_spec(filename, false, storage, replies)
    }

    /// Adds the file `filename` to the vault.
    pub fn add(filename: &str, storage: &Storage, replies: &Vec<Reply>) -> (step: Step)
        requires
            storage.wf(),
        ensures
            step@ == Self::add_spec(filename@, storage@, replies@),
    {
        Self::put(filename, false, storage, replies)
    }

    /// Updating a file: see `put_spec`.
    pub open spec fn update_spec(filename: Seq<char>, storage: StorageView, replies: Seq<Reply>) -> StepView {
        Self::put_spec(filename, true, storage, replies)
    }

    /// Replaces the stored content of the file `filename` by what is on
    /// disk now.
    pub fn update(filename: &str, storage: &Storage, replies: &Vec<Reply>) -> (step: Step)
        requires
            storage.wf(),
        ensures
            step@ == Self::update_spec(filename@, storage@, replies@),
    {
        Self::put(filename, true, storage, replies)
    }

    /// Listing the files: the paths of all file records, in ascending
    /// lexicographic order.
    pub open spec fn list_spec(storage: StorageView) -> StepView {
        match Self::open_database_spec(storage) {
            Err(error) => StepView::failed(silence(), error),
            Ok(store) => {
                let paths = store.file_listing();
                if paths.len() == 0 {
                    StepView::succeeded(silence().push(out("Vault is empty"@)))
                } else {
                    StepView::succeeded(file_lines(paths, paths.len() as int))
                }
            },
        }
    }

    /// Lists the files in the vault.
    pub fn list(storage: &Storage) -> (step: Step)
        requires
            storage.wf(),
        ensures
            step@ == Self::list_spec(storage@),
    {
        let store = match Self::open_database(storage) {
            Ok(store) => store,
            Err(error) => {
                return failed(quiet(), error);
            },
        };
        let paths = store.list_files();
        let mut output = quiet();
        if paths.len() == 0 {
            say(&mut output, String::from_str("Vault is empty"));
            return succeeded(output);
        }
        say(&mut output, String::from_str("List of files in vault:"));
        let ghost listing = store@.file_listing();
        let mut i: usize = 0;
        while i < paths.len()
            invariant
                i <= paths@.len(),
                paths@.len() == listing.len(),
                forall|k: int| 0 <= k < paths@.len() ==> (#[trigger] paths@[k])@ == listing[k],
                shown(output@) == file_lines(listing, i as int),
            decreases paths@.len() - i,
        {
            say(&mut output, join2("  ", paths[i].as_str()));
            i += 1;
        }
        succeeded(output)
    }

    /// Removing a file. That no record has the path is no failure: it is
    /// said, and nothing is written.
    pub open spec fn remove_spec(filename: Seq<char>, storage: StorageView, replies: Seq<Reply>) -> StepView {
        match Self::open_database_spec(storage) {
            Err(error) => StepView::failed(silence(), error),
            Ok(store) => match Self::get_absolute_path_spec(filename, replies, 0) {
                AskedView::Ask(request) => StepView::Ask(request),
                AskedView::Failed(said, error) => StepView::failed(said, error),
                AskedView::Ready(_, realpath) => if !store.files.contains_key(realpath) {
                    StepView::succeeded(
                        silence().push(out("File '"@ + filename + "' not found in vault"@)),
                    )
                } else {
                    Self::persist_spec(
                        ChangeView::DeleteFile { path: realpath },
                        "File '"@ + filename + "' successfully removed from vault"@,
                        silence(),
                        replies,
                        Self::path_replies(filename),
                    )
                },
            },
        }
    }

    /// Removes the file `filename` from the vault, if it is there.
    pub fn remove(filename: &str, storage: &Storage, replies: &Vec<Reply>) -> (step: Step)
        requires
            storage.wf(),
        ensures
            step@ == Self::remove_spec(filename@, storage@, replies@),
    {
        let store = match Self::open_database(storage) {
            Ok(store) => store,
            Err(error) => {
                return failed(quiet(), error);
            },
        };
        match Self::get_absolute_path(filename, replies, 0) {
            Asked::Ask(request) => Step::Ask(request),
            Asked::Failed(said, error) => failed(said, error),
            Asked::Ready(_, realpath) => {
                if !store.file_exists(realpath.as_str()) {
                    let mut output = quiet();
                    say(&mut output, join3("File '", filename, "' not found in vault"));
                    return succeeded(output);
                }
                let at: usize = if is_absolute(filename) {
                    0
                } else {
                    1
                };
                Self::persist(
                    Change::DeleteFile { path: realpath },
                    join3("File '", filename, "' successfully removed from vault"),
                    quiet(),
                    replies,
                    at,
                )
            },
        }
    }

    /// The end of an export: `plaintext` is written to `target`, as the
    /// reply at `at` tells.
    pub open spec fn write_spec(
        target: Seq<char>,
        plaintext: Seq<u8>,
        output: Seq<OutputView>,
        replies: Seq<Reply>,
        at: int,
    ) -> StepView {
        match reply_at(replies, at) {
            Some(Reply::Written(Ok(_))) => StepView::succeeded(
                output.push(out("File '"@ + target + "' exported"@)),
            ),
            Some(Reply::Written(Err(cause))) => StepView::failed(
                output,
                DmErrorView::IoError(cause@),
            ),
            _ => StepView::Ask(RequestView::WriteFile { path: target, content: plaintext }),
        }
    }

    fn write(
        target: String,
        plaintext: Vec<u8>,
        output: Vec<Output>,
        replies: &Vec<Reply>,
        at: usize,
    ) -> (step: Step)
        ensures
            step@ == Self::write_spec(target@, plaintext@, shown(output@), replies@, at as int),
    {
        if at < replies.len() {
            match &replies[at] {
                Reply::Written(Ok(_)) => {
                    let mut output = output;
                    say(&mut output, join3("File '", target.as_str(), "' exported"));
                    return succeeded(output);
                },
                Reply::Written(Err(cause)) => {
                    return failed(output, DmError::IoError(cause.clone()));
                },
                _ => {},
            }
        }
        Step::Ask(Request::WriteFile { path: target, content: plaintext })
    }

    /// The end of an export, once the plaintext is at hand: the plaintext
    /// is written to `target`. Unless `confirm` is set, a target that
    /// exists is overwritten only after the console was asked and the
    /// answer was yes; any other answer ends the export, which is no
    /// failure. The replies from `at` on are those to these requests.
    pub open spec fn deliver_spec(
        target: Seq<char>,
        plaintext: Seq<u8>,
        confirm: bool,
        said: Seq<OutputView>,
        replies: Seq<Reply>,
        at: int,
    ) -> StepView {
        if confirm {
            Self::write_spec(target, plaintext, said, replies, at)
        } else {
            match reply_at(replies, at) {
                Some(Reply::PathExists(present)) => if !present {
                    Self::write_spec(target, plaintext, said, replies, at + 1)
                } else {
                    match reply_at(replies, at + 1) {
                        Some(Reply::Answer(Ok(line))) => if says_yes(line@) {
                            Self::write_spec(target, plaintext, said, replies, at + 2)
                        } else {
                            StepView::succeeded(said.push(out("Export canceled"@)))
                        },
                        Some(Reply::Answer(Err(cause))) => StepView::failed(
                            said,
                            DmErrorView::IoError(cause@),
                        ),
                        _ => StepView::Ask(
                            RequestView::Confirm {
                                prompt: "File '"@ + target
                                    + "' already exists. Overwrite? (y/N): "@,
                            },
                        ),
                    }
                },
                _ => StepView::Ask(RequestView::PathExists { path: target }),
            }
        }
    }

    fn deliver(
        target: String,
        plaintext: Vec<u8>,
        confirm: bool,
        said: Vec<Output>,
        replies: &Vec<Reply>,
        at: usize,
    ) -> (step: Step)
        requires
            at <= 2,
        ensures
            step@ == Self::deliver_spec(
                target@,
                plaintext@,
                confirm,
                shown(said@),
                replies@,
                at as int,
            ),
    {
        if confirm {
            return Self::write(target, plaintext, said, replies, at);
        }
        if at < replies.len() {
            match &replies[at] {
                Reply::PathExists(present) => {
                    if !*present {
                        return Self::write(target, plaintext, said, replies, at + 1);
                    }
                    if at + 1 < replies.len() {
                        match &replies[at + 1] {
                            Reply::Answer(Ok(line)) => {
                                if is_yes(line.as_str()) {
                                    return Self::write(target, plaintext, said, replies, at + 2);
                                }
                                let mut output = said;
                                say(&mut output, String::from_str("Export canceled"));
                                return succeeded(output);
                            },
                            Reply::Answer(Err(cause)) => {
                                return failed(said, DmError::IoError(cause.clone()));
                            },
                            _ => {},
                        }
                    }
                    return Step::Ask(
                        Request::Confirm {
                            prompt: join3(
                                "File '",
                                target.as_str(),
                                "' already exists. Overwrite? (y/N): ",
                            ),
                        },
                    );
                },
                _ => {},
            }
        }
        Step::Ask(Request::PathExists { path: target })
    }

    /// Exporting a file: the record must be stored; its body is decrypted,
    /// and the plaintext is written to the export's target, as
    /// `deliver_spec` says. An export into the working directory of a path
    /// without final component has no target: it fails with `IoError` once
    /// the plaintext is at hand, and writes nothing. An export never asks
    /// for a change to the vault.
    pub open spec fn export_spec(
        filename: Seq<char>,
        relative: bool,
        confirm: bool,
        storage: StorageView,
        replies: Seq<Reply>,
    ) -> StepView {
        match Self::open_database_spec(storage) {
            Err(error) => StepView::failed(silence(), error),
            Ok(store) => match Self::get_absolute_path_spec(filename, replies, 0) {
                AskedView::Ask(request) => StepView::Ask(request),
                AskedView::Failed(said, error) => StepView::failed(said, error),
                AskedView::Ready(_, realpath) => if !store.files.contains_key(realpath) {
                    StepView::failed(silence(), DmErrorView::RecordNotInStorage(realpath))
                } else {
                    let at = Self::path_replies(filename);
                    match decrypt_content_spec(store.files[realpath], replies, at) {
                        AskedView::Ask(request) => StepView::Ask(request),
                        AskedView::Failed(said, error) => StepView::failed(said, error),
                        AskedView::Ready(said, plaintext) => match export_target(
                            filename,
                            relative,
                        ) {
                            None => StepView::failed(
                                said,
                                DmErrorView::IoError(no_target(filename)),
                            ),
                            Some(target) => Self::deliver_spec(
                                target,
                                plaintext,
                                confirm,
                                said,
                                replies,
                                at + 1,
                            ),
                        },
                    }
                },
            },
        }
    }

    /// Exports the file `filename` from the vault: to the path it came
    /// from, or with `rel` into the working directory.
    pub fn export(
        filename: &str,
        rel: bool,
        confirm: bool,
        storage: &Storage,
        replies: &Vec<Reply>,
    ) -> (step: Step)
        requires
            storage.wf(),
        ensures
            step@ == Self::export_spec(filename@, rel, confirm, storage@, replies@),
    {
        let store = match Self::open_database(storage) {
            Ok(store) => store,
            Err(error) => {
                return failed(quiet(), error);
            },
        };
        let realpath = match Self::get_absolute_path(filename, replies, 0) {
            Asked::Ask(request) => {
                return Step::Ask(request);
            },
            Asked::Failed(said, error) => {
                return failed(said, error);
            },
            Asked::Ready(_, realpath) => realpath,
        };
        let body = match store.get_file(realpath.as_str()) {
            Some(body) => body,
            None => {
                return failed(quiet(), DmError::RecordNotInStorage(realpath));
            },
        };
        let at: usize = if is_absolute(filename) {
            0
        } else {
            1
        };
        let (said, plaintext) = match decrypt_content(body, replies, at) {
            Asked::Ask(request) => {
                return Step::Ask(request);
            },
            Asked::Failed(said, error) => {
                return failed(said, error);
            },
            Asked::Ready(said, plaintext) => (said, plaintext),
        };
        let target = if rel {
            file_name(filename)
        } else {
            Some(String::from_str(filename))
        };
        match target {
            None => failed(
                said,
                DmError::IoError(join3("Path '", filename, "' has no file name")),
            ),
            Some(target) => Self::deliver(target, plaintext, confirm, said, replies, at + 1),
        }
    }
}

} // verus!
