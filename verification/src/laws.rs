//! What holds of the vault's operations on every input: the laws that the
//! contracts of the operations give.

use crate::commands::{run_spec, Commands};
use crate::error::DmErrorView;
use crate::exchange::{reply_at, AskedView, Reply, RequestView, StepView};
use crate::files::{export_target, file_lines, no_target};
use crate::gateway::{encrypt_content_spec, out, silence};
use crate::paths::{
    absolute_path, canonical_path, components, file_name_of, grown, is_absolute_path,
    is_component, is_named, joined, lemma_canonical_fixed, lemma_canonical_pieces,
    lemma_grown_joined, lemma_grown_skips, lemma_grown_steps_back, lemma_rooted_starts_at_root,
    record_path,
};
use crate::secrets::secret_lines;
use crate::store::{select_secrets, ChangeView, StorageView, Store, StoreView};
use crate::table::{sorted_listing, strictly_sorted};
use crate::tags::filter_accepts;
use crate::text::{lemma_split_joined, lemma_split_plain, lex_lt, plain, split};
use crate::vault::DataManager;
use vstd::prelude::*;

verus! {

/// A vault is initialized once: on storage that is present, in whatever
/// state, initialization fails with `VaultAlreadyExists`, asks for nothing
/// and so writes nothing.
pub proof fn law_init_only_once(key_hash: Seq<char>, storage: StorageView, replies: Seq<Reply>)
    requires
        storage != StorageView::Absent,
    ensures
        DataManager::init_spec(key_hash, storage, replies) == StepView::failed(
            silence(),
            DmErrorView::VaultAlreadyExists,
        ),
{
}

/// Initialization binds the vault to the key it was given: once the key is
/// found able to encrypt, the one change asked for is the creation of the
/// vault with that key, and storage to which it is applied is a store with
/// the one configuration row for that key and no record.
pub proof fn law_init_binds_key(key_hash: Seq<char>, replies: Seq<Reply>)
    requires
        replies.len() == 1,
        replies[0] matches Reply::Key(Ok(info)) && info.can_encrypt,
    ensures
        DataManager::init_spec(key_hash, StorageView::Absent, replies) == StepView::Ask(
            RequestView::Persist { change: ChangeView::CreateVault { key_hash } },
        ),
        StorageView::Absent.apply(ChangeView::CreateVault { key_hash }) == StorageView::Open(
            StoreView::created(key_hash),
        ),
        StoreView::created(key_hash).bound_key() == Some(key_hash),
{
}

/// Without a vault nothing but initialization and key diagnostics is done:
/// every other command fails with `VaultNotFound`, asks for nothing, and
/// no vault is made on the way.
pub proof fn law_no_vault_no_operation(command: Commands, replies: Seq<Reply>)
    requires
        command is File || command is Secret,
    ensures
        run_spec(command, StorageView::Absent, replies) matches StepView::Done(completion)
            && completion.result == Err::<(), DmErrorView>(DmErrorView::VaultNotFound),
{
}

/// Adding a secret under a name that is stored fails with
/// `RecordAlreadyExists`, whatever the replies: nothing is asked for, so
/// nothing is encrypted or written, and the stored secret stays as it is.
pub proof fn law_add_existing_secret(
    name: Seq<char>,
    value: Seq<char>,
    tags: Seq<char>,
    store: StoreView,
    replies: Seq<Reply>,
)
    requires
        store.secrets.contains_key(name),
    ensures
        DataManager::add_secret_spec(name, value, tags, StorageView::Open(store), replies)
            == StepView::failed(silence(), DmErrorView::RecordAlreadyExists(name)),
{
}

/// Adding a file whose path is stored fails with `RecordAlreadyExists`,
/// whatever the replies after the path was made absolute: whether the file
/// is on disk is not even asked, and nothing is read, encrypted or written.
pub proof fn law_add_existing_file(
    filename: Seq<char>,
    realpath: Seq<char>,
    store: StoreView,
    replies: Seq<Reply>,
)
    requires
        DataManager::get_absolute_path_spec(filename, replies, 0) == AskedView::Ready(
            silence(),
            realpath,
        ),
        store.files.contains_key(realpath),
    ensures
        DataManager::add_spec(filename, StorageView::Open(store), replies) == StepView::failed(
            silence(),
            DmErrorView::RecordAlreadyExists(realpath),
        ),
{
}

/// A change that inserts a record under an identifier that is stored leaves
/// the store as it is.
pub proof fn law_insert_existing_changes_nothing(
    store: StoreView,
    id: Seq<char>,
    body: Seq<u8>,
    tags: Seq<char>,
)
    ensures
        store.files.contains_key(id) ==> store.apply(ChangeView::InsertFile { path: id, body })
            == store,
        store.secrets.contains_key(id) ==> store.apply(
            ChangeView::InsertSecret { name: id, body, tags },
        ) == store,
{
}

/// Updating a secret under a name that is not stored fails with
/// `RecordNotInStorage`, whatever the replies: nothing is asked for, so
/// nothing is encrypted or written.
pub proof fn law_update_missing_secret(
    name: Seq<char>,
    value: Seq<char>,
    tags: Seq<char>,
    store: StoreView,
    replies: Seq<Reply>,
)
    requires
        !store.secrets.contains_key(name),
    ensures
        DataManager::update_secret_spec(name, value, tags, StorageView::Open(store), replies)
            == StepView::failed(silence(), DmErrorView::RecordNotInStorage(name)),
{
}

/// Updating a file whose path is not stored fails with
/// `RecordNotInStorage`, whatever the replies after the path was made
/// absolute: whether the file is on disk is not even asked, and nothing is
/// read, encrypted or written.
pub proof fn law_update_missing_file(
    filename: Seq<char>,
    realpath: Seq<char>,
    store: StoreView,
    replies: Seq<Reply>,
)
    requires
        DataManager::get_absolute_path_spec(filename, replies, 0) == AskedView::Ready(
            silence(),
            realpath,
        ),
        !store.files.contains_key(realpath),
    ensures
        DataManager::update_spec(filename, StorageView::Open(store), replies)
            == StepView::failed(silence(), DmErrorView::RecordNotInStorage(realpath)),
{
}

/// A change that updates a record under an identifier that is not stored
/// leaves the store as it is.
pub proof fn law_update_missing_changes_nothing(
    store: StoreView,
    id: Seq<char>,
    body: Seq<u8>,
    new_tags: Option<Seq<char>>,
)
    ensures
        !store.files.contains_key(id) ==> store.apply(ChangeView::UpdateFile { path: id, body })
            == store,
        !store.secrets.contains_key(id) ==> store.apply(
            ChangeView::UpdateSecret { name: id, body, new_tags },
        ) == store,
{
}

/// Removing a secret that is not stored succeeds, whatever the replies:
/// it says that there is no such secret, and asks for nothing.
pub proof fn law_remove_missing_secret(name: Seq<char>, store: StoreView, replies: Seq<Reply>)
    requires
        !store.secrets.contains_key(name),
    ensures
        DataManager::remove_secret_spec(name, StorageView::Open(store), replies)
            == StepView::succeeded(
            silence().push(out("Secret '"@ + name + "' not found in vault"@)),
        ),
{
}

/// Removing a file that is not stored succeeds: once the path is made
/// absolute, it says that there is no such file, and asks for nothing.
pub proof fn law_remove_missing_file(
    filename: Seq<char>,
    realpath: Seq<char>,
    store: StoreView,
    replies: Seq<Reply>,
)
    requires
        DataManager::get_absolute_path_spec(filename, replies, 0) == AskedView::Ready(
            silence(),
            realpath,
        ),
        !store.files.contains_key(realpath),
    ensures
        DataManager::remove_spec(filename, StorageView::Open(store), replies)
            == StepView::succeeded(
            silence().push(out("File '"@ + filename + "' not found in vault"@)),
        ),
{
}

/// Removing never fails for want of the record: where storage is open and
/// the path can be made absolute, all that can fail is the write itself.
pub proof fn law_remove_never_fails_on_absence(
    filename: Seq<char>,
    store: StoreView,
    replies: Seq<Reply>,
)
    ensures
        ({
            let step = DataManager::remove_spec(filename, StorageView::Open(store), replies);
            step matches StepView::Done(completion) ==> (completion.result matches Err(error)
                ==> error is IoError || error is StorageEngineError)
        }),
        ({
            let step = DataManager::remove_secret_spec(filename, StorageView::Open(store), replies);
            step matches StepView::Done(completion) ==> (completion.result matches Err(error)
                ==> error is StorageEngineError)
        }),
{
}

/// A change that deletes a record that is not stored leaves the store as
/// it is.
pub proof fn law_delete_missing_changes_nothing(store: StoreView, id: Seq<char>)
    ensures
        !store.files.contains_key(id) ==> store.apply(ChangeView::DeleteFile { path: id })
            == store,
        !store.secrets.contains_key(id) ==> store.apply(ChangeView::DeleteSecret { name: id })
            == store,
{
    if !store.files.contains_key(id) {
        assert(store.files.remove(id) =~= store.files);
    }
    if !store.secrets.contains_key(id) {
        assert(store.secrets.remove(id) =~= store.secrets);
    }
}

/// A change touches one record at most: every record under another
/// identifier is after the change what it was before.
pub proof fn law_change_is_local(store: StoreView, change: ChangeView, other: Seq<char>)
    ensures
        (match change {
            ChangeView::InsertFile { path, .. } => path != other,
            ChangeView::UpdateFile { path, .. } => path != other,
            ChangeView::DeleteFile { path } => path != other,
            _ => true,
        }) ==> store.apply(change).files.contains_key(other) == store.files.contains_key(other)
            && (store.files.contains_key(other) ==> store.apply(change).files[other]
            == store.files[other]),
        (match change {
            ChangeView::InsertSecret { name, .. } => name != other,
            ChangeView::UpdateSecret { name, .. } => name != other,
            ChangeView::DeleteSecret { name } => name != other,
            _ => true,
        }) ==> store.apply(change).secrets.contains_key(other) == store.secrets.contains_key(other)
            && (store.secrets.contains_key(other) ==> store.apply(change).secrets[other]
            == store.secrets[other]),
        store.apply(change).config == store.config,
{
}

/// The listing of files gives every stored path once, in strictly
/// ascending lexicographic order. It is a function of the records alone,
/// so the order in which they were added does not show.
pub proof fn law_file_listing_is_ordered(store: &Store)
    requires
        store.wf(),
    ensures
        strictly_sorted(store@.file_listing()),
        forall|path: Seq<char>|
            store@.file_listing().contains(path) <==> store@.files.contains_key(path),
{
    store.lemma_listings();
}

/// Two stores that hold the same file records list them alike.
pub proof fn law_file_listing_by_contents(a: &Store, b: &Store)
    requires
        a.wf(),
        b.wf(),
        a@.files == b@.files,
    ensures
        a@.file_listing() == b@.file_listing(),
        DataManager::list_spec(StorageView::Open(a@)) == DataManager::list_spec(
            StorageView::Open(b@),
        ),
{
}

proof fn lemma_file_lines(paths: Seq<Seq<char>>, n: int)
    requires
        0 <= n <= paths.len(),
    ensures
        file_lines(paths, n).len() == n + 1,
        file_lines(paths, n)[0] == out("List of files in vault:"@),
        forall|k: int| 0 <= k < n ==> #[trigger] file_lines(paths, n)[k + 1] == out("  "@ + paths[k]),
    decreases n,
{
    if n > 0 {
        lemma_file_lines(paths, n - 1);
        assert forall|k: int| 0 <= k < n implies #[trigger] file_lines(paths, n)[k + 1] == out(
            "  "@ + paths[k],
        ) by {
            if k < n - 1 {
                assert(file_lines(paths, n)[k + 1] == file_lines(paths, n - 1)[k + 1]);
            }
        }
    }
}

/// What the listing of files says: that the vault is empty, or a heading
/// and then one line for each path of the listing, in its order.
pub proof fn law_list_output(store: &Store)
    requires
        store.wf(),
    ensures
        ({
            let paths = store@.file_listing();
            DataManager::list_spec(StorageView::Open(store@)) matches StepView::Done(completion)
                && completion.result == Ok::<(), DmErrorView>(()) && if paths.len() == 0 {
                completion.output == silence().push(out("Vault is empty"@))
            } else {
                &&& completion.output.len() == paths.len() + 1
                &&& forall|k: int|
                    0 <= k < paths.len() ==> #[trigger] completion.output[k + 1] == out(
                        "  "@ + paths[k],
                    )
            }
        }),
{
    let paths = store@.file_listing();
    lemma_file_lines(paths, paths.len() as int);
}

proof fn lemma_select(
    names: Seq<Seq<char>>,
    secrets: Map<Seq<char>, (Seq<u8>, Seq<char>)>,
    filter: Seq<char>,
)
    ensures
        select_secrets(names, secrets, filter).len() <= names.len(),
        forall|k: int|
            0 <= k < select_secrets(names, secrets, filter).len() ==> {
                let row = #[trigger] select_secrets(names, secrets, filter)[k];
                &&& names.contains(row.0)
                &&& row.1 == secrets[row.0].1
                &&& filter_accepts(filter, row.1)
            },
        forall|i: int|
            0 <= i < names.len() && filter_accepts(filter, secrets[#[trigger] names[i]].1)
                ==> exists|k: int|
                0 <= k < select_secrets(names, secrets, filter).len() && (#[trigger] select_secrets(
                    names,
                    secrets,
                    filter,
                )[k]).0 == names[i],
        strictly_sorted(names) ==> forall|i: int, j: int|
            0 <= i < j < select_secrets(names, secrets, filter).len() ==> lex_lt(
                (#[trigger] select_secrets(names, secrets, filter)[i]).0,
                (#[trigger] select_secrets(names, secrets, filter)[j]).0,
            ),
        filter.len() == 0 ==> select_secrets(names, secrets, filter).len() == names.len()
            && forall|k: int|
            0 <= k < names.len() ==> (#[trigger] select_secrets(names, secrets, filter)[k]).0
                == names[k],
    decreases names.len(),
{
    let rows = select_secrets(names, secrets, filter);
    if names.len() > 0 {
        let front = names.drop_last();
        let rest = select_secrets(front, secrets, filter);
        let name = names.last();
        lemma_select(front, secrets, filter);
        assert forall|k: int| 0 <= k < rest.len() implies names.contains((#[trigger] rest[k]).0) by {
            let i = choose|i: int| 0 <= i < front.len() && front[i] == rest[k].0;
            assert(names[i] == rest[k].0);
        }
        assert(names.contains(name)) by {
            assert(names[names.len() - 1] == name);
        }
        assert forall|i: int|
            0 <= i < names.len() && filter_accepts(
                filter,
                secrets[#[trigger] names[i]].1,
            ) implies exists|k: int|
            0 <= k < rows.len() && (#[trigger] rows[k]).0 == names[i] by {
            if i < names.len() - 1 {
                assert(front[i] == names[i]);
                let k = choose|k: int| 0 <= k < rest.len() && (#[trigger] rest[k]).0 == front[i];
                assert(rows[k] == rest[k]);
            } else {
                assert(rows[rows.len() - 1].0 == names[i]);
            }
        }
        if strictly_sorted(names) {
            assert(strictly_sorted(front)) by {
                assert forall|i: int, j: int| 0 <= i < j < front.len() implies lex_lt(
                    #[trigger] front[i],
                    #[trigger] front[j],
                ) by {
                    assert(lex_lt(names[i], names[j]));
                }
            }
            assert forall|i: int, j: int| 0 <= i < j < rows.len() implies lex_lt(
                (#[trigger] rows[i]).0,
                (#[trigger] rows[j]).0,
            ) by {
                if j < rest.len() {
                    assert(rows[i] == rest[i] && rows[j] == rest[j]);
                } else {
                    assert(rows[i] == rest[i]);
                    let a = choose|a: int| 0 <= a < front.len() && front[a] == rest[i].0;
                    assert(lex_lt(names[a], names[names.len() - 1]));
                }
            }
        }
        if filter.len() == 0 {
            assert forall|k: int| 0 <= k < names.len() implies (#[trigger] rows[k]).0
                == names[k] by {
                if k < names.len() - 1 {
                    assert(rows[k] == rest[k]);
                    assert(front[k] == names[k]);
                }
            }
        }
    }
}

/// The listing of secrets under a filter shows exactly the stored secrets
/// whose tags share a tag with the filter, each once with its own tags, by
/// strictly ascending name; under the empty filter it shows every secret.
pub proof fn law_secret_listing_is_filtered(store: &Store, filter: Seq<char>)
    requires
        store.wf(),
    ensures
        forall|k: int|
            0 <= k < store@.secret_listing(filter).len() ==> {
                let row = #[trigger] store@.secret_listing(filter)[k];
                &&& store@.secrets.contains_key(row.0)
                &&& row.1 == store@.secrets[row.0].1
                &&& filter_accepts(filter, row.1)
            },
        forall|name: Seq<char>|
            store@.secrets.contains_key(name) && filter_accepts(filter, store@.secrets[name].1)
                ==> exists|k: int|
                0 <= k < store@.secret_listing(filter).len() && (#[trigger] store@.secret_listing(
                    filter,
                )[k]).0 == name,
        forall|i: int, j: int|
            0 <= i < j < store@.secret_listing(filter).len() ==> lex_lt(
                (#[trigger] store@.secret_listing(filter)[i]).0,
                (#[trigger] store@.secret_listing(filter)[j]).0,
            ),
        filter.len() == 0 ==> forall|name: Seq<char>|
            store@.secrets.contains_key(name) ==> exists|k: int|
                0 <= k < store@.secret_listing(filter).len() && (#[trigger] store@.secret_listing(
                    filter,
                )[k]).0 == name,
{
    store.lemma_listings();
    let names = sorted_listing(store@.secrets.dom());
    let rows = store@.secret_listing(filter);
    lemma_select(names, store@.secrets, filter);
    assert forall|name: Seq<char>|
        store@.secrets.contains_key(name) && filter_accepts(
            filter,
            store@.secrets[name].1,
        ) implies exists|k: int| 0 <= k < rows.len() && (#[trigger] rows[k]).0 == name by {
        assert(names.contains(name));
        let i = choose|i: int| 0 <= i < names.len() && names[i] == name;
        assert(filter_accepts(filter, store@.secrets[names[i]].1));
    }
}

proof fn lemma_secret_lines(rows: Seq<(Seq<char>, Seq<char>)>, n: int)
    requires
        0 <= n <= rows.len(),
    ensures
        secret_lines(rows, n).len() == n + 1,
        forall|k: int|
            0 <= k < n ==> #[trigger] secret_lines(rows, n)[k + 1] == out(
                "  "@ + rows[k].0 + " tags: "@ + rows[k].1,
            ),
    decreases n,
{
    if n > 0 {
        lemma_secret_lines(rows, n - 1);
        assert forall|k: int| 0 <= k < n implies #[trigger] secret_lines(rows, n)[k + 1] == out(
            "  "@ + rows[k].0 + " tags: "@ + rows[k].1,
        ) by {
            if k < n - 1 {
                assert(secret_lines(rows, n)[k + 1] == secret_lines(rows, n - 1)[k + 1]);
            }
        }
    }
}

/// What the listing of secrets says: that there are none to show, or a
/// heading and then one line for each secret of the filtered listing, in
/// its order, with the secret's name and tags.
pub proof fn law_list_secrets_output(store: &Store, filter: Seq<char>)
    requires
        store.wf(),
    ensures
        ({
            let rows = store@.secret_listing(filter);
            DataManager::list_secrets_spec(filter, StorageView::Open(store@)) matches StepView::Done(
                completion,
            ) && completion.result == Ok::<(), DmErrorView>(()) && if rows.len() == 0 {
                completion.output == silence().push(out("No secrets found in vault"@))
            } else {
                &&& completion.output.len() == rows.len() + 1
                &&& forall|k: int|
                    0 <= k < rows.len() ==> #[trigger] completion.output[k + 1] == out(
                        "  "@ + rows[k].0 + " tags: "@ + rows[k].1,
                    )
            }
        }),
{
    let rows = store@.secret_listing(filter);
    lemma_secret_lines(rows, rows.len() as int);
}

/// Whether `body` is a ciphertext that the engine gave in one of the
/// replies.
pub open spec fn came_from_engine(body: Seq<u8>, replies: Seq<Reply>) -> bool {
    exists|i: int|
        0 <= i < replies.len() && (#[trigger] replies[i] matches Reply::Ciphertext(Ok(bytes))
            && bytes@ == body)
}

/// Nothing is stored but ciphertext: the body of every record that an
/// operation asks to have written is a ciphertext that the engine gave.
pub proof fn law_only_ciphertext_is_stored(
    command: Commands,
    storage: StorageView,
    replies: Seq<Reply>,
)
    ensures
        run_spec(command, storage, replies) matches StepView::Ask(RequestView::Persist { change })
            ==> match change {
            ChangeView::InsertFile { body, .. } => came_from_engine(body, replies),
            ChangeView::UpdateFile { body, .. } => came_from_engine(body, replies),
            ChangeView::InsertSecret { body, .. } => came_from_engine(body, replies),
            ChangeView::UpdateSecret { body, .. } => came_from_engine(body, replies),
            _ => true,
        },
{
    assert forall|content: Seq<u8>, key: Seq<char>, at: int| 0 <= at implies (
    match #[trigger] encrypt_content_spec(content, key, replies, at) {
        AskedView::Ready(_, body) => came_from_engine(body, replies),
        _ => true,
    }) by {
        match encrypt_content_spec(content, key, replies, at) {
            AskedView::Ready(_, body) => {
                assert(replies[at + 1] matches Reply::Ciphertext(Ok(bytes)) && bytes@ == body);
            },
            _ => {},
        }
    }
}

/// Exporting a file whose path is not stored fails with
/// `RecordNotInStorage`, whatever the flags and the replies after the path
/// was made absolute: nothing is decrypted, asked of the console or
/// written.
pub proof fn law_export_missing_file(
    filename: Seq<char>,
    realpath: Seq<char>,
    relative: bool,
    confirm: bool,
    store: StoreView,
    replies: Seq<Reply>,
)
    requires
        DataManager::get_absolute_path_spec(filename, replies, 0) == AskedView::Ready(
            silence(),
            realpath,
        ),
        !store.files.contains_key(realpath),
    ensures
        DataManager::export_spec(filename, relative, confirm, StorageView::Open(store), replies)
            == StepView::failed(silence(), DmErrorView::RecordNotInStorage(realpath)),
{
}

/// An export only reads the vault: on no input does it ask for a change to
/// be written to storage. What it asks for is the working directory, the
/// decryption of the stored body, whether its target exists, the
/// console's answer, and the writing of its target.
pub proof fn law_export_leaves_the_vault(
    filename: Seq<char>,
    relative: bool,
    confirm: bool,
    storage: StorageView,
    replies: Seq<Reply>,
)
    ensures
        DataManager::export_spec(filename, relative, confirm, storage, replies) matches StepView::Ask(
            request,
        ) ==> (request is CurrentDir || request is Decrypt || request is PathExists
            || request is Confirm || request is WriteFile),
{
}

/// An export writes to its target and nowhere else, and what it writes is
/// the plaintext the engine gave for the stored body.
pub proof fn law_export_writes_decryption(
    filename: Seq<char>,
    realpath: Seq<char>,
    relative: bool,
    confirm: bool,
    store: StoreView,
    replies: Seq<Reply>,
)
    requires
        DataManager::get_absolute_path_spec(filename, replies, 0) == AskedView::Ready(
            silence(),
            realpath,
        ),
        store.files.contains_key(realpath),
    ensures
        ({
            let at = DataManager::path_replies(filename);
            let step = DataManager::export_spec(
                filename,
                relative,
                confirm,
                StorageView::Open(store),
                replies,
            );
            &&& reply_at(replies, at) is None ==> step == StepView::Ask(
                RequestView::Decrypt { ciphertext: store.files[realpath] },
            )
            &&& step matches StepView::Ask(RequestView::WriteFile { path, content }) ==> Some(path)
                == export_target(filename, relative) && (reply_at(
                replies,
                at,
            ) matches Some(Reply::Plaintext(Ok(bytes))) && bytes@ == content)
        }),
{
}

/// An export into the working directory of a path without final component
/// writes nothing: where the record is stored and decrypted it ends with
/// `IoError`, and before that with whatever any other export would end.
pub proof fn law_export_without_target(
    filename: Seq<char>,
    confirm: bool,
    storage: StorageView,
    replies: Seq<Reply>,
)
    requires
        file_name_of(filename) is None,
    ensures
        ({
            let step = DataManager::export_spec(filename, true, confirm, storage, replies);
            let other = DataManager::export_spec(filename, false, true, storage, replies);
            &&& !(step matches StepView::Ask(RequestView::WriteFile { .. }))
            &&& step == other || (other matches StepView::Ask(RequestView::WriteFile { .. })
                || other matches StepView::Done(_)) && step == StepView::failed(
                silence(),
                DmErrorView::IoError(no_target(filename)),
            )
        }),
{
}

/// The identifier of a file record is canonical: it is the root, or the
/// separator cuts it into one empty piece before the root and then names
/// only, none of them empty, `.` or `..`.
pub proof fn law_record_path_is_canonical(filename: Seq<char>, cwd: Seq<char>)
    ensures
        ({
            let id = record_path(filename, cwd);
            let pieces = split(id, '/');
            id == seq!['/'] || (pieces.len() >= 2 && pieces[0].len() == 0 && forall|k: int|
                1 <= k < pieces.len() ==> is_component(#[trigger] pieces[k]))
        }),
{
    let path = absolute_path(filename, cwd);
    let parts = components(split(path, '/'), split(path, '/').len() as int);
    lemma_canonical_pieces(path);
    if parts.len() > 0 {
        let pieces = split(record_path(filename, cwd), '/');
        assert forall|k: int| 1 <= k < pieces.len() implies is_component(#[trigger] pieces[k]) by {
            assert(pieces[k] == parts[k - 1]);
        }
    }
}

/// An identifier names its own record: taken as a file name, in whatever
/// working directory, it comes to itself.
pub proof fn law_record_path_is_fixed(filename: Seq<char>, cwd: Seq<char>, other: Seq<char>)
    ensures
        record_path(record_path(filename, cwd), other) == record_path(filename, cwd),
{
    let id = record_path(filename, cwd);
    let path = absolute_path(filename, cwd);
    lemma_canonical_pieces(path);
    lemma_canonical_fixed(path);
    let parts = components(split(path, '/'), split(path, '/').len() as int);
    assert(is_absolute_path(id)) by {
        if parts.len() > 0 {
            lemma_rooted_starts_at_root(parts, parts.len() as int);
        }
    }
}

/// A canonical path is a function of the pieces of the path alone.
proof fn lemma_canonical_by_components(p: Seq<char>, q: Seq<char>)
    requires
        components(split(p, '/'), split(p, '/').len() as int) == components(
            split(q, '/'),
            split(q, '/').len() as int,
        ),
    ensures
        canonical_path(p) == canonical_path(q),
{
}

/// An empty piece or a `.` anywhere in a path names nothing: the path
/// with it and the path without it have the same canonical form. So `//`
/// is `/`, and `/./` is `/`.
pub proof fn law_unnamed_piece_changes_nothing(u: Seq<char>, x: Seq<char>, y: Seq<char>)
    requires
        plain(x, '/'),
        !is_named(x),
    ensures
        canonical_path(u + seq!['/'] + x + seq!['/'] + y) == canonical_path(u + seq!['/'] + y),
{
    let a = split(u, '/');
    let b = split(y, '/');
    let with = u + seq!['/'] + x + seq!['/'] + y;
    let without = u + seq!['/'] + y;
    lemma_split_joined(u + seq!['/'] + x, y, '/');
    lemma_split_joined(u, x, '/');
    lemma_split_plain(x, '/');
    lemma_split_joined(u, y, '/');
    assert(split(with, '/') =~= a + (seq![x] + b));
    assert(split(without, '/') == a + b);
    let none = Seq::<Seq<char>>::empty();
    lemma_grown_joined(none, a, seq![x] + b, (1 + b.len()) as int);
    lemma_grown_skips(grown(none, a, a.len() as int), x, b, b.len() as int);
    lemma_grown_joined(none, a, b, b.len() as int);
    lemma_canonical_by_components(with, without);
}

/// A name followed by `..` anywhere in a path leads back to where it
/// started: the path with the two and the path without them have the same
/// canonical form.
pub proof fn law_parent_piece_steps_back(u: Seq<char>, c: Seq<char>, y: Seq<char>)
    requires
        is_component(c),
    ensures
        canonical_path(u + seq!['/'] + c + seq!['/'] + seq!['.', '.'] + seq!['/'] + y)
            == canonical_path(u + seq!['/'] + y),
{
    let up = seq!['.', '.'];
    let a = split(u, '/');
    let b = split(y, '/');
    let with = u + seq!['/'] + c + seq!['/'] + up + seq!['/'] + y;
    let without = u + seq!['/'] + y;
    assert(plain(up, '/'));
    lemma_split_joined(u + seq!['/'] + c + seq!['/'] + up, y, '/');
    lemma_split_joined(u + seq!['/'] + c, up, '/');
    lemma_split_joined(u, c, '/');
    lemma_split_plain(c, '/');
    lemma_split_plain(up, '/');
    lemma_split_joined(u, y, '/');
    assert(split(with, '/') =~= a + (seq![c, up] + b));
    assert(split(without, '/') == a + b);
    let none = Seq::<Seq<char>>::empty();
    lemma_grown_joined(none, a, seq![c, up] + b, (2 + b.len()) as int);
    lemma_grown_steps_back(grown(none, a, a.len() as int), c, b, b.len() as int);
    lemma_grown_joined(none, a, b, b.len() as int);
    lemma_canonical_by_components(with, without);
}

/// A relative path and the same path after `./` name one record, in
/// whatever working directory.
pub proof fn law_dot_spelling_names_the_same_record(filename: Seq<char>, cwd: Seq<char>)
    requires
        !is_absolute_path(filename),
    ensures
        record_path(seq!['.', '/'] + filename, cwd) == record_path(filename, cwd),
{
    let dot = seq!['.'];
    let spelled = seq!['.', '/'] + filename;
    assert(spelled[0] == '.');
    assert(!is_absolute_path(spelled));
    assert(plain(dot, '/'));
    assert(!is_named(dot));
    let none = Seq::<char>::empty();
    if cwd.len() == 0 {
        assert(joined(cwd, spelled) =~= dot + seq!['/'] + filename);
        assert(joined(cwd, filename) =~= filename);
        lemma_split_joined(dot, filename, '/');
        lemma_split_plain(dot, '/');
        let b = split(filename, '/');
        let stack = Seq::<Seq<char>>::empty();
        lemma_grown_skips(stack, dot, b, b.len() as int);
        lemma_canonical_by_components(dot + seq!['/'] + filename, filename);
    } else if cwd.last() == '/' {
        let w = cwd.drop_last();
        assert(cwd =~= w + seq!['/']);
        assert(joined(cwd, spelled) =~= w + seq!['/'] + dot + seq!['/'] + filename);
        assert(joined(cwd, filename) =~= w + seq!['/'] + filename);
        law_unnamed_piece_changes_nothing(w, dot, filename);
    } else {
        assert(joined(cwd, spelled) =~= cwd + seq!['/'] + dot + seq!['/'] + filename);
        assert(joined(cwd, filename) =~= cwd + seq!['/'] + filename);
        law_unnamed_piece_changes_nothing(cwd, dot, filename);
    }
}

} // verus!
