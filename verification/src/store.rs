//! The record store: the configuration row that binds the vault to its key,
//! the file records and the secret records, and the single-record changes
//! that an operation can make to them.

use crate::table::{is_listing_of, sorted_listing, Table};
use crate::tags::{accepts, filter_accepts};
use vstd::prelude::*;
use vstd::string::*;

verus! {

/// The configuration key under which the bound key identifier is kept.
pub const GPG_KEY_HASH_CONFIG: &'static str = "gpg_key_hash";

/// What is stored of a secret: its encrypted body and its tag list.
pub struct Secret {
    pub body: Vec<u8>,
    pub tags: String,
}

/// The three tables of a vault.
pub struct Store {
    config: Table<String>,
    files: Table<Vec<u8>>,
    secrets: Table<Secret>,
}

/// A store as a mathematical value: each table a map from identifier to
/// what is stored under it (for a secret: body, then tags).
pub struct StoreView {
    pub config: Map<Seq<char>, Seq<char>>,
    pub files: Map<Seq<char>, Seq<u8>>,
    pub secrets: Map<Seq<char>, (Seq<u8>, Seq<char>)>,
}

/// A change to one record of the store, or the creation of the store.
#[derive(Debug, PartialEq, Eq)]
pub enum Change {
    /// Create the schema and write the configuration row.
    CreateVault { key_hash: String },
    InsertFile { path: String, body: Vec<u8> },
    UpdateFile { path: String, body: Vec<u8> },
    DeleteFile { path: String },
    InsertSecret { name: String, body: Vec<u8>, tags: String },
    /// Replace the body of a secret and, where `new_tags` is given, its tags.
    UpdateSecret { name: String, body: Vec<u8>, new_tags: Option<String> },
    DeleteSecret { name: String },
}

/// A change, as a mathematical value.
pub enum ChangeView {
    CreateVault { key_hash: Seq<char> },
    InsertFile { path: Seq<char>, body: Seq<u8> },
    UpdateFile { path: Seq<char>, body: Seq<u8> },
    DeleteFile { path: Seq<char> },
    InsertSecret { name: Seq<char>, body: Seq<u8>, tags: Seq<char> },
    UpdateSecret { name: Seq<char>, body: Seq<u8>, new_tags: Option<Seq<char>> },
    DeleteSecret { name: Seq<char> },
}

impl View for Change {
    type V = ChangeView;

    open spec fn view(&self) -> ChangeView {
        match self {
            Change::CreateVault { key_hash } => ChangeView::CreateVault { key_hash: key_hash@ },
            Change::InsertFile { path, body } => ChangeView::InsertFile {
                path: path@,
                body: body@,
            },
            Change::UpdateFile { path, body } => ChangeView::UpdateFile {
                path: path@,
                body: body@,
            },
            Change::DeleteFile { path } => ChangeView::DeleteFile { path: path@ },
            Change::InsertSecret { name, body, tags } => ChangeView::InsertSecret {
                name: name@,
                body: body@,
                tags: tags@,
            },
            Change::UpdateSecret { name, body, new_tags } => ChangeView::UpdateSecret {
                name: name@,
                body: body@,
                new_tags: match new_tags {
                    Some(t) => Some(t@),
                    None => None,
                },
            },
            Change::DeleteSecret { name } => ChangeView::DeleteSecret { name: name@ },
        }
    }
}

/// The secrets among `names` that a listing filtered by `filter` shows, in
/// the order of `names`, each with its tags.
pub open spec fn select_secrets(
    names: Seq<Seq<char>>,
    secrets: Map<Seq<char>, (Seq<u8>, Seq<char>)>,
    filter: Seq<char>,
) -> Seq<(Seq<char>, Seq<char>)>
    decreases names.len(),
{
    if names.len() == 0 {
        Seq::empty()
    } else {
        let rest = select_secrets(names.drop_last(), secrets, filter);
        let name = names.last();
        if filter_accepts(filter, secrets[name].1) {
            rest.push((name, secrets[name].1))
        } else {
            rest
        }
    }
}

impl StoreView {
    /// A store without any row.
    pub open spec fn empty() -> StoreView {
        StoreView { config: Map::empty(), files: Map::empty(), secrets: Map::empty() }
    }

    /// The store of a vault that has just been bound to `key_hash`.
    pub open spec fn created(key_hash: Seq<char>) -> StoreView {
        StoreView {
            config: Map::empty().insert(GPG_KEY_HASH_CONFIG@, key_hash),
            files: Map::empty(),
            secrets: Map::empty(),
        }
    }

    /// The key the vault is bound to, where the configuration row exists.
    pub open spec fn bound_key(self) -> Option<Seq<char>> {
        if self.config.contains_key(GPG_KEY_HASH_CONFIG@) {
            Some(self.config[GPG_KEY_HASH_CONFIG@])
        } else {
            None
        }
    }

    /// The file identifiers, in listing order.
    pub open spec fn file_listing(self) -> Seq<Seq<char>> {
        sorted_listing(self.files.dom())
    }

    /// The secrets that a listing filtered by `filter` shows, in listing
    /// order, each with its tags.
    pub open spec fn secret_listing(self, filter: Seq<char>) -> Seq<(Seq<char>, Seq<char>)> {
        select_secrets(sorted_listing(self.secrets.dom()), self.secrets, filter)
    }

    /// The store after a change. A change that does not fit the store (an
    /// insert of an identifier that exists, an update of one that does not)
    /// leaves it as it is, and so does the creation of a store that exists.
    pub open spec fn apply(self, change: ChangeView) -> StoreView {
        match change {
            ChangeView::CreateVault { key_hash } => self,
            ChangeView::InsertFile { path, body } => if self.files.contains_key(path) {
                self
            } else {
                StoreView { files: self.files.insert(path, body), ..self }
            },
            ChangeView::UpdateFile { path, body } => if self.files.contains_key(path) {
                StoreView { files: self.files.insert(path, body), ..self }
            } else {
                self
            },
            ChangeView::DeleteFile { path } => StoreView { files: self.files.remove(path), ..self },
            ChangeView::InsertSecret { name, body, tags } => if self.secrets.contains_key(name) {
                self
            } else {
                StoreView { secrets: self.secrets.insert(name, (body, tags)), ..self }
            },
            ChangeView::UpdateSecret { name, body, new_tags } => if self.secrets.contains_key(name) {
                let kept = match new_tags {
                    Some(t) => t,
                    None => self.secrets[name].1,
                };
                StoreView { secrets: self.secrets.insert(name, (body, kept)), ..self }
            } else {
                self
            },
            ChangeView::DeleteSecret { name } => StoreView {
                secrets: self.secrets.remove(name),
                ..self
            },
        }
    }
}

impl Store {
    /// The store's invariant: that of its three tables.
    pub closed spec fn wf(&self) -> bool {
        self.config.wf() && self.files.wf() && self.secrets.wf()
    }

    /// The store as a mathematical value.
    pub closed spec fn view(&self) -> StoreView {
        StoreView {
            config: Map::new(
                |k: Seq<char>| self.config@.contains_key(k),
                |k: Seq<char>| self.config@[k]@,
            ),
            files: Map::new(
                |k: Seq<char>| self.files@.contains_key(k),
                |k: Seq<char>| self.files@[k]@,
            ),
            secrets: Map::new(
                |k: Seq<char>| self.secrets@.contains_key(k),
                |k: Seq<char>| (self.secrets@[k].body@, self.secrets@[k].tags@),
            ),
        }
    }

    /// In a valid store the listings are what their name says: each lists
    /// exactly the identifiers of its table, in strictly ascending order.
    pub proof fn lemma_listings(&self)
        requires
            self.wf(),
        ensures
            is_listing_of(self@.file_listing(), self@.files.dom()),
            is_listing_of(sorted_listing(self@.secrets.dom()), self@.secrets.dom()),
    {
        self.files.lemma_ids_are_listing();
        assert(self.files@.dom() =~= self@.files.dom());
        self.secrets.lemma_ids_are_listing();
        assert(self.secrets@.dom() =~= self@.secrets.dom());
    }

    /// A store without any row.
    pub fn new() -> (s: Store)
        ensures
            s.wf(),
            s@ == StoreView::empty(),
    {
        let s = Store { config: Table::new(), files: Table::new(), secrets: Table::new() };
        assert(s@.config =~= Map::empty());
        assert(s@.files =~= Map::empty());
        assert(s@.secrets =~= Map::empty());
        s
    }

    /// The store of a new vault: the schema, and the one configuration row
    /// that binds the vault to `key_hash`.
    pub fn create(key_hash: &str) -> (s: Store)
        ensures
            s.wf(),
            s@ == StoreView::created(key_hash@),
    {
        let mut s = Store::new();
        s.set_config(String::from_str(GPG_KEY_HASH_CONFIG), String::from_str(key_hash));
        s
    }

    /// Writes a configuration row. Rows are written once: where the key has
    /// a value already, nothing is changed and the result is `false`.
    pub fn set_config(&mut self, key: String, value: String) -> (written: bool)
        requires
            old(self).wf(),
        ensures
            final(self).wf(),
            written == !old(self)@.config.contains_key(key@),
            written ==> final(self)@ == (StoreView {
                config: old(self)@.config.insert(key@, value@),
                ..old(self)@
            }),
            !written ==> final(self)@ == old(self)@,
    {
        let ghost before = *self;
        let ghost k = key@;
        let ghost v = value@;
        let written = self.config.insert(key, value);
        proof {
            if written {
                assert(self@.config =~= before@.config.insert(k, v));
            } else {
                assert(self@.config =~= before@.config);
            }
        }
        written
    }

    /// The value of a configuration row, if the row exists.
    pub fn get_config(&self, key: &str) -> (r: Option<&String>)
        requires
            self.wf(),
        ensures
            r is Some == self@.config.contains_key(key@),
            r matches Some(v) ==> v@ == self@.config[key@],
    {
        self.config.get(key)
    }

    /// The key this vault is bound to, read from the configuration.
    pub fn bound_key(&self) -> (r: Option<&String>)
        requires
            self.wf(),
        ensures
            r is Some == self@.bound_key() is Some,
            r matches Some(v) ==> Some(v@) == self@.bound_key(),
    {
        self.get_config(GPG_KEY_HASH_CONFIG)
    }

    /// Whether a file record with this path exists.
    pub fn file_exists(&self, path: &str) -> (b: bool)
        requires
            self.wf(),
        ensures
            b == self@.files.contains_key(path@),
    {
        self.files.contains(path)
    }

    /// The encrypted body of a file record, if the record exists.
    pub fn get_file(&self, path: &str) -> (r: Option<&Vec<u8>>)
        requires
            self.wf(),
        ensures
            r is Some == self@.files.contains_key(path@),
            r matches Some(body) ==> body@ == self@.files[path@],
    {
        self.files.get(path)
    }

    /// Adds a file record. Where the path is already stored, nothing is
    /// changed and the result is `false`.
    pub fn insert_file(&mut self, path: String, body: Vec<u8>) -> (inserted: bool)
        requires
            old(self).wf(),
        ensures
            final(self).wf(),
            inserted == !old(self)@.files.contains_key(path@),
            final(self)@ == old(self)@.apply(ChangeView::InsertFile { path: path@, body: body@ }),
    {
        let ghost before = *self;
        let ghost k = path@;
        let ghost v = body@;
        let inserted = self.files.insert(path, body);
        proof {
            if inserted {
                assert(self@.files =~= before@.files.insert(k, v));
            } else {
                assert(self@.files =~= before@.files);
            }
        }
        inserted
    }

    /// Replaces the body of a file record. Where the path is not stored,
    /// nothing is changed and the result is `false`.
    pub fn update_file(&mut self, path: &str, body: Vec<u8>) -> (updated: bool)
        requires
            old(self).wf(),
        ensures
            final(self).wf(),
            updated == old(self)@.files.contains_key(path@),
            final(self)@ == old(self)@.apply(ChangeView::UpdateFile { path: path@, body: body@ }),
    {
        let ghost before = *self;
        let ghost v = body@;
        let updated = self.files.update(path, body);
        proof {
            if updated {
                assert(self@.files =~= before@.files.insert(path@, v));
            } else {
                assert(self@.files =~= before@.files);
            }
        }
        updated
    }

    /// Deletes a file record and says whether there was one. Where there
    /// was none, nothing is changed.
    pub fn delete_file(&mut self, path: &str) -> (deleted: bool)
        requires
            old(self).wf(),
        ensures
            final(self).wf(),
            deleted == old(self)@.files.contains_key(path@),
            final(self)@ == old(self)@.apply(ChangeView::DeleteFile { path: path@ }),
            !deleted ==> final(self)@ == old(self)@,
    {
        let ghost before = *self;
        let deleted = self.files.remove(path);
        proof {
            assert(self@.files =~= before@.files.remove(path@));
            if !deleted {
                assert(before@.files.remove(path@) =~= before@.files);
            }
        }
        deleted
    }

    /// The paths of all file records, in ascending lexicographic order.
    pub fn list_files(&self) -> (r: Vec<String>)
        requires
            self.wf(),
        ensures
            r@.len() == self@.file_listing().len(),
            forall|i: int| 0 <= i < r@.len() ==> (#[trigger] r@[i])@ == self@.file_listing()[i],
            is_listing_of(self@.file_listing(), self@.files.dom()),
    {
        proof {
            self.files.lemma_ids_are_listing();
            assert(self.files@.dom() =~= self@.files.dom());
        }
        let mut r: Vec<String> = Vec::new();
        let mut i: usize = 0;
        while i < self.files.len()
            invariant
                self.wf(),
                i <= self.files.entries().len(),
                self.files.ids() == self@.file_listing(),
                r@.len() == i,
                forall|k: int| 0 <= k < i ==> (#[trigger] r@[k])@ == self@.file_listing()[k],
            decreases self.files.entries().len() - i,
        {
            let row = self.files.row(i);
            r.push(row.id.clone());
            i += 1;
        }
        r
    }

    /// Whether a secret with this name exists.
    pub fn secret_exists(&self, name: &str) -> (b: bool)
        requires
            self.wf(),
        ensures
            b == self@.secrets.contains_key(name@),
    {
        self.secrets.contains(name)
    }

    /// The stored secret of this name, if it exists.
    pub fn get_secret(&self, name: &str) -> (r: Option<&Secret>)
        requires
            self.wf(),
        ensures
            r is Some == self@.secrets.contains_key(name@),
            r matches Some(s) ==> (s.body@, s.tags@) == self@.secrets[name@],
    {
        self.secrets.get(name)
    }

    /// Adds a secret. Where the name is already stored, nothing is changed
    /// and the result is `false`.
    pub fn insert_secret(&mut self, name: String, body: Vec<u8>, tags: String) -> (inserted: bool)
        requires
            old(self).wf(),
        ensures
            final(self).wf(),
            inserted == !old(self)@.secrets.contains_key(name@),
            final(self)@ == old(self)@.apply(
                ChangeView::InsertSecret { name: name@, body: body@, tags: tags@ },
            ),
    {
        let ghost before = *self;
        let ghost k = name@;
        let ghost v = (body@, tags@);
        let inserted = self.secrets.insert(name, Secret { body, tags });
        proof {
            if inserted {
                assert(self@.secrets =~= before@.secrets.insert(k, v));
            } else {
                assert(self@.secrets =~= before@.secrets);
            }
        }
        inserted
    }

    /// Replaces the body of a secret and, where `tags` is given, its tags.
    /// Where the name is not stored, nothing is changed and the result is
    /// `false`.
    pub fn update_secret(&mut self, name: &str, body: Vec<u8>, tags: Option<String>) -> (updated:
        bool)
        requires
            old(self).wf(),
        ensures
            final(self).wf(),
            updated == old(self)@.secrets.contains_key(name@),
            final(self)@ == old(self)@.apply(
                ChangeView::UpdateSecret {
                    name: name@,
                    body: body@,
                    new_tags: match tags {
                        Some(t) => Some(t@),
                        None => None,
                    },
                },
            ),
    {
        let ghost before = *self;
        let ghost b = body@;
        let kept = match tags {
            Some(t) => Some(t),
            None => match self.secrets.get(name) {
                Some(s) => Some(s.tags.clone()),
                None => None,
            },
        };
        match kept {
            Some(t) => {
                let ghost v = (b, t@);
                let updated = self.secrets.update(name, Secret { body, tags: t });
                proof {
                    if updated {
                        assert(self@.secrets =~= before@.secrets.insert(name@, v));
                    } else {
                        assert(self@.secrets =~= before@.secrets);
                    }
                }
                updated
            },
            None => false,
        }
    }

    /// Deletes a secret and says whether there was one. Where there was
    /// none, nothing is changed.
    pub fn delete_secret(&mut self, name: &str) -> (deleted: bool)
        requires
            old(self).wf(),
        ensures
            final(self).wf(),
            deleted == old(self)@.secrets.contains_key(name@),
            final(self)@ == old(self)@.apply(ChangeView::DeleteSecret { name: name@ }),
            !deleted ==> final(self)@ == old(self)@,
    {
        let ghost before = *self;
        let deleted = self.secrets.remove(name);
        proof {
            assert(self@.secrets =~= before@.secrets.remove(name@));
            if !deleted {
                assert(before@.secrets.remove(name@) =~= before@.secrets);
            }
        }
        deleted
    }

    /// The secrets that a listing filtered by `filter` shows: name and tags
    /// of each, by ascending name. An empty filter shows every secret, any
    /// other one the secrets that share a tag with it.
    pub fn list_secrets(&self, filter: &str) -> (r: Vec<(String, String)>)
        requires
            self.wf(),
        ensures
            r@.len() == self@.secret_listing(filter@).len(),
            forall|i: int|
                0 <= i < r@.len() ==> (#[trigger] r@[i]).0@ == self@.secret_listing(filter@)[i].0
                    && r@[i].1@ == self@.secret_listing(filter@)[i].1,
            is_listing_of(sorted_listing(self@.secrets.dom()), self@.secrets.dom()),
    {
        proof {
            self.secrets.lemma_ids_are_listing();
            assert(self.secrets@.dom() =~= self@.secrets.dom());
        }
        let ghost names = sorted_listing(self@.secrets.dom());
        let mut r: Vec<(String, String)> = Vec::new();
        let mut i: usize = 0;
        assert(names.subrange(0, 0) =~= Seq::empty());
        while i < self.secrets.len()
            invariant
                self.wf(),
                i <= self.secrets.entries().len(),
                names == sorted_listing(self@.secrets.dom()),
                self.secrets.ids() == names,
                r@.len() == select_secrets(names.subrange(0, i as int), self@.secrets, filter@).len(),
                forall|k: int|
                    0 <= k < r@.len() ==> (#[trigger] r@[k]).0@ == select_secrets(
                        names.subrange(0, i as int),
                        self@.secrets,
                        filter@,
                    )[k].0 && r@[k].1@ == select_secrets(
                        names.subrange(0, i as int),
                        self@.secrets,
                        filter@,
                    )[k].1,
            decreases self.secrets.entries().len() - i,
        {
            let row = self.secrets.row(i);
            proof {
                self.secrets.lemma_entry(i as int);
                assert(names.subrange(0, i + 1).drop_last() =~= names.subrange(0, i as int));
                assert(names.subrange(0, i + 1).last() == names[i as int]);
                assert(names[i as int] == row.id@);
                assert(self@.secrets[row.id@].1 == row.value.tags@);
            }
            if accepts(filter, row.value.tags.as_str()) {
                r.push((row.id.clone(), row.value.tags.clone()));
            }
            i += 1;
        }
        assert(names.subrange(0, i as int) =~= names);
        r
    }

    /// Carries out a change to one record.
    pub fn apply(&mut self, change: &Change)
        requires
            old(self).wf(),
        ensures
            final(self).wf(),
            final(self)@ == old(self)@.apply(change@),
    {
        match change {
            Change::CreateVault { key_hash } => {},
            Change::InsertFile { path, body } => {
                self.insert_file(path.clone(), body.clone());
            },
            Change::UpdateFile { path, body } => {
                self.update_file(path.as_str(), body.clone());
            },
            Change::DeleteFile { path } => {
                self.delete_file(path.as_str());
            },
            Change::InsertSecret { name, body, tags } => {
                self.insert_secret(name.clone(), body.clone(), tags.clone());
            },
            Change::UpdateSecret { name, body, new_tags } => {
                let t = match new_tags {
                    Some(t) => Some(t.clone()),
                    None => None,
                };
                self.update_secret(name.as_str(), body.clone(), t);
            },
            Change::DeleteSecret { name } => {
                self.delete_secret(name.as_str());
            },
        }
    }
}

/// What an operation finds where the vault's storage file should be.
pub enum Storage {
    /// No storage file: the vault is not initialized.
    Absent,
    /// A storage file that could not be opened or read, with the cause.
    Unreadable(String),
    /// The store of an active vault.
    Open(Store),
}

/// A storage state, as a mathematical value.
pub enum StorageView {
    Absent,
    Unreadable(Seq<char>),
    Open(StoreView),
}

impl StorageView {
    /// The storage after a change was written to it. Only the creation of
    /// a vault changes absent storage, and only an open store takes the
    /// other changes.
    pub open spec fn apply(self, change: ChangeView) -> StorageView {
        match (self, change) {
            (StorageView::Absent, ChangeView::CreateVault { key_hash }) => StorageView::Open(
                StoreView::created(key_hash),
            ),
            (StorageView::Open(store), _) => StorageView::Open(store.apply(change)),
            _ => self,
        }
    }
}

impl Storage {
    /// The invariant of the store, where there is one.
    pub open spec fn wf(&self) -> bool {
        self matches Storage::Open(store) ==> store.wf()
    }

    /// The storage state as a mathematical value.
    pub open spec fn view(&self) -> StorageView {
        match self {
            Storage::Absent => StorageView::Absent,
            Storage::Unreadable(cause) => StorageView::Unreadable(cause@),
            Storage::Open(store) => StorageView::Open(store@),
        }
    }

    /// The storage after `change` was written to it.
    pub fn apply(self, change: &Change) -> (r: Storage)
        requires
            self.wf(),
        ensures
            r.wf(),
            r@ == self@.apply(change@),
    {
        match self {
            Storage::Absent => match change {
                Change::CreateVault { key_hash } => Storage::Open(Store::create(key_hash.as_str())),
                _ => Storage::Absent,
            },
            Storage::Unreadable(cause) => Storage::Unreadable(cause),
            Storage::Open(store) => {
                let mut store = store;
                store.apply(change);
                Storage::Open(store)
            },
        }
    }
}

} // verus!
