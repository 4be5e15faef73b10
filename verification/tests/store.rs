use dark_matter::commands::{handle_file_command, handle_secrets_command, FileCommands, SecretsCommands};
use dark_matter::exchange::{Output, Step};
use dark_matter::store::{Change, Storage, Store, GPG_KEY_HASH_CONFIG};
use dark_matter::table::Table;
use dark_matter::vault::{DataManager, DB_NAME};

fn names_of(store: &Store, filter: &str) -> Vec<String> {
    store.list_secrets(filter).into_iter().map(|row| row.0).collect()
}

#[test]
fn names_of_storage() {
    assert_eq!(DB_NAME, "dm-vault.db");
    assert_eq!(GPG_KEY_HASH_CONFIG, "gpg_key_hash");
}

#[test]
fn table_keeps_rows_unique_and_ordered() {
    let mut table: Table<u32> = Table::new();
    assert_eq!(table.len(), 0);
    assert!(table.insert("pear".to_string(), 1));
    assert!(table.insert("apple".to_string(), 2));
    assert!(table.insert("zebra".to_string(), 3));
    assert!(table.insert("mango".to_string(), 4));
    assert!(!table.insert("apple".to_string(), 99));
    assert_eq!(table.len(), 4);
    let ids: Vec<String> = (0..table.len()).map(|i| table.row(i).id.clone()).collect();
    assert_eq!(ids, vec!["apple", "mango", "pear", "zebra"]);
    assert_eq!(table.get("apple"), Some(&2));
    assert_eq!(table.get("nope"), None);
    assert!(table.contains("pear"));
    assert!(!table.contains("pea"));

    assert!(table.update("pear", 10));
    assert!(!table.update("plum", 11));
    assert_eq!(table.get("pear"), Some(&10));
    assert_eq!(table.len(), 4);

    assert!(table.remove("mango"));
    assert!(!table.remove("mango"));
    let ids: Vec<String> = (0..table.len()).map(|i| table.row(i).id.clone()).collect();
    assert_eq!(ids, vec!["apple", "pear", "zebra"]);
    assert_eq!(table.row(1).value, 10);
}

#[test]
fn new_store_has_no_rows_and_created_store_has_its_key() {
    let empty = Store::new();
    assert_eq!(empty.bound_key(), None);
    assert!(empty.list_files().is_empty());
    let created = Store::create("0xABCD");
    assert_eq!(created.bound_key(), Some(&"0xABCD".to_string()));
    assert_eq!(created.get_config("other"), None);
    assert!(created.list_files().is_empty());
    assert!(created.list_secrets("").is_empty());
}

#[test]
fn configuration_is_written_once() {
    let mut store = Store::create("FIRST");
    assert!(!store.set_config("gpg_key_hash".to_string(), "SECOND".to_string()));
    assert_eq!(store.bound_key(), Some(&"FIRST".to_string()));
    assert!(store.set_config("other".to_string(), "x".to_string()));
    assert_eq!(store.get_config("other"), Some(&"x".to_string()));
}

#[test]
fn file_records_are_unique_by_path() {
    let mut store = Store::create("K");
    assert!(store.insert_file("/b".to_string(), vec![1]));
    assert!(store.insert_file("/a".to_string(), vec![2]));
    assert!(!store.insert_file("/b".to_string(), vec![3]));
    assert_eq!(store.get_file("/b"), Some(&vec![1]));
    assert!(store.file_exists("/a"));
    assert!(!store.file_exists("/c"));
    assert_eq!(store.list_files(), vec!["/a".to_string(), "/b".to_string()]);

    assert!(store.update_file("/a", vec![9, 9]));
    assert!(!store.update_file("/c", vec![7]));
    assert_eq!(store.get_file("/a"), Some(&vec![9, 9]));
    assert_eq!(store.get_file("/c"), None);

    assert!(store.delete_file("/a"));
    assert!(!store.delete_file("/a"));
    assert_eq!(store.list_files(), vec!["/b".to_string()]);
}

#[test]
fn secret_listing_is_filtered_and_ordered() {
    let mut store = Store::create("K");
    assert!(store.insert_secret("web".to_string(), vec![1], "prod, frontend".to_string()));
    assert!(store.insert_secret("db".to_string(), vec![2], "prod,db".to_string()));
    assert!(store.insert_secret("ci".to_string(), vec![3], "staging".to_string()));
    assert!(store.insert_secret("bare".to_string(), vec![4], "".to_string()));
    assert!(!store.insert_secret("db".to_string(), vec![5], "other".to_string()));
    assert!(store.secret_exists("ci"));
    assert!(!store.secret_exists("CI"));

    assert_eq!(names_of(&store, ""), vec!["bare", "ci", "db", "web"]);
    assert_eq!(names_of(&store, "prod"), vec!["db", "web"]);
    assert_eq!(names_of(&store, "frontend"), vec!["web"]);
    assert_eq!(names_of(&store, "staging,db"), vec!["ci", "db"]);
    assert_eq!(names_of(&store, "none"), Vec::<String>::new());
    assert_eq!(names_of(&store, "x,"), vec!["bare"]);
    assert_eq!(
        store.list_secrets("db"),
        vec![("db".to_string(), "prod,db".to_string())]
    );

    assert!(store.update_secret("db", vec![8], None));
    assert_eq!(store.get_secret("db").unwrap().tags, "prod,db");
    assert_eq!(store.get_secret("db").unwrap().body, vec![8]);
    assert!(store.update_secret("db", vec![9], Some("archive".to_string())));
    assert_eq!(store.get_secret("db").unwrap().tags, "archive");
    assert!(!store.update_secret("gone", vec![1], None));
    assert!(!store.update_secret("gone", vec![1], Some("t".to_string())));
    assert_eq!(names_of(&store, "prod"), vec!["web"]);

    assert!(store.delete_secret("web"));
    assert!(!store.delete_secret("web"));
    assert_eq!(names_of(&store, ""), vec!["bare", "ci", "db"]);
}

#[test]
fn changes_apply_to_one_record() {
    let storage = Storage::Absent;
    let storage = storage.apply(&Change::InsertFile { path: "/a".to_string(), body: vec![1] });
    assert!(matches!(storage, Storage::Absent));
    let storage = storage.apply(&Change::CreateVault { key_hash: "K".to_string() });
    let storage = storage.apply(&Change::CreateVault { key_hash: "OTHER".to_string() });
    let storage = storage.apply(&Change::InsertFile { path: "/a".to_string(), body: vec![1] });
    let storage = storage.apply(&Change::InsertFile { path: "/a".to_string(), body: vec![2] });
    let storage = storage.apply(&Change::UpdateFile { path: "/b".to_string(), body: vec![3] });
    let storage = storage.apply(&Change::InsertSecret {
        name: "s".to_string(),
        body: vec![4],
        tags: "t".to_string(),
    });
    let storage = storage.apply(&Change::UpdateSecret {
        name: "s".to_string(),
        body: vec![5],
        new_tags: None,
    });
    let storage = storage.apply(&Change::DeleteSecret { name: "other".to_string() });
    match &storage {
        Storage::Open(store) => {
            assert_eq!(store.bound_key(), Some(&"K".to_string()));
            assert_eq!(store.list_files(), vec!["/a".to_string()]);
            assert_eq!(store.get_file("/a"), Some(&vec![1]));
            assert_eq!(store.get_secret("s").unwrap().body, vec![5]);
            assert_eq!(store.get_secret("s").unwrap().tags, "t");
        }
        _ => panic!("the vault is not active"),
    }
    let storage = storage.apply(&Change::DeleteFile { path: "/a".to_string() });
    let storage = storage.apply(&Change::UpdateFile { path: "/a".to_string(), body: vec![6] });
    match &storage {
        Storage::Open(store) => assert!(store.list_files().is_empty()),
        _ => panic!("the vault is not active"),
    }
    let unreadable = Storage::Unreadable("bad".to_string())
        .apply(&Change::CreateVault { key_hash: "K".to_string() });
    assert!(matches!(unreadable, Storage::Unreadable(_)));
}

#[test]
fn open_database_gives_the_store_of_an_active_vault() {
    assert!(DataManager::open_database(&Storage::Absent).is_err());
    assert!(DataManager::open_database(&Storage::Unreadable("x".to_string())).is_err());
    let storage = Storage::Open(Store::create("K"));
    let store = DataManager::open_database(&storage).ok().unwrap();
    assert_eq!(DataManager::get_gpg_key_hash(store).ok(), Some("K".to_string()));
    let unbound = Store::new();
    assert_eq!(
        DataManager::get_gpg_key_hash(&unbound).err().unwrap().message(),
        "Database error: Query returned no rows"
    );
}

#[test]
fn handlers_list_what_is_stored() {
    let mut store = Store::create("K");
    store.insert_file("/tmp/b".to_string(), vec![1]);
    store.insert_file("/tmp/a".to_string(), vec![2]);
    store.insert_secret("two".to_string(), vec![3], "x".to_string());
    store.insert_secret("one".to_string(), vec![4], "x, y".to_string());
    let storage = Storage::Open(store);
    let none = Vec::new();
    match handle_file_command(&FileCommands::List, &storage, &none) {
        Step::Done(done) => assert_eq!(
            done.output,
            vec![
                Output::Stdout("List of files in vault:".to_string()),
                Output::Stdout("  /tmp/a".to_string()),
                Output::Stdout("  /tmp/b".to_string()),
            ]
        ),
        other => panic!("unexpected step {:?}", other),
    }
    let action = SecretsCommands::List { tags: "y".to_string() };
    match handle_secrets_command(&action, &storage, &none) {
        Step::Done(done) => assert_eq!(
            done.output,
            vec![
                Output::Stdout("List of secrets in vault:".to_string()),
                Output::Stdout("  one tags: x, y".to_string()),
            ]
        ),
        other => panic!("unexpected step {:?}", other),
    }
}
