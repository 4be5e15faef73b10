use dark_matter::statements::{Statement, Value, SELECT_CONFIG, SELECT_FILES, SELECT_SECRETS};
use dark_matter::store::{Change, Storage, Store};
use rusqlite::types::Value as SqlValue;
use rusqlite::{params_from_iter, Connection};

fn sql_execute(connection: &Connection, statement: Statement) -> rusqlite::Result<usize> {
    let params = statement.params.into_iter().map(|value| match value {
        Value::Text(text) => SqlValue::Text(text),
        Value::Blob(bytes) => SqlValue::Blob(bytes),
    });
    connection.execute(&statement.sql, params_from_iter(params))
}

/// Writes a change to the database; a statement that the database refuses
/// changes nothing.
fn sql_write(connection: &Connection, change: &Change) {
    for statement in change.statements() {
        let _ = sql_execute(connection, statement);
    }
}

fn sql_config(connection: &Connection) -> Vec<(String, String)> {
    let mut query = connection.prepare(&format!("{} ORDER BY key", SELECT_CONFIG)).unwrap();
    let rows = query
        .query_map((), |row| Ok((row.get::<_, String>(0)?, row.get::<_, String>(1)?)))
        .unwrap();
    rows.map(|row| row.unwrap()).collect()
}

fn sql_files(connection: &Connection) -> Vec<(String, Vec<u8>)> {
    let mut query = connection.prepare(SELECT_FILES).unwrap();
    let rows = query
        .query_map((), |row| Ok((row.get::<_, String>(0)?, row.get::<_, Vec<u8>>(1)?)))
        .unwrap();
    rows.map(|row| row.unwrap()).collect()
}

fn sql_secrets(connection: &Connection) -> Vec<(String, Vec<u8>, String)> {
    let mut query = connection.prepare(SELECT_SECRETS).unwrap();
    let rows = query
        .query_map((), |row| {
            Ok((row.get::<_, String>(0)?, row.get::<_, Vec<u8>>(1)?, row.get::<_, String>(2)?))
        })
        .unwrap();
    rows.map(|row| row.unwrap()).collect()
}

fn store_files(store: &Store) -> Vec<(String, Vec<u8>)> {
    store
        .list_files()
        .into_iter()
        .map(|path| {
            let body = store.get_file(&path).unwrap().clone();
            (path, body)
        })
        .collect()
}

fn store_secrets(store: &Store) -> Vec<(String, Vec<u8>, String)> {
    store
        .list_secrets("")
        .into_iter()
        .map(|(name, tags)| {
            let body = store.get_secret(&name).unwrap().body.clone();
            (name, body, tags)
        })
        .collect()
}

fn insert_file(path: &str, body: &[u8]) -> Change {
    Change::InsertFile { path: path.to_string(), body: body.to_vec() }
}

fn insert_secret(name: &str, body: &[u8], tags: &str) -> Change {
    Change::InsertSecret { name: name.to_string(), body: body.to_vec(), tags: tags.to_string() }
}

fn some_changes() -> Vec<Change> {
    vec![
        Change::CreateVault { key_hash: "KEYID".to_string() },
        insert_file("/tmp/b.txt", b"bee"),
        insert_file("/tmp/a.txt", b"ay"),
        insert_file("/tmp/B.txt", b"upper"),
        insert_file("/tmp/a", b"short"),
        insert_file("/tmp/é.txt", b"accent"),
        insert_file("/tmp/z.txt", &[0, 255, 1, 254]),
        insert_file("/tmp/日本.txt", b"wide"),
        insert_file("/tmp/a.txt", b"again"),
        Change::UpdateFile { path: "/tmp/b.txt".to_string(), body: b"bee two".to_vec() },
        Change::UpdateFile { path: "/tmp/none.txt".to_string(), body: b"lost".to_vec() },
        Change::DeleteFile { path: "/tmp/z.txt".to_string() },
        Change::DeleteFile { path: "/tmp/z.txt".to_string() },
        insert_secret("web", b"1", "prod, frontend"),
        insert_secret("db", b"2", "prod,db"),
        insert_secret("Db", b"3", ""),
        insert_secret("db", b"4", "twice"),
        Change::UpdateSecret { name: "db".to_string(), body: b"5".to_vec(), new_tags: None },
        Change::UpdateSecret {
            name: "web".to_string(),
            body: b"6".to_vec(),
            new_tags: Some("archive".to_string()),
        },
        Change::UpdateSecret {
            name: "ghost".to_string(),
            body: b"7".to_vec(),
            new_tags: Some("x".to_string()),
        },
        Change::DeleteSecret { name: "Db".to_string() },
        Change::DeleteSecret { name: "nobody".to_string() },
    ]
}

#[test]
fn the_store_and_the_database_agree_after_every_change() {
    let connection = Connection::open_in_memory().unwrap();
    let mut storage = Storage::Absent;
    for change in some_changes() {
        sql_write(&connection, &change);
        storage = storage.apply(&change);
        let store = match &storage {
            Storage::Open(store) => store,
            _ => panic!("the vault is not active"),
        };
        assert_eq!(
            sql_config(&connection),
            vec![("gpg_key_hash".to_string(), store.bound_key().unwrap().clone())],
            "after {:?}",
            change
        );
        assert_eq!(sql_files(&connection), store_files(store), "after {:?}", change);
        assert_eq!(sql_secrets(&connection), store_secrets(store), "after {:?}", change);
    }
    let store = match &storage {
        Storage::Open(store) => store,
        _ => panic!("the vault is not active"),
    };
    assert_eq!(
        store.list_files(),
        vec!["/tmp/B.txt", "/tmp/a", "/tmp/a.txt", "/tmp/b.txt", "/tmp/é.txt", "/tmp/日本.txt"]
    );
    assert_eq!(store.get_file("/tmp/a.txt"), Some(&b"ay".to_vec()));
    assert_eq!(store.get_file("/tmp/b.txt"), Some(&b"bee two".to_vec()));
    assert_eq!(
        store_secrets(store),
        vec![
            ("db".to_string(), b"5".to_vec(), "prod,db".to_string()),
            ("web".to_string(), b"6".to_vec(), "archive".to_string()),
        ]
    );
}

#[test]
fn a_store_read_from_the_database_is_the_store_that_was_written() {
    let connection = Connection::open_in_memory().unwrap();
    let mut storage = Storage::Absent;
    for change in some_changes() {
        sql_write(&connection, &change);
        storage = storage.apply(&change);
    }
    let mut read = Store::new();
    for (key, value) in sql_config(&connection) {
        assert!(read.set_config(key, value));
    }
    for (path, body) in sql_files(&connection) {
        assert!(read.insert_file(path, body));
    }
    for (name, body, tags) in sql_secrets(&connection) {
        assert!(read.insert_secret(name, body, tags));
    }
    let written = match &storage {
        Storage::Open(store) => store,
        _ => panic!("the vault is not active"),
    };
    assert_eq!(read.bound_key(), written.bound_key());
    assert_eq!(store_files(&read), store_files(written));
    assert_eq!(store_secrets(&read), store_secrets(written));
}

#[test]
fn statements_of_changes() {
    let create = Change::CreateVault { key_hash: "K".to_string() }.statements();
    assert_eq!(create.len(), 4);
    assert!(create[0].sql.starts_with("CREATE TABLE config"));
    assert!(create[1].sql.starts_with("CREATE TABLE secrets"));
    assert!(create[2].sql.starts_with("CREATE TABLE flist"));
    assert!(create[0].params.is_empty());
    assert_eq!(
        create[3],
        Statement {
            sql: "INSERT INTO config (key, value) VALUES (?1, ?2)".to_string(),
            params: vec![Value::Text("gpg_key_hash".to_string()), Value::Text("K".to_string())],
        }
    );
    assert_eq!(
        insert_file("/a", b"x").statements(),
        vec![Statement {
            sql: "INSERT INTO flist (realpath, body) VALUES (?1, ?2)".to_string(),
            params: vec![Value::Text("/a".to_string()), Value::Blob(b"x".to_vec())],
        }]
    );
    assert_eq!(
        Change::UpdateFile { path: "/a".to_string(), body: b"y".to_vec() }.statements(),
        vec![Statement {
            sql: "UPDATE flist SET body = ?1 WHERE realpath = ?2".to_string(),
            params: vec![Value::Blob(b"y".to_vec()), Value::Text("/a".to_string())],
        }]
    );
    assert_eq!(
        Change::DeleteFile { path: "/a".to_string() }.statements(),
        vec![Statement {
            sql: "DELETE FROM flist WHERE realpath = ?1".to_string(),
            params: vec![Value::Text("/a".to_string())],
        }]
    );
    assert_eq!(
        insert_secret("n", b"b", "t").statements(),
        vec![Statement {
            sql: "INSERT INTO secrets (name, body, tags) VALUES (?1, ?2, ?3)".to_string(),
            params: vec![
                Value::Text("n".to_string()),
                Value::Blob(b"b".to_vec()),
                Value::Text("t".to_string()),
            ],
        }]
    );
    assert_eq!(
        Change::UpdateSecret { name: "n".to_string(), body: b"b".to_vec(), new_tags: None }
            .statements(),
        vec![Statement {
            sql: "UPDATE secrets SET body = ?1 WHERE name = ?2".to_string(),
            params: vec![Value::Blob(b"b".to_vec()), Value::Text("n".to_string())],
        }]
    );
    assert_eq!(
        Change::UpdateSecret {
            name: "n".to_string(),
            body: b"b".to_vec(),
            new_tags: Some("t".to_string()),
        }
        .statements(),
        vec![Statement {
            sql: "UPDATE secrets SET body = ?1, tags = ?2 WHERE name = ?3".to_string(),
            params: vec![
                Value::Blob(b"b".to_vec()),
                Value::Text("t".to_string()),
                Value::Text("n".to_string()),
            ],
        }]
    );
    assert_eq!(
        Change::DeleteSecret { name: "n".to_string() }.statements(),
        vec![Statement {
            sql: "DELETE FROM secrets WHERE name = ?1".to_string(),
            params: vec![Value::Text("n".to_string())],
        }]
    );
}
