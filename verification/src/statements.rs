//! The storage file's format: the three tables of the vault, as SQL, and
//! the statement that writes each change.

use crate::store::{Change, ChangeView, GPG_KEY_HASH_CONFIG};
use vstd::prelude::*;
use vstd::string::*;

verus! {

/// Creates the configuration table: one row per key, written once.
pub const CREATE_CONFIG: &'static str = "CREATE TABLE config (
                key TEXT PRIMARY KEY,
                value TEXT NOT NULL
            )";

/// Creates the table of secrets, unique by name.
pub const CREATE_SECRETS: &'static str = "CREATE TABLE secrets (
                id INTEGER PRIMARY KEY AUTOINCREMENT,
                name TEXT NOT NULL UNIQUE,
                body BLOB NOT NULL,
                tags TEXT DEFAULT ''
            )";

/// Creates the table of file records, unique by path.
pub const CREATE_FILES: &'static str = "CREATE TABLE flist (
                id INTEGER PRIMARY KEY AUTOINCREMENT,
                realpath TEXT NOT NULL UNIQUE,
                body BLOB NOT NULL
            )";

/// Reads every configuration row: key, value.
pub const SELECT_CONFIG: &'static str = "SELECT key, value FROM config";

/// Reads every file record: path, body.
pub const SELECT_FILES: &'static str = "SELECT realpath, body FROM flist ORDER BY realpath";

/// Reads every secret: name, body, tags.
pub const SELECT_SECRETS: &'static str = "SELECT name, body, tags FROM secrets ORDER BY name";

/// A value bound to a parameter of a statement.
#[derive(Debug, PartialEq, Eq)]
pub enum Value {
    Text(String),
    Blob(Vec<u8>),
}

/// A bound value, as a mathematical value.
pub enum ValueView {
    Text(Seq<char>),
    Blob(Seq<u8>),
}

impl View for Value {
    type V = ValueView;

    open spec fn view(&self) -> ValueView {
        match self {
            Value::Text(text) => ValueView::Text(text@),
            Value::Blob(bytes) => ValueView::Blob(bytes@),
        }
    }
}

/// The values of a parameter list, as mathematical values.
pub open spec fn bound(params: Seq<Value>) -> Seq<ValueView> {
    Seq::new(params.len(), |i: int| params[i]@)
}

/// One SQL statement with the values of its parameters `?1`, `?2`, ... in
/// that order.
#[derive(Debug, PartialEq, Eq)]
pub struct Statement {
    pub sql: String,
    pub params: Vec<Value>,
}

/// A statement, as a mathematical value.
pub struct StatementView {
    pub sql: Seq<char>,
    pub params: Seq<ValueView>,
}

impl View for Statement {
    type V = StatementView;

    open spec fn view(&self) -> StatementView {
        StatementView { sql: self.sql@, params: bound(self.params@) }
    }
}

/// A list of statements, as mathematical values.
pub open spec fn script(statements: Seq<Statement>) -> Seq<StatementView> {
    Seq::new(statements.len(), |i: int| statements[i]@)
}

/// A text parameter.
pub open spec fn text(value: Seq<char>) -> ValueView {
    ValueView::Text(value)
}

/// A blob parameter.
pub open spec fn blob(value: Seq<u8>) -> ValueView {
    ValueView::Blob(value)
}

/// The statement `sql` without parameters.
pub open spec fn plain(sql: Seq<char>) -> StatementView {
    StatementView { sql, params: Seq::empty() }
}

impl StatementView {
    /// This statement with one more parameter.
    pub open spec fn with(self, value: ValueView) -> StatementView {
        StatementView { sql: self.sql, params: self.params.push(value) }
    }
}

impl Statement {
    /// The statement `sql`, still without parameters.
    pub fn new(sql: &str) -> (r: Statement)
        ensures
            r@ == plain(sql@),
    {
        let r = Statement { sql: String::from_str(sql), params: Vec::new() };
        assert(bound(r.params@) =~= Seq::empty());
        r
    }

    /// Binds a text to the next parameter.
    pub fn with_text(self, value: &str) -> (r: Statement)
        ensures
            r@ == self@.with(text(value@)),
    {
        let Statement { sql, params } = self;
        let mut params = params;
        let ghost before = bound(params@);
        params.push(Value::Text(String::from_str(value)));
        assert(bound(params@) =~= before.push(text(value@)));
        Statement { sql, params }
    }

    /// Binds a blob to the next parameter.
    pub fn with_blob(self, value: &Vec<u8>) -> (r: Statement)
        ensures
            r@ == self@.with(blob(value@)),
    {
        let Statement { sql, params } = self;
        let mut params = params;
        let ghost before = bound(params@);
        params.push(Value::Blob(value.clone()));
        assert(bound(params@) =~= before.push(blob(value@)));
        Statement { sql, params }
    }
}

impl ChangeView {
    /// The statements that write this change, in order. The creation of a
    /// vault makes the three tables and writes the configuration row; any
    /// other change is a single statement on a single row.
    pub open spec fn statements(self) -> Seq<StatementView> {
        match self {
            ChangeView::CreateVault { key_hash } => Seq::empty().push(plain(CREATE_CONFIG@)).push(
                plain(CREATE_SECRETS@),
            ).push(plain(CREATE_FILES@)).push(
                plain("INSERT INTO config (key, value) VALUES (?1, ?2)"@).with(
                    text(GPG_KEY_HASH_CONFIG@),
                ).with(text(key_hash)),
            ),
            ChangeView::InsertFile { path, body } => Seq::empty().push(
                plain("INSERT INTO flist (realpath, body) VALUES (?1, ?2)"@).with(text(path)).with(
                    blob(body),
                ),
            ),
            ChangeView::UpdateFile { path, body } => Seq::empty().push(
                plain("UPDATE flist SET body = ?1 WHERE realpath = ?2"@).with(blob(body)).with(
                    text(path),
                ),
            ),
            ChangeView::DeleteFile { path } => Seq::empty().push(
                plain("DELETE FROM flist WHERE realpath = ?1"@).with(text(path)),
            ),
            ChangeView::InsertSecret { name, body, tags } => Seq::empty().push(
                plain("INSERT INTO secrets (name, body, tags) VALUES (?1, ?2, ?3)"@).with(
                    text(name),
                ).with(blob(body)).with(text(tags)),
            ),
            ChangeView::UpdateSecret { name, body, new_tags } => match new_tags {
                Some(tags) => Seq::empty().push(
                    plain("UPDATE secrets SET body = ?1, tags = ?2 WHERE name = ?3"@).with(
                        blob(body),
                    ).with(text(tags)).with(text(name)),
                ),
                None => Seq::empty().push(
                    plain("UPDATE secrets SET body = ?1 WHERE name = ?2"@).with(blob(body)).with(
                        text(name),
                    ),
                ),
            },
            ChangeView::DeleteSecret { name } => Seq::empty().push(
                plain("DELETE FROM secrets WHERE name = ?1"@).with(text(name)),
            ),
        }
    }
}

fn alone(statement: Statement) -> (r: Vec<Statement>)
    ensures
        script(r@) == Seq::<StatementView>::empty().push(statement@),
{
    let mut r: Vec<Statement> = Vec::new();
    r.push(statement);
    assert(script(r@) =~= Seq::<StatementView>::empty().push(statement@));
    r
}

fn then(statements: &mut Vec<Statement>, statement: Statement)
    ensures
        script(final(statements)@) == script(old(statements)@).push(statement@),
{
    let ghost added = statement@;
    statements.push(statement);
    assert(script(statements@) =~= script(old(statements)@).push(added));
}

impl Change {
    /// The statements that write this change to the storage file.
    pub fn statements(&self) -> (r: Vec<Statement>)
        ensures
            script(r@) == self@.statements(),
    {
        match self {
            Change::CreateVault { key_hash } => {
                let mut r = alone(Statement::new(CREATE_CONFIG));
                then(&mut r, Statement::new(CREATE_SECRETS));
                then(&mut r, Statement::new(CREATE_FILES));
                then(
                    &mut r,
                    Statement::new("INSERT INTO config (key, value) VALUES (?1, ?2)").with_text(
                        GPG_KEY_HASH_CONFIG,
                    ).with_text(key_hash.as_str()),
                );
                r
            },
            Change::InsertFile { path, body } => alone(
                Statement::new("INSERT INTO flist (realpath, body) VALUES (?1, ?2)").with_text(
                    path.as_str(),
                ).with_blob(body),
            ),
            Change::UpdateFile { path, body } => alone(
                Statement::new("UPDATE flist SET body = ?1 WHERE realpath = ?2").with_blob(
                    body,
                ).with_text(path.as_str()),
            ),
            Change::DeleteFile { path } => alone(
                Statement::new("DELETE FROM flist WHERE realpath = ?1").with_text(path.as_str()),
            ),
            Change::InsertSecret { name, body, tags } => alone(
                Statement::new(
                    "INSERT INTO secrets (name, body, tags) VALUES (?1, ?2, ?3)",
                ).with_text(name.as_str()).with_blob(body).with_text(tags.as_str()),
            ),
            Change::UpdateSecret { name, body, new_tags } => match new_tags {
                Some(tags) => alone(
                    Statement::new(
                        "UPDATE secrets SET body = ?1, tags = ?2 WHERE name = ?3",
                    ).with_blob(body).with_text(tags.as_str()).with_text(name.as_str()),
                ),
                None => alone(
                    Statement::new("UPDATE secrets SET body = ?1 WHERE name = ?2").with_blob(
                        body,
                    ).with_text(name.as_str()),
                ),
            },
            Change::DeleteSecret { name } => alone(
                Statement::new("DELETE FROM secrets WHERE name = ?1").with_text(name.as_str()),
            ),
        }
    }
}

} // verus!
