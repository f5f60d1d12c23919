//! The credential store: encrypted records kept in one table of an SQLite
//! database, in the order in which they were added.
//!
//! SQLite does the storing. What the database holds is spoken of through the
//! names declared below, which stand for the database as this connection sees
//! it. Every statement names the table in the main schema and is run on its
//! own, outside any transaction: a connection that is inside one is refused.
//! What the contracts say of the rows, they say for a connection that has the
//! table as [`init_db`] checks it.
//!
//! Two conditions stand in no contract: that the rows of the table hold text,
//! as this module writes them, and that no one else writes to the database
//! while the connection is open.

use vstd::prelude::*;
use rusqlite::{Connection, Rows, Statement};
use crate::error::VaultError;

verus! {

/// Creates the table of credentials unless it is there already.
pub const CREATE_TABLE_SQL: &'static str =
    "CREATE TABLE IF NOT EXISTS main.credentials (\n            id          INTEGER PRIMARY KEY AUTOINCREMENT,\n            label       TEXT NOT NULL,\n            username    TEXT NOT NULL,\n            nonce       TEXT NOT NULL,\n            ciphertext  TEXT NOT NULL,\n            notes       TEXT\n        )";

/// The declaration that SQLite keeps of a table made by [`CREATE_TABLE_SQL`].
pub const TABLE_DECLARATION: &'static str =
    "CREATE TABLE credentials (\n            id          INTEGER PRIMARY KEY AUTOINCREMENT,\n            label       TEXT NOT NULL,\n            username    TEXT NOT NULL,\n            nonce       TEXT NOT NULL,\n            ciphertext  TEXT NOT NULL,\n            notes       TEXT\n        )";

/// Reads what the schemas attach to the table's name, whatever its case:
/// entries of the temporary schema first, then indexes and triggers of the
/// main schema, then the table itself. An entry of the main schema is read as
/// the text that declares it; an entry of the temporary schema, or one without
/// text, is read as the empty text.
pub const DECLARATION_SQL: &'static str =
    "SELECT coalesce(CASE place WHEN 1 THEN sql END, '') FROM (SELECT 0 AS place, type, name, tbl_name, sql FROM sqlite_temp_master UNION ALL SELECT 1 AS place, type, name, tbl_name, sql FROM main.sqlite_master) WHERE tbl_name = 'credentials' COLLATE NOCASE ORDER BY place, (type = 'table'), name";

/// Adds one row; SQLite assigns the id.
pub const INSERT_SQL: &'static str =
    "INSERT INTO main.credentials (label, username, nonce, ciphertext, notes) VALUES (?1, ?2, ?3, ?4, ?5)";

/// Removes every row that carries a label.
pub const DELETE_SQL: &'static str = "DELETE FROM main.credentials WHERE label = ?1";

/// Reads every row, oldest first.
pub const SELECT_ALL_SQL: &'static str =
    "SELECT id, label, username, nonce, ciphertext, notes FROM main.credentials ORDER BY id";

/// Reads the oldest row that carries a label.
pub const SELECT_BY_LABEL_SQL: &'static str =
    "SELECT id, label, username, nonce, ciphertext, notes FROM main.credentials WHERE label = ?1 ORDER BY id LIMIT 1";

/// An encrypted credential as callers exchange it.
#[derive(Clone, Debug, PartialEq, Eq)]
pub struct CredentialRecord {
    pub label: String,
    pub username: String,
    /// The nonce, as base64 text.
    pub nonce: String,
    /// The sealed password, as base64 text.
    pub ciphertext: String,
    pub notes: Option<String>,
}

/// An encrypted credential as the store holds it: a record under the id that
/// the store gave it.
#[derive(Clone, Debug, PartialEq, Eq)]
pub struct Credential {
    pub id: i32,
    pub label: String,
    pub username: String,
    /// The nonce, as base64 text.
    pub nonce: String,
    /// The sealed password, as base64 text.
    pub ciphertext: String,
    pub notes: Option<String>,
}

/// The mathematical content of a record.
pub struct RecordView {
    pub label: Seq<char>,
    pub username: Seq<char>,
    pub nonce: Seq<char>,
    pub ciphertext: Seq<char>,
    pub notes: Option<Seq<char>>,
}

/// The mathematical content of a stored row.
pub struct StoredRow {
    pub id: int,
    pub record: RecordView,
}

/// The view of an optional text.
pub open spec fn notes_view(notes: Option<String>) -> Option<Seq<char>> {
    match notes {
        Some(text) => Some(text@),
        None => None,
    }
}

/// The view of an optional text that is borrowed.
pub open spec fn borrowed_notes_view(notes: Option<&str>) -> Option<Seq<char>> {
    match notes {
        Some(text) => Some(text@),
        None => None,
    }
}

impl View for CredentialRecord {
    type V = RecordView;

    open spec fn view(&self) -> RecordView {
        RecordView {
            label: self.label@,
            username: self.username@,
            nonce: self.nonce@,
            ciphertext: self.ciphertext@,
            notes: notes_view(self.notes),
        }
    }
}

impl View for Credential {
    type V = StoredRow;

    open spec fn view(&self) -> StoredRow {
        StoredRow {
            id: self.id as int,
            record: RecordView {
                label: self.label@,
                username: self.username@,
                nonce: self.nonce@,
                ciphertext: self.ciphertext@,
                notes: notes_view(self.notes),
            },
        }
    }
}

#[verifier::external_type_specification]
#[verifier::external_body]
pub struct ExConnection(rusqlite::Connection);

#[verifier::external_type_specification]
#[verifier::external_body]
pub struct ExSqliteError(rusqlite::Error);

#[verifier::external_type_specification]
#[verifier::external_body]
pub struct ExStatement<'conn>(rusqlite::Statement<'conn>);

#[verifier::external_type_specification]
#[verifier::external_body]
pub struct ExRows<'stmt>(rusqlite::Rows<'stmt>);

/// The rows of the table of credentials in the main schema of a connection's
/// database, in the order of their ids, which is the order in which they were
/// added. Empty where the main schema has no such table.
pub uninterp spec fn stored_rows(conn: &Connection) -> Seq<StoredRow>;

/// What [`DECLARATION_SQL`] reads first on a connection: nothing where neither
/// schema attaches anything to the table's name, else the text of the first
/// entry, as that statement orders and reads them.
pub uninterp spec fn declaration(conn: &Connection) -> Option<Seq<char>>;

/// The largest id that SQLite's sequence table records as given by the table
/// of credentials in the main schema; 0 where it records none.
pub uninterp spec fn highest_id(conn: &Connection) -> int;

/// Whether a connection is in autocommit mode: outside any transaction, so
/// that each statement is committed, or undone, on its own.
pub uninterp spec fn autocommit(conn: &Connection) -> bool;

/// Whether a connection has the table of credentials: in the main schema,
/// declared as [`CREATE_TABLE_SQL`] declares it, with no index or trigger
/// attached to it and nothing of its name in the temporary schema.
pub open spec fn has_table(conn: &Connection) -> bool {
    declaration(conn) == Some(TABLE_DECLARATION@)
}

/// The text of the SQL statement that a prepared statement was made from.
pub uninterp spec fn statement_sql(stmt: &Statement<'_>) -> Seq<char>;

/// The rows of the table of credentials on the connection that a prepared
/// statement belongs to.
pub uninterp spec fn statement_table(stmt: &Statement<'_>) -> Seq<StoredRow>;

/// Whether the connection that a prepared statement belongs to has the table
/// of credentials.
pub uninterp spec fn statement_has_table(stmt: &Statement<'_>) -> bool;

/// The rows that a running query has yet to hand out, in order.
pub uninterp spec fn pending_rows(rows: &Rows<'_>) -> Seq<StoredRow>;

/// The records of a sequence of rows, in the same order.
pub open spec fn records_of(rows: Seq<StoredRow>) -> Seq<RecordView> {
    rows.map_values(|row: StoredRow| row.record)
}

/// The rows that do not carry `label`, in the same order.
pub open spec fn without_label(rows: Seq<StoredRow>, label: Seq<char>) -> Seq<StoredRow>
    decreases rows.len(),
{
    if rows.len() == 0 {
        rows
    } else if rows.last().record.label == label {
        without_label(rows.drop_last(), label)
    } else {
        without_label(rows.drop_last(), label).push(rows.last())
    }
}

/// The oldest row that carries `label`, if there is one.
pub open spec fn first_with_label(rows: Seq<StoredRow>, label: Seq<char>) -> Option<StoredRow>
    decreases rows.len(),
{
    if rows.len() == 0 {
        None
    } else if rows[0].record.label == label {
        Some(rows[0])
    } else {
        first_with_label(rows.drop_first(), label)
    }
}

/// The rows that a lookup by label hands out: the oldest match alone.
pub open spec fn lookup_rows(rows: Seq<StoredRow>, label: Seq<char>) -> Seq<StoredRow> {
    match first_with_label(rows, label) {
        Some(row) => seq![row],
        None => Seq::empty(),
    }
}

/// Whether some row carries `label`.
pub open spec fn has_label(rows: Seq<StoredRow>, label: Seq<char>) -> bool {
    exists|i: int| 0 <= i < rows.len() && (#[trigger] rows[i]).record.label == label
}

/// Whether `after` is `before` with one row more at the end, which holds
/// `record` under an id greater than every id in `before`.
pub open spec fn appended(before: Seq<StoredRow>, after: Seq<StoredRow>, record: RecordView) -> bool {
    &&& after.len() == before.len() + 1
    &&& after.drop_last() == before
    &&& after.last().record == record
    &&& forall|i: int| 0 <= i < before.len() ==> (#[trigger] before[i]).id < after.last().id
}

/// `Connection::is_autocommit`: whether the connection is in autocommit mode.
#[verifier::external_body]
fn in_autocommit(conn: &Connection) -> (res: bool)
    ensures
        res == autocommit(conn),
{
    conn.is_autocommit()
}

/// `Connection::execute` on [`CREATE_TABLE_SQL`], outside any transaction.
/// Whether it succeeds or not, it changes no row and no recorded id, it leaves
/// alone whatever the schemas already attach to the table's name, and the
/// connection stays outside any transaction. Where the schemas attach nothing,
/// there was no table and so no row.
#[verifier::external_body]
fn execute_create(conn: &mut Connection, sql: &str) -> (res: Result<usize, rusqlite::Error>)
    requires
        sql@ == CREATE_TABLE_SQL@,
        autocommit(old(conn)),
    ensures
        autocommit(final(conn)),
        stored_rows(final(conn)) == stored_rows(old(conn)),
        highest_id(final(conn)) == highest_id(old(conn)),
        declaration(old(conn)).is_some() ==> declaration(final(conn)) == declaration(old(conn)),
        declaration(old(conn)).is_none() ==> stored_rows(final(conn)).len() == 0,
{
    conn.execute(sql, ())
}

/// `Connection::query_row` on [`DECLARATION_SQL`], outside any transaction,
/// reading the one column of the first row, and `OptionalExtension::optional`
/// on its result: the first text that the statement reads, `None` where it
/// reads no row, or the error that SQLite reported.
#[verifier::external_body]
fn read_declaration(conn: &Connection, sql: &str) -> (res: Result<Option<String>, rusqlite::Error>)
    requires
        sql@ == DECLARATION_SQL@,
        autocommit(conn),
    ensures
        match res {
            Ok(Some(text)) => declaration(conn) == Some(text@),
            Ok(None) => declaration(conn).is_none(),
            Err(_) => true,
        },
{
    rusqlite::OptionalExtension::optional(conn.query_row(sql, (), |row| row.get(0)))
}

/// Whether `after` and `after_high` are the rows and the highest recorded id
/// that adding `record` makes of `before` and `before_high`: one row more, at
/// the end, which holds `record` under an id greater than every id in
/// `before` and than every id recorded before, and which is now the highest
/// recorded.
pub open spec fn added(
    before: Seq<StoredRow>,
    before_high: int,
    after: Seq<StoredRow>,
    after_high: int,
    record: RecordView,
) -> bool {
    &&& appended(before, after, record)
    &&& before_high < after.last().id
    &&& after_high == after.last().id
}

/// Whether rows and highest recorded id are the same in two states of a
/// connection.
pub open spec fn rows_unchanged(before: &Connection, after: &Connection) -> bool {
    &&& stored_rows(after) == stored_rows(before)
    &&& highest_id(after) == highest_id(before)
}

/// `Connection::execute` on [`INSERT_SQL`] with the five values bound, outside
/// any transaction. The schemas stay as they are and the connection stays
/// outside any transaction; it succeeds only where the schemas attach
/// something to the table's name. On a connection that has the table: when it
/// fails, rows and recorded ids are as before; when it succeeds, the table has
/// one row more, at the end, with these values under a new id, greater than
/// all others and than any recorded before, which is now the highest recorded.
#[verifier::external_body]
fn execute_insert(
    conn: &mut Connection,
    sql: &str,
    label: &str,
    username: &str,
    nonce: &str,
    ciphertext: &str,
    notes: Option<&str>,
) -> (res: Result<usize, rusqlite::Error>)
    requires
        sql@ == INSERT_SQL@,
        autocommit(old(conn)),
    ensures
        autocommit(final(conn)),
        declaration(final(conn)) == declaration(old(conn)),
        match res {
            Ok(_) => {
                &&& declaration(old(conn)).is_some()
                &&& has_table(old(conn)) ==> added(
                    stored_rows(old(conn)),
                    highest_id(old(conn)),
                    stored_rows(final(conn)),
                    highest_id(final(conn)),
                    (RecordView {
                        label: label@,
                        username: username@,
                        nonce: nonce@,
                        ciphertext: ciphertext@,
                        notes: borrowed_notes_view(notes),
                    }),
                )
            },
            Err(_) => has_table(old(conn)) ==> rows_unchanged(old(conn), final(conn)),
        },
{
    conn.execute(sql, (label, username, nonce, ciphertext, notes))
}

/// `Connection::execute` on [`DELETE_SQL`] with the label bound, outside any
/// transaction. The schemas stay as they are and the connection stays outside
/// any transaction; it succeeds only where the schemas attach something to the
/// table's name. On a connection that has the table: when it fails, rows and
/// recorded ids are as before; when it succeeds, the rows with that label are
/// gone, the others stay in their order, the recorded ids are as before, and
/// the result is the number of rows removed.
#[verifier::external_body]
fn execute_delete(conn: &mut Connection, sql: &str, label: &str) -> (res: Result<
    usize,
    rusqlite::Error,
>)
    requires
        sql@ == DELETE_SQL@,
        autocommit(old(conn)),
    ensures
        autocommit(final(conn)),
        declaration(final(conn)) == declaration(old(conn)),
        match res {
            Ok(removed) => {
                &&& declaration(old(conn)).is_some()
                &&& has_table(old(conn)) ==> {
                    &&& stored_rows(final(conn)) == without_label(stored_rows(old(conn)), label@)
                    &&& removed == stored_rows(old(conn)).len() - stored_rows(final(conn)).len()
                    &&& highest_id(final(conn)) == highest_id(old(conn))
                }
            },
            Err(_) => has_table(old(conn)) ==> rows_unchanged(old(conn), final(conn)),
        },
{
    conn.execute(sql, (label,))
}

/// Makes sure that the connection has the table of credentials: in the main
/// schema, declared as [`CREATE_TABLE_SQL`] declares it, with no index or
/// trigger attached to it and nothing of its name in the temporary schema.
/// Rows that are there stay as they are, whether this succeeds or not; a table
/// that it had to make holds no row.
///
/// Fails with [`VaultError::Storage`] where the connection is inside a
/// transaction, where the database refuses, and where the schemas attach
/// anything else to the table's name.
pub fn init_db(conn: &mut Connection) -> (res: Result<(), VaultError>)
    ensures
        autocommit(final(conn)) == autocommit(old(conn)),
        rows_unchanged(old(conn), final(conn)),
        declaration(old(conn)).is_some() ==> declaration(final(conn)) == declaration(old(conn)),
        declaration(old(conn)).is_none() && autocommit(old(conn)) ==> stored_rows(
            final(conn),
        ).len() == 0,
        declaration(old(conn)).is_some() && !has_table(old(conn)) ==> res.is_err(),
        !autocommit(old(conn)) ==> res.is_err() && declaration(final(conn)) == declaration(
            old(conn),
        ),
        match res {
            Ok(()) => initialized_from(old(conn), final(conn)),
            Err(e) => e == VaultError::Storage,
        },
{
    if !in_autocommit(conn) {
        return Err(VaultError::Storage);
    }
    match execute_create(conn, CREATE_TABLE_SQL) {
        Ok(_) => match read_declaration(conn, DECLARATION_SQL) {
            Ok(found) => if is_table_declaration(&found) {
                Ok(())
            } else {
                Err(VaultError::Storage)
            },
            Err(_) => Err(VaultError::Storage),
        },
        Err(_) => Err(VaultError::Storage),
    }
}

/// Whether a declaration read from the schema is that of the table of
/// credentials.
pub fn is_table_declaration(found: &Option<String>) -> (res: bool)
    ensures
        res == (notes_view(*found) == Some(TABLE_DECLARATION@)),
{
    match found {
        Some(text) => {
            let expected = TABLE_DECLARATION.to_owned();
            *text == expected
        },
        None => false,
    }
}

/// Adds one record, already encrypted, at the end of the store, under a new id
/// greater than all others and never given before. Labels are not required to
/// be unique. On failure the store is as before.
///
/// Fails with [`VaultError::Storage`] where the connection is inside a
/// transaction, where the schemas attach nothing to the table's name, and
/// where the database refuses.
pub fn add_credential(
    conn: &mut Connection,
    label: &str,
    username: &str,
    nonce: &str,
    ciphertext: &str,
    notes: Option<&str>,
) -> (res: Result<(), VaultError>)
    ensures
        autocommit(final(conn)) == autocommit(old(conn)),
        declaration(final(conn)) == declaration(old(conn)),
        declaration(old(conn)).is_none() || !autocommit(old(conn)) ==> res.is_err(),
        match res {
            Ok(()) => has_table(old(conn)) ==> added(
                stored_rows(old(conn)),
                highest_id(old(conn)),
                stored_rows(final(conn)),
                highest_id(final(conn)),
                (RecordView {
                    label: label@,
                    username: username@,
                    nonce: nonce@,
                    ciphertext: ciphertext@,
                    notes: borrowed_notes_view(notes),
                }),
            ),
            Err(e) => {
                &&& e == VaultError::Storage
                &&& has_table(old(conn)) || !autocommit(old(conn)) ==> rows_unchanged(
                    old(conn),
                    final(conn),
                )
            },
        },
{
    if !in_autocommit(conn) {
        return Err(VaultError::Storage);
    }
    match execute_insert(conn, INSERT_SQL, label, username, nonce, ciphertext, notes) {
        Ok(_) => Ok(()),
        Err(_) => Err(VaultError::Storage),
    }
}

/// `Connection::prepare` on one of the two statements that read the table,
/// outside any transaction: a statement made from `sql` on this connection,
/// which there is only where the schemas attach something to the table's
/// name, or the error that SQLite reported.
#[verifier::external_body]
fn prepare<'conn>(conn: &'conn Connection, sql: &str) -> (res: Result<
    Statement<'conn>,
    rusqlite::Error,
>)
    requires
        sql@ == SELECT_ALL_SQL@ || sql@ == SELECT_BY_LABEL_SQL@,
        autocommit(conn),
    ensures
        match res {
            Ok(stmt) => {
                &&& declaration(conn).is_some()
                &&& statement_sql(&stmt) == sql@
                &&& statement_table(&stmt) == stored_rows(conn)
                &&& statement_has_table(&stmt) == has_table(conn)
            },
            Err(_) => true,
        },
{
    conn.prepare(sql)
}

/// `Statement::query` without parameters on a statement made from
/// [`SELECT_ALL_SQL`]: a query that, on a connection that has the table, hands
/// out every row of the table, oldest first.
#[verifier::external_body]
fn query_all<'stmt>(stmt: &'stmt mut Statement<'_>) -> (res: Result<Rows<'stmt>, rusqlite::Error>)
    requires
        statement_sql(old(stmt)) == SELECT_ALL_SQL@,
    ensures
        match res {
            Ok(rows) => statement_has_table(old(stmt)) ==> pending_rows(&rows) == statement_table(
                old(stmt),
            ),
            Err(_) => true,
        },
{
    stmt.query(())
}

/// `Statement::query` with the label bound on a statement made from
/// [`SELECT_BY_LABEL_SQL`]: a query that, on a connection that has the table,
/// hands out the oldest row with that label, if there is one, and nothing
/// else.
#[verifier::external_body]
fn query_label<'stmt>(stmt: &'stmt mut Statement<'_>, label: &str) -> (res: Result<
    Rows<'stmt>,
    rusqlite::Error,
>)
    requires
        statement_sql(old(stmt)) == SELECT_BY_LABEL_SQL@,
    ensures
        match res {
            Ok(rows) => statement_has_table(old(stmt)) ==> pending_rows(&rows) == lookup_rows(
                statement_table(old(stmt)),
                label@,
            ),
            Err(_) => true,
        },
{
    stmt.query((label,))
}

/// `Rows::next`, and `Row::get` on each of the six columns: the next row of a
/// running query, `None` when the query has handed out all its rows, or the
/// error that SQLite reported, which includes a value that does not fit the
/// field it is read into.
#[verifier::external_body]
fn next_row(rows: &mut Rows<'_>) -> (res: Result<Option<Credential>, rusqlite::Error>)
    ensures
        match res {
            Ok(Some(credential)) => {
                &&& pending_rows(old(rows)).len() > 0
                &&& credential@ == pending_rows(old(rows))[0]
                &&& pending_rows(final(rows)) == pending_rows(old(rows)).drop_first()
            },
            Ok(None) => pending_rows(old(rows)).len() == 0 && pending_rows(final(rows)).len() == 0,
            Err(_) => true,
        },
{
    match rows.next()? {
        Some(row) => Ok(Some(Credential {
            id: row.get(0)?,
            label: row.get(1)?,
            username: row.get(2)?,
            nonce: row.get(3)?,
            ciphertext: row.get(4)?,
            notes: row.get(5)?,
        })),
        None => Ok(None),
    }
}

/// The views of the records of a vector, in the same order.
pub open spec fn record_views(records: Seq<CredentialRecord>) -> Seq<RecordView> {
    records.map_values(|record: CredentialRecord| record@)
}

/// The view of a row that may be absent.
pub open spec fn found_view(found: Option<Credential>) -> Option<StoredRow> {
    match found {
        Some(credential) => Some(credential@),
        None => None,
    }
}

/// Looks up the oldest record that carries `label`. The record comes back as it
/// is stored, still encrypted; `None` says that no record carries the label.
///
/// Fails with [`VaultError::Storage`] where the connection is inside a
/// transaction, where the schemas attach nothing to the table's name, and
/// where the database refuses.
pub fn get_credential_by_label(conn: &Connection, label: &str) -> (res: Result<
    Option<Credential>,
    VaultError,
>)
    ensures
        match res {
            Ok(found) => has_table(conn) ==> found_view(found) == first_with_label(
                stored_rows(conn),
                label@,
            ),
            Err(e) => e == VaultError::Storage,
        },
        declaration(conn).is_none() || !autocommit(conn) ==> res.is_err(),
{
    if !in_autocommit(conn) {
        return Err(VaultError::Storage);
    }
    let mut stmt = match prepare(conn, SELECT_BY_LABEL_SQL) {
        Ok(stmt) => stmt,
        Err(_) => { return Err(VaultError::Storage); },
    };
    let mut rows = match query_label(&mut stmt, label) {
        Ok(rows) => rows,
        Err(_) => { return Err(VaultError::Storage); },
    };
    match next_row(&mut rows) {
        Ok(found) => Ok(found),
        Err(_) => Err(VaultError::Storage),
    }
}

/// Lists every record, oldest first, as stored: still encrypted.
///
/// Fails with [`VaultError::Storage`] where the connection is inside a
/// transaction, where the schemas attach nothing to the table's name, and
/// where the database refuses.
pub fn list_credentials(conn: &Connection) -> (res: Result<Vec<CredentialRecord>, VaultError>)
    ensures
        match res {
            Ok(records) => has_table(conn) ==> {
                &&& records@.len() == stored_rows(conn).len()
                &&& record_views(records@) == records_of(stored_rows(conn))
            },
            Err(e) => e == VaultError::Storage,
        },
        declaration(conn).is_none() || !autocommit(conn) ==> res.is_err(),
{
    if !in_autocommit(conn) {
        return Err(VaultError::Storage);
    }
    let mut stmt = match prepare(conn, SELECT_ALL_SQL) {
        Ok(stmt) => stmt,
        Err(_) => { return Err(VaultError::Storage); },
    };
    let mut rows = match query_all(&mut stmt) {
        Ok(rows) => rows,
        Err(_) => { return Err(VaultError::Storage); },
    };
    let mut records: Vec<CredentialRecord> = Vec::new();
    loop
        invariant
            declaration(conn).is_some(),
            autocommit(conn),
            has_table(conn) ==> record_views(records@) + records_of(pending_rows(&rows))
                == records_of(stored_rows(conn)),
        decreases pending_rows(&rows).len(),
    {
        let ghost before = pending_rows(&rows);
        let ghost listed = record_views(records@);
        match next_row(&mut rows) {
            Ok(Some(credential)) => {
                records.push(
                    CredentialRecord {
                        label: credential.label,
                        username: credential.username,
                        nonce: credential.nonce,
                        ciphertext: credential.ciphertext,
                        notes: credential.notes,
                    },
                );
                assert(record_views(records@) + records_of(pending_rows(&rows)) == listed
                    + records_of(before));
            },
            Ok(None) => {
                assert(record_views(records@) == listed + records_of(before));
                assert(has_table(conn) ==> record_views(records@).len() == records_of(
                    stored_rows(conn),
                ).len());
                return Ok(records);
            },
            Err(_) => { return Err(VaultError::Storage); },
        }
    }
}

/// Removes every record that carries `label`, for good, and says whether there
/// was any. On failure the store is as before.
///
/// Fails with [`VaultError::Storage`] where the connection is inside a
/// transaction, where the schemas attach nothing to the table's name, and
/// where the database refuses.
pub fn delete_credential_by_label(conn: &mut Connection, label: &str) -> (res: Result<
    bool,
    VaultError,
>)
    ensures
        autocommit(final(conn)) == autocommit(old(conn)),
        declaration(final(conn)) == declaration(old(conn)),
        declaration(old(conn)).is_none() || !autocommit(old(conn)) ==> res.is_err(),
        match res {
            Ok(removed) => has_table(old(conn)) ==> {
                &&& stored_rows(final(conn)) == without_label(stored_rows(old(conn)), label@)
                &&& removed == has_label(stored_rows(old(conn)), label@)
                &&& !has_label(stored_rows(final(conn)), label@)
                &&& highest_id(final(conn)) == highest_id(old(conn))
            },
            Err(e) => {
                &&& e == VaultError::Storage
                &&& has_table(old(conn)) || !autocommit(old(conn)) ==> rows_unchanged(
                    old(conn),
                    final(conn),
                )
            },
        },
{
    if !in_autocommit(conn) {
        return Err(VaultError::Storage);
    }
    match execute_delete(conn, DELETE_SQL, label) {
        Ok(affected) => {
            proof {
                lemma_without_label_len(stored_rows(old(conn)), label@);
                lemma_delete_then_lookup(stored_rows(old(conn)), label@);
            }
            Ok(affected > 0)
        },
        Err(_) => Err(VaultError::Storage),
    }
}

/// Removing a label shortens the rows exactly when some row carries it.
pub proof fn lemma_without_label_len(rows: Seq<StoredRow>, label: Seq<char>)
    ensures
        without_label(rows, label).len() <= rows.len(),
        without_label(rows, label).len() == rows.len() <==> !has_label(rows, label),
    decreases rows.len(),
{
    if rows.len() > 0 {
        let front = rows.drop_last();
        lemma_without_label_len(front, label);
        if rows.last().record.label == label {
            assert(rows[rows.len() - 1].record.label == label);
        } else {
            if has_label(rows, label) {
                let i = choose|i: int| 0 <= i < rows.len() && (#[trigger] rows[i]).record.label == label;
                assert(front[i].record.label == label);
            }
            if has_label(front, label) {
                let i = choose|i: int| 0 <= i < front.len() && (#[trigger] front[i]).record.label == label;
                assert(rows[i].record.label == label);
            }
        }
    }
}

/// What a lookup finds is the oldest row with the label: it carries the label,
/// no row before it does, and nothing is found only where no row carries it.
pub proof fn lemma_first_with_label(rows: Seq<StoredRow>, label: Seq<char>)
    ensures
        match first_with_label(rows, label) {
            Some(row) => exists|i: int|
                {
                    &&& 0 <= i < rows.len()
                    &&& #[trigger] rows[i] == row
                    &&& row.record.label == label
                    &&& forall|j: int| 0 <= j < i ==> (#[trigger] rows[j]).record.label != label
                },
            None => !has_label(rows, label),
        },
    decreases rows.len(),
{
    if rows.len() > 0 {
        if rows[0].record.label == label {
            assert(rows[0] == rows[0]);
        } else {
            let rest = rows.drop_first();
            lemma_first_with_label(rest, label);
            match first_with_label(rest, label) {
                Some(row) => {
                    let i = choose|i: int|
                        {
                            &&& 0 <= i < rest.len()
                            &&& #[trigger] rest[i] == row
                            &&& row.record.label == label
                            &&& forall|j: int|
                                0 <= j < i ==> (#[trigger] rest[j]).record.label != label
                        };
                    assert(rows[i + 1] == row);
                    assert forall|j: int| 0 <= j < i + 1 implies (#[trigger] rows[j]).record.label
                        != label by {
                        if j > 0 {
                            assert(rest[j - 1].record.label != label);
                        }
                    }
                },
                None => {
                    if has_label(rows, label) {
                        let i = choose|i: int|
                            0 <= i < rows.len() && (#[trigger] rows[i]).record.label == label;
                        assert(rest[i - 1].record.label == label);
                    }
                },
            }
        }
    }
}

/// Whether `after` is the store that a successful [`init_db`] makes of
/// `before`: the table exists and holds the rows that were there.
pub open spec fn initialized_from(before: &Connection, after: &Connection) -> bool {
    has_table(after) && stored_rows(after) == stored_rows(before)
}

/// Initialising is idempotent: initialising a store a second time leaves it as
/// the first time left it, so an empty store stays empty and a populated one
/// keeps its rows.
pub proof fn lemma_init_twice(start: &Connection, first: &Connection, second: &Connection)
    requires
        initialized_from(start, first),
        initialized_from(first, second),
    ensures
        initialized_from(start, second),
        stored_rows(second) == stored_rows(first),
        stored_rows(start).len() == 0 ==> stored_rows(second).len() == 0,
{
}

/// Records are listed in the order in which they were added: appending a
/// record to the rows appends it to what [`list_credentials`] returns.
pub proof fn lemma_append_lists_last(before: Seq<StoredRow>, after: Seq<StoredRow>, record: RecordView)
    requires
        appended(before, after, record),
    ensures
        records_of(after) == records_of(before).push(record),
{
    assert(records_of(after) =~= records_of(before).push(record)) by {
        assert forall|i: int| 0 <= i < before.len() implies records_of(after)[i] == records_of(
            before,
        )[i] by {
            assert(after.drop_last()[i] == after[i]);
        }
    }
}

/// Three records added one after the other are listed last, in that order.
pub proof fn lemma_three_appends_list_in_order(
    start: Seq<StoredRow>,
    one: Seq<StoredRow>,
    two: Seq<StoredRow>,
    three: Seq<StoredRow>,
    a: RecordView,
    b: RecordView,
    c: RecordView,
)
    requires
        appended(start, one, a),
        appended(one, two, b),
        appended(two, three, c),
    ensures
        records_of(three) == records_of(start) + seq![a, b, c],
{
    lemma_append_lists_last(start, one, a);
    lemma_append_lists_last(one, two, b);
    lemma_append_lists_last(two, three, c);
    assert(records_of(start).push(a).push(b).push(c) =~= records_of(start) + seq![a, b, c]);
}

/// A lookup after a record has been added finds what it found before, and
/// the new row only where no older row carries the label.
pub proof fn lemma_append_then_lookup(before: Seq<StoredRow>, after: Seq<StoredRow>, record: RecordView)
    requires
        appended(before, after, record),
    ensures
        has_label(before, record.label) ==> first_with_label(after, record.label)
            == first_with_label(before, record.label),
        !has_label(before, record.label) ==> first_with_label(after, record.label) == Some(
            after.last(),
        ),
{
    assert(before.push(after.last()) =~= after);
    lemma_lookup_of_push(before, after.last(), record.label);
    lemma_first_with_label(before, record.label);
}

/// After a label has been removed, no row carries it and a lookup of it finds
/// nothing.
pub proof fn lemma_delete_then_lookup(rows: Seq<StoredRow>, label: Seq<char>)
    ensures
        !has_label(without_label(rows, label), label),
        first_with_label(without_label(rows, label), label).is_none(),
    decreases rows.len(),
{
    let kept = without_label(rows, label);
    if rows.len() > 0 {
        lemma_delete_then_lookup(rows.drop_last(), label);
        if has_label(kept, label) {
            let i = choose|i: int| 0 <= i < kept.len() && (#[trigger] kept[i]).record.label == label;
            if rows.last().record.label != label {
                let front = without_label(rows.drop_last(), label);
                if i < front.len() {
                    assert(front[i].record.label == label);
                }
            }
        }
    }
    lemma_first_with_label(kept, label);
}

/// Removing one label leaves the lookup of every other label as it was.
pub proof fn lemma_delete_keeps_other_labels(rows: Seq<StoredRow>, label: Seq<char>, other: Seq<char>)
    requires
        other != label,
    ensures
        first_with_label(without_label(rows, label), other) == first_with_label(rows, other),
    decreases rows.len(),
{
    if rows.len() > 0 {
        let front = rows.drop_last();
        let last = rows.last();
        lemma_delete_keeps_other_labels(front, label, other);
        lemma_lookup_of_push(front, last, other);
        assert(front.push(last) =~= rows);
        if last.record.label != label {
            lemma_lookup_of_push(without_label(front, label), last, other);
        }
    }
}

/// A lookup in rows with one more at the end finds what it found before, and
/// the new row only where it found nothing.
pub proof fn lemma_lookup_of_push(rows: Seq<StoredRow>, row: StoredRow, label: Seq<char>)
    ensures
        first_with_label(rows.push(row), label) == match first_with_label(rows, label) {
            Some(found) => Some(found),
            None => if row.record.label == label {
                Some(row)
            } else {
                None
            },
        },
    decreases rows.len(),
{
    let longer = rows.push(row);
    if rows.len() == 0 {
        assert(longer.drop_first().len() == 0);
    } else {
        assert(longer[0] == rows[0]);
        if rows[0].record.label != label {
            assert(longer.drop_first() =~= rows.drop_first().push(row));
            lemma_lookup_of_push(rows.drop_first(), row, label);
        }
    }
}

/// An id is given once: after a record has been added, whatever is removed
/// and whatever else is added, a record added later gets a greater id.
/// `high` is the highest recorded id after the first record was added, and
/// `later_high` the highest recorded id at some later time, which removing
/// leaves as it is and adding raises.
pub proof fn lemma_ids_are_not_reused(
    start: Seq<StoredRow>,
    start_high: int,
    first: Seq<StoredRow>,
    high: int,
    record: RecordView,
    later: Seq<StoredRow>,
    later_high: int,
    last: Seq<StoredRow>,
    last_high: int,
    other: RecordView,
)
    requires
        added(start, start_high, first, high, record),
        high <= later_high,
        added(later, later_high, last, last_high, other),
    ensures
        first.last().id < last.last().id,
        high < last_high,
{
}

} // verus!
