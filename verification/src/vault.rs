//! The vault: the store and the cipher put together. A password enters as
//! plain text, is sealed under the caller's key with a fresh nonce, and is
//! kept only in sealed form; it leaves as plain text only through a lookup
//! that opens it under the same key.

use vstd::prelude::*;
use vstd::utf8::*;
use rusqlite::Connection;
use crate::cipher::{
    base64_fits,
    decrypt_message,
    decrypt_message_outcome,
    encrypt_message,
    lemma_decrypt_message_inverts_encrypt_message,
    message_encrypts_to,
    MAX_PLAINTEXT_LEN,
    TAG_LEN,
};
use crate::error::VaultError;
use crate::store::{
    add_credential,
    added,
    appended,
    autocommit,
    declaration,
    highest_id,
    borrowed_notes_view,
    first_with_label,
    get_credential_by_label,
    has_label,
    has_table,
    lemma_append_then_lookup,
    lemma_delete_then_lookup,
    record_views,
    records_of,
    rows_unchanged,
    stored_rows,
    without_label,
    Credential,
    CredentialRecord,
    RecordView,
    StoredRow,
};

verus! {

/// Whether a record holds `password`, sealed under `key`.
pub open spec fn holds_password(record: RecordView, key: Seq<u8>, password: Seq<char>) -> bool {
    message_encrypts_to(key, password, record.nonce, record.ciphertext)
}

/// The result of revealing the password kept under `label`: the lookup must
/// find a row, and its sealed password must decrypt under `key`.
pub open spec fn reveal_outcome(rows: Seq<StoredRow>, key: Seq<u8>, label: Seq<char>) -> Result<
    Seq<char>,
    VaultError,
> {
    match first_with_label(rows, label) {
        Some(row) => decrypt_message_outcome(key, row.record.nonce, row.record.ciphertext),
        None => Err(VaultError::NotFound),
    }
}

/// Seals `password` under `key` and adds it to the store under `label`. The
/// store receives the sealed form only. On failure the store is as before.
///
/// Fails with [`VaultError::Encryption`] where [`encrypt_message`] fails, which
/// it does for a password longer than the cipher takes, and with
/// [`VaultError::Storage`] where the store refuses the record.
pub fn add_password(
    conn: &mut Connection,
    key: &[u8; 32],
    label: &str,
    username: &str,
    password: &str,
    notes: Option<&str>,
) -> (res: Result<(), VaultError>)
    ensures
        autocommit(final(conn)) == autocommit(old(conn)),
        declaration(final(conn)) == declaration(old(conn)),
        encode_utf8(password@).len() > MAX_PLAINTEXT_LEN || !base64_fits(
            encode_utf8(password@).len() + TAG_LEN,
        ) ==> res == Err::<(), VaultError>(VaultError::Encryption),
        declaration(old(conn)).is_none() || !autocommit(old(conn)) ==> res.is_err(),
        match res {
            Ok(()) => has_table(old(conn)) ==> {
                let record = stored_rows(final(conn)).last().record;
                &&& added(
                    stored_rows(old(conn)),
                    highest_id(old(conn)),
                    stored_rows(final(conn)),
                    highest_id(final(conn)),
                    record,
                )
                &&& record.label == label@
                &&& record.username == username@
                &&& record.notes == borrowed_notes_view(notes)
                &&& holds_password(record, key@, password@)
            },
            Err(e) => {
                &&& e == VaultError::Encryption || e == VaultError::Storage
                &&& e == VaultError::Encryption || has_table(old(conn)) || !autocommit(old(conn))
                    ==> rows_unchanged(old(conn), final(conn))
            },
        },
{
    match encrypt_message(key, password) {
        Ok(texts) => add_credential(
            conn,
            label,
            username,
            texts.0.as_str(),
            texts.1.as_str(),
            notes,
        ),
        Err(e) => Err(e),
    }
}

/// Opens the sealed password of a stored credential under `key`.
pub fn open_credential(key: &[u8; 32], credential: &Credential) -> (res: Result<String, VaultError>)
    ensures
        match res {
            Ok(password) => decrypt_message_outcome(
                key@,
                credential@.record.nonce,
                credential@.record.ciphertext,
            ) == Ok::<Seq<char>, VaultError>(password@),
            Err(e) => decrypt_message_outcome(
                key@,
                credential@.record.nonce,
                credential@.record.ciphertext,
            ) == Err::<Seq<char>, VaultError>(e),
        },
{
    decrypt_message(key, credential.nonce.as_str(), credential.ciphertext.as_str())
}

/// What revealing makes of the result of a lookup: [`VaultError::NotFound`]
/// where the lookup found nothing, else the credential found together with
/// its password, opened under `key`, or the error of [`decrypt_message`] where
/// the password does not open.
pub fn reveal_found(key: &[u8; 32], found: Option<Credential>) -> (res: Result<
    (Credential, String),
    VaultError,
>)
    ensures
        match found {
            None => res == Err::<(Credential, String), VaultError>(VaultError::NotFound),
            Some(credential) => match res {
                Ok(pair) => {
                    &&& pair.0 == credential
                    &&& decrypt_message_outcome(
                        key@,
                        credential@.record.nonce,
                        credential@.record.ciphertext,
                    ) == Ok::<Seq<char>, VaultError>(pair.1@)
                },
                Err(e) => decrypt_message_outcome(
                    key@,
                    credential@.record.nonce,
                    credential@.record.ciphertext,
                ) == Err::<Seq<char>, VaultError>(e),
            },
        },
{
    match found {
        Some(credential) => match open_credential(key, &credential) {
            Ok(password) => Ok((credential, password)),
            Err(e) => Err(e),
        },
        None => Err(VaultError::NotFound),
    }
}

/// Looks up the oldest credential under `label` and opens its password under
/// `key`. Returns the stored credential together with the password.
///
/// Fails with [`VaultError::NotFound`] where no record carries the label, with
/// the error of [`decrypt_message`] where the password does not open, and with
/// [`VaultError::Storage`] where the store cannot be read, as is the case
/// where the connection is inside a transaction and where the schemas attach
/// nothing to the table's name.
pub fn reveal_password(conn: &Connection, key: &[u8; 32], label: &str) -> (res: Result<
    (Credential, String),
    VaultError,
>)
    ensures
        declaration(conn).is_none() || !autocommit(conn) ==> res == Err::<
            (Credential, String),
            VaultError,
        >(VaultError::Storage),
        match res {
            Ok(found) => has_table(conn) ==> {
                &&& first_with_label(stored_rows(conn), label@) == Some(found.0@)
                &&& reveal_outcome(stored_rows(conn), key@, label@) == Ok::<Seq<char>, VaultError>(
                    found.1@,
                )
            },
            Err(e) => e == VaultError::Storage || (has_table(conn) ==> reveal_outcome(
                stored_rows(conn),
                key@,
                label@,
            ) == Err::<Seq<char>, VaultError>(e)),
        },
{
    match get_credential_by_label(conn, label) {
        Ok(found) => reveal_found(key, found),
        Err(e) => Err(e),
    }
}

/// A password that was added under a label that no older record carries is the
/// one that revealing that label returns.
pub proof fn lemma_added_password_is_revealed(
    before: Seq<StoredRow>,
    after: Seq<StoredRow>,
    key: Seq<u8>,
    password: Seq<char>,
)
    requires
        after.len() > 0,
        appended(before, after, after.last().record),
        holds_password(after.last().record, key, password),
        !has_label(before, after.last().record.label),
    ensures
        reveal_outcome(after, key, after.last().record.label) == Ok::<Seq<char>, VaultError>(
            password,
        ),
{
    let record = after.last().record;
    lemma_append_then_lookup(before, after, record);
    lemma_decrypt_message_inverts_encrypt_message(key, password, record.nonce, record.ciphertext);
}

/// Once a label has been removed, revealing it reports that nothing is found.
pub proof fn lemma_removed_label_is_not_found(rows: Seq<StoredRow>, key: Seq<u8>, label: Seq<char>)
    ensures
        reveal_outcome(without_label(rows, label), key, label) == Err::<Seq<char>, VaultError>(
            VaultError::NotFound,
        ),
{
    lemma_delete_then_lookup(rows, label);
}

/// The result of opening each record of a sequence under `key`, in order.
pub open spec fn opened_views(opened: Seq<Result<String, VaultError>>) -> Seq<
    Result<Seq<char>, VaultError>,
> {
    opened.map_values(
        |one: Result<String, VaultError>|
            match one {
                Ok(password) => Ok(password@),
                Err(e) => Err(e),
            },
    )
}

/// What opening each record of a sequence under `key` comes to, in order.
pub open spec fn open_outcomes(key: Seq<u8>, records: Seq<RecordView>) -> Seq<
    Result<Seq<char>, VaultError>,
> {
    records.map_values(
        |record: RecordView| decrypt_message_outcome(key, record.nonce, record.ciphertext),
    )
}

/// Opens the password of every record under `key`, in order. A record that
/// does not open leaves its error in its place and does not stop the others.
pub fn open_records(key: &[u8; 32], records: &Vec<CredentialRecord>) -> (opened: Vec<
    Result<String, VaultError>,
>)
    ensures
        opened_views(opened@) == open_outcomes(key@, record_views(records@)),
{
    let mut opened: Vec<Result<String, VaultError>> = Vec::new();
    let mut i: usize = 0;
    while i < records.len()
        invariant
            i <= records.len(),
            opened@.len() == i,
            forall|j: int|
                0 <= j < i ==> opened_views(opened@)[j] == open_outcomes(
                    key@,
                    record_views(records@),
                )[j],
        decreases records.len() - i,
    {
        let record = &records[i];
        let one = decrypt_message(key, record.nonce.as_str(), record.ciphertext.as_str());
        let ghost earlier = opened@;
        opened.push(one);
        assert forall|j: int| 0 <= j < i + 1 implies opened_views(opened@)[j] == open_outcomes(
            key@,
            record_views(records@),
        )[j] by {
            if j < i {
                assert(opened@[j] == earlier[j]);
                assert(opened_views(earlier)[j] == open_outcomes(key@, record_views(records@))[j]);
            }
        }
        i += 1;
    }
    assert(opened_views(opened@) =~= open_outcomes(key@, record_views(records@)));
    opened
}

/// Whether `after` is `before` with rows added at the end that hold `records`,
/// in order.
pub open spec fn extended(before: Seq<StoredRow>, after: Seq<StoredRow>, records: Seq<RecordView>) -> bool {
    &&& after.len() == before.len() + records.len()
    &&& after.take(before.len() as int) == before
    &&& records_of(after.skip(before.len() as int)) == records
}

/// Adds every record to the store as it is, still sealed, in order, and
/// returns how many were added.
///
/// Each record is added on its own. Where one is refused, the records before
/// it stay in the store, the rest are not tried, and the result is
/// [`VaultError::Storage`].
pub fn import_records(conn: &mut Connection, records: &Vec<CredentialRecord>) -> (res: Result<
    usize,
    VaultError,
>)
    ensures
        autocommit(final(conn)) == autocommit(old(conn)),
        declaration(final(conn)) == declaration(old(conn)),
        has_table(old(conn)) ==> highest_id(old(conn)) <= highest_id(final(conn)),
        match res {
            Ok(count) => {
                &&& count == records@.len()
                &&& has_table(old(conn)) ==> extended(
                    stored_rows(old(conn)),
                    stored_rows(final(conn)),
                    record_views(records@),
                )
            },
            Err(e) => {
                &&& e == VaultError::Storage
                &&& has_table(old(conn)) ==> exists|k: int|
                    0 <= k < records@.len() && #[trigger] extended(
                        stored_rows(old(conn)),
                        stored_rows(final(conn)),
                        record_views(records@).take(k),
                    )
            },
        },
{
    let ghost start = stored_rows(conn);
    let mut i: usize = 0;
    assert(extended(start, stored_rows(conn), record_views(records@).take(0))) by {
        assert(start.take(start.len() as int) =~= start);
        assert(records_of(start.skip(start.len() as int)) =~= record_views(records@).take(0));
    }
    while i < records.len()
        invariant
            i <= records.len(),
            start == stored_rows(old(conn)),
            autocommit(conn) == autocommit(old(conn)),
            declaration(conn) == declaration(old(conn)),
            has_table(conn) ==> highest_id(old(conn)) <= highest_id(conn),
            has_table(conn) ==> extended(
                start,
                stored_rows(conn),
                record_views(records@).take(i as int),
            ),
        decreases records.len() - i,
    {
        let record = &records[i];
        let notes: Option<&str> = match &record.notes {
            Some(text) => Some(text.as_str()),
            None => None,
        };
        let ghost before = stored_rows(conn);
        match add_credential(
            conn,
            record.label.as_str(),
            record.username.as_str(),
            record.nonce.as_str(),
            record.ciphertext.as_str(),
            notes,
        ) {
            Ok(()) => {
                proof {
                    if has_table(conn) {
                        lemma_extended_by_append(
                            start,
                            before,
                            stored_rows(conn),
                            record_views(records@).take(i as int),
                            record@,
                        );
                        assert(record_views(records@).take(i as int).push(record@)
                            =~= record_views(records@).take(i + 1));
                    }
                }
            },
            Err(e) => {
                assert(has_table(conn) ==> extended(
                    start,
                    stored_rows(conn),
                    record_views(records@).take(i as int),
                ));
                return Err(e);
            },
        }
        i += 1;
    }
    assert(record_views(records@).take(i as int) =~= record_views(records@));
    Ok(i)
}

/// Appending one more record to rows that extend `start` extends `start` by
/// one more record.
pub proof fn lemma_extended_by_append(
    start: Seq<StoredRow>,
    before: Seq<StoredRow>,
    after: Seq<StoredRow>,
    records: Seq<RecordView>,
    record: RecordView,
)
    requires
        extended(start, before, records),
        appended(before, after, record),
    ensures
        extended(start, after, records.push(record)),
{
    let n = start.len() as int;
    assert(after.take(n) =~= start) by {
        assert forall|i: int| 0 <= i < n implies after.take(n)[i] == start[i] by {
            assert(after.drop_last()[i] == before[i]);
            assert(before.take(n)[i] == start[i]);
        }
    }
    assert(records_of(after.skip(n)) =~= records.push(record)) by {
        assert forall|i: int| 0 <= i < records.len() implies records_of(after.skip(n))[i]
            == records[i] by {
            assert(after.drop_last()[n + i] == before[n + i]);
            assert(records_of(before.skip(n))[i] == records[i]);
        }
    }
}

} // verus!
