//! Strict decoding of raw storage rows into todo records. A malformed row
//! (a missing or mismatched column) is a decode error that aborts the whole
//! query, never a silently skipped row.

use vstd::prelude::*;

use crate::todo::Todo;

verus! {

/// A raw column value as the storage backend hands it over: null, an
/// integer, text, or something else (a real or a blob, which no column of
/// the schema may hold).
#[derive(Debug, Clone)]
pub enum RawValue {
    Null,
    Integer(i64),
    Text(String),
    Other,
}

/// One raw row of the todos table, column by column.
#[derive(Debug, Clone)]
pub struct RawRow {
    pub id: RawValue,
    pub text: RawValue,
    pub priority: RawValue,
    pub completed: RawValue,
    pub created_at: RawValue,
    pub completed_at: RawValue,
}

/// The fault taxonomy: the storage location is unavailable, the schema
/// cannot be created, a query fails, or a row does not decode. Business
/// outcomes (not found, already completed) are not here: they are ordinary
/// results.
#[derive(Debug, Clone, PartialEq, Eq, Structural)]
pub enum StoreError {
    IOError,
    SchemaError,
    StorageError,
    DecodeError,
}

/// A raw row has the shape the schema promises: integer id and completed
/// flag, text for text, priority and creation time, and text or null for the
/// completion time.
pub open spec fn row_shape_ok(row: RawRow) -> bool {
    &&& row.id is Integer
    &&& row.text is Text
    &&& row.priority is Text
    &&& row.completed is Integer
    &&& row.created_at is Text
    &&& (row.completed_at is Text || row.completed_at is Null)
}

/// The decoded record carries the raw values over, field for field.
pub open spec fn decoded(row: RawRow, t: Todo) -> bool {
    &&& row.id matches RawValue::Integer(n) && t.id == n
    &&& row.text matches RawValue::Text(s) && t.text == s
    &&& row.priority matches RawValue::Text(s) && t.priority == s
    &&& row.completed matches RawValue::Integer(n) && t.completed == n
    &&& row.created_at matches RawValue::Text(s) && t.created_at == s
    &&& match row.completed_at {
        RawValue::Null => t.completed_at is None,
        RawValue::Text(s) => t.completed_at matches Some(u) && u == s,
        _ => false,
    }
}

/// Decode one raw row into a todo record. Succeeds exactly on rows of the
/// schema's shape; anything else is a decode error.
pub fn decode_row(row: RawRow) -> (r: Result<Todo, StoreError>)
    ensures
        (r is Ok) <==> row_shape_ok(row),
        r matches Ok(t) ==> decoded(row, t),
        r matches Err(e) ==> e == StoreError::DecodeError,
{
    let RawRow { id, text, priority, completed, created_at, completed_at } = row;
    let id = match id {
        RawValue::Integer(n) => n,
        _ => {
            return Err(StoreError::DecodeError);
        },
    };
    let text = match text {
        RawValue::Text(s) => s,
        _ => {
            return Err(StoreError::DecodeError);
        },
    };
    let priority = match priority {
        RawValue::Text(s) => s,
        _ => {
            return Err(StoreError::DecodeError);
        },
    };
    let completed = match completed {
        RawValue::Integer(n) => n,
        _ => {
            return Err(StoreError::DecodeError);
        },
    };
    let created_at = match created_at {
        RawValue::Text(s) => s,
        _ => {
            return Err(StoreError::DecodeError);
        },
    };
    let completed_at = match completed_at {
        RawValue::Null => None,
        RawValue::Text(s) => Some(s),
        _ => {
            return Err(StoreError::DecodeError);
        },
    };
    Ok(Todo { id, text, priority, completed, created_at, completed_at })
}

} // verus!
