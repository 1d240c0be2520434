//! Operations on a mocked storage, and its responses.

use vstd::prelude::*;
use crate::json::JsonValue;
use crate::kv::StrMap;

verus! {

/// What a storage operation does.
#[derive(Debug, Clone, Copy, PartialEq, Eq, Structural, Hash)]
pub enum StorageOperationType {
    Read,
    Write,
    Delete,
    List,
    Exists,
}

impl StorageOperationType {
    /// The name of the operation.
    pub fn name(&self) -> (s: &'static str)
        ensures
            s@ == match *self {
                StorageOperationType::Read => "Read"@,
                StorageOperationType::Write => "Write"@,
                StorageOperationType::Delete => "Delete"@,
                StorageOperationType::List => "List"@,
                StorageOperationType::Exists => "Exists"@,
            },
    {
        match self {
            StorageOperationType::Read => "Read",
            StorageOperationType::Write => "Write",
            StorageOperationType::Delete => "Delete",
            StorageOperationType::List => "List",
            StorageOperationType::Exists => "Exists",
        }
    }
}

/// An operation on the storage: its kind, key (a prefix for listing), the
/// value written, and options, each option by the canonical text of its
/// JSON value.
#[derive(Debug)]
pub struct StorageOperation {
    pub operation_type: StorageOperationType,
    pub key: String,
    pub value: Option<JsonValue>,
    pub options: StrMap,
}

impl StorageOperation {
    fn of(operation_type: StorageOperationType, key: String) -> (o: StorageOperation)
        ensures
            o.operation_type == operation_type,
            o.key@ == key@,
            o.value is None,
            o.options@ == Map::<Seq<char>, Seq<char>>::empty(),
    {
        StorageOperation { operation_type, key, value: None, options: StrMap::new() }
    }

    /// Reads `key`.
    pub fn read(key: String) -> (o: StorageOperation)
        ensures
            o.operation_type == StorageOperationType::Read,
            o.key@ == key@,
            o.value is None,
            o.options@ == Map::<Seq<char>, Seq<char>>::empty(),
    {
        StorageOperation::of(StorageOperationType::Read, key)
    }

    /// Writes `value` at `key`.
    pub fn write(key: String, value: JsonValue) -> (o: StorageOperation)
        ensures
            o.operation_type == StorageOperationType::Write,
            o.key@ == key@,
            o.value matches Some(v) && v@ == value@,
            o.options@ == Map::<Seq<char>, Seq<char>>::empty(),
    {
        StorageOperation { operation_type: StorageOperationType::Write, key, value: Some(value), options: StrMap::new() }
    }

    /// Deletes `key`.
    pub fn delete(key: String) -> (o: StorageOperation)
        ensures
            o.operation_type == StorageOperationType::Delete,
            o.key@ == key@,
            o.value is None,
            o.options@ == Map::<Seq<char>, Seq<char>>::empty(),
    {
        StorageOperation::of(StorageOperationType::Delete, key)
    }

    /// Lists the keys under `prefix`.
    pub fn list(prefix: String) -> (o: StorageOperation)
        ensures
            o.operation_type == StorageOperationType::List,
            o.key@ == prefix@,
            o.value is None,
            o.options@ == Map::<Seq<char>, Seq<char>>::empty(),
    {
        StorageOperation::of(StorageOperationType::List, prefix)
    }

    /// Asks whether `key` exists.
    pub fn key_exists(key: String) -> (o: StorageOperation)
        ensures
            o.operation_type == StorageOperationType::Exists,
            o.key@ == key@,
            o.value is None,
            o.options@ == Map::<Seq<char>, Seq<char>>::empty(),
    {
        StorageOperation::of(StorageOperationType::Exists, key)
    }

    /// Sets an option, given by the canonical text of its value.
    pub fn with_option(self, key: String, value_text: String) -> (o: StorageOperation)
        ensures
            o.operation_type == self.operation_type,
            o.key == self.key,
            o.options@ == self.options@.insert(key@, value_text@),
    {
        let mut o = self;
        o.options.insert(key, value_text);
        o
    }
}

/// The storage's answer: `success` with data, or `error` with a message.
#[derive(Debug)]
pub struct StorageResponse {
    pub status: String,
    pub data: Option<JsonValue>,
    pub error: Option<String>,
}

impl StorageResponse {
    /// A success carrying `data`.
    pub fn success(data: JsonValue) -> (r: StorageResponse)
        ensures
            r.status@ == "success"@,
            r.data matches Some(d) && d@ == data@,
            r.error is None,
    {
        StorageResponse { status: "success".to_owned(), data: Some(data), error: None }
    }

    /// An error carrying `error`.
    pub fn error(error: String) -> (r: StorageResponse)
        ensures
            r.status@ == "error"@,
            r.data is None,
            r.error matches Some(e) && e@ == error@,
    {
        StorageResponse { status: "error".to_owned(), data: None, error: Some(error) }
    }
}

} // verus!
