//! The failures that the adapter reports to the host.

use vstd::prelude::*;

verus! {

/// Why a call could not be completed.
///
/// Every variant but `InvalidCid` carries the message of the failure that
/// caused it, so that the host sees what went wrong underneath.
#[derive(Clone, Debug, PartialEq, Eq)]
pub enum AdapterError {
    /// An identifier did not decode to a content identifier.
    InvalidCid,
    /// The snapshot at the given root could not be loaded.
    ForestLoadFailure(String),
    /// The host rejected a write to the block store.
    StoreWriteFailure(String),
    /// The block store holds nothing under the key that was read.
    StoreReadAbsent(String),
    /// The file system engine refused the operation.
    TreeOperationFailure(String),
    /// A value could not be encoded or decoded at the host boundary.
    SerializationFailure(String),
}

/// The mathematical value of an [`AdapterError`]: the same cases, with each
/// message as a sequence of characters.
pub enum ErrorModel {
    InvalidCid,
    ForestLoadFailure(Seq<char>),
    StoreWriteFailure(Seq<char>),
    StoreReadAbsent(Seq<char>),
    TreeOperationFailure(Seq<char>),
    SerializationFailure(Seq<char>),
}

impl View for AdapterError {
    type V = ErrorModel;

    open spec fn view(&self) -> ErrorModel {
        match self {
            AdapterError::InvalidCid => ErrorModel::InvalidCid,
            AdapterError::ForestLoadFailure(m) => ErrorModel::ForestLoadFailure(m@),
            AdapterError::StoreWriteFailure(m) => ErrorModel::StoreWriteFailure(m@),
            AdapterError::StoreReadAbsent(m) => ErrorModel::StoreReadAbsent(m@),
            AdapterError::TreeOperationFailure(m) => ErrorModel::TreeOperationFailure(m@),
            AdapterError::SerializationFailure(m) => ErrorModel::SerializationFailure(m@),
        }
    }
}

/// The message of the failure to read an identifier.
pub open spec fn invalid_cid_message() -> Seq<char> {
    "Invalid CID"@
}

/// The message that the host is shown for `error`: for a failure that has a
/// cause, the message of that cause.
pub open spec fn message_of(error: ErrorModel) -> Seq<char> {
    match error {
        ErrorModel::InvalidCid => invalid_cid_message(),
        ErrorModel::ForestLoadFailure(message) => message,
        ErrorModel::StoreWriteFailure(message) => message,
        ErrorModel::StoreReadAbsent(message) => message,
        ErrorModel::TreeOperationFailure(message) => message,
        ErrorModel::SerializationFailure(message) => message,
    }
}

impl AdapterError {
    /// The message that the host is shown for this failure.
    pub fn message(&self) -> (text: String)
        ensures
            text@ == message_of(self@),
    {
        match self {
            AdapterError::InvalidCid => "Invalid CID".to_owned(),
            AdapterError::ForestLoadFailure(message) => message.clone(),
            AdapterError::StoreWriteFailure(message) => message.clone(),
            AdapterError::StoreReadAbsent(message) => message.clone(),
            AdapterError::TreeOperationFailure(message) => message.clone(),
            AdapterError::SerializationFailure(message) => message.clone(),
        }
    }
}

} // verus!
