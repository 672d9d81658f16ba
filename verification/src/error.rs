//! What the store reports when it cannot do what it was asked.

use vstd::prelude::*;

verus! {

/// What a decoder of stored documents reports on bytes that it cannot read.
#[verifier::external_type_specification]
#[verifier::external_body]
pub struct ExDocumentError(serde_json::Error);

/// A failure of the configuration store.
#[derive(Debug)]
pub enum StoreError {
    /// The storage engine failed.
    DbError(sled::Error),
    /// A stored document could not be decoded.
    JsonError(serde_json::Error),
    /// A counter is stored as something else than four bytes.
    MalformedCounter,
}

/// A failure that the protocol layer is told of.
#[derive(Debug, PartialEq, Eq)]
pub enum SignalProtocolError {
    /// No pre-key is stored under the identifier.
    InvalidPreKeyId,
    /// No signed pre-key is stored under the identifier.
    InvalidSignedPreKeyId,
    /// The store failed; the text says at what.
    InternalError(&'static str),
}

impl From<sled::Error> for StoreError {
    fn from(e: sled::Error) -> (error: Self) {
        StoreError::DbError(e)
    }
}

impl vstd::std_specs::convert::FromSpecImpl<sled::Error> for StoreError {
    open spec fn obeys_from_spec() -> bool {
        true
    }

    open spec fn from_spec(e: sled::Error) -> Self {
        StoreError::DbError(e)
    }
}

impl From<serde_json::Error> for StoreError {
    fn from(e: serde_json::Error) -> (error: Self) {
        StoreError::JsonError(e)
    }
}

impl vstd::std_specs::convert::FromSpecImpl<serde_json::Error> for StoreError {
    open spec fn obeys_from_spec() -> bool {
        true
    }

    open spec fn from_spec(e: serde_json::Error) -> Self {
        StoreError::JsonError(e)
    }
}

impl Clone for SignalProtocolError {
    fn clone(&self) -> (copy: Self)
        ensures
            copy == *self,
    {
        match self {
            SignalProtocolError::InvalidPreKeyId => SignalProtocolError::InvalidPreKeyId,
            SignalProtocolError::InvalidSignedPreKeyId => SignalProtocolError::InvalidSignedPreKeyId,
            SignalProtocolError::InternalError(what) => SignalProtocolError::InternalError(what),
        }
    }
}

} // verus!
