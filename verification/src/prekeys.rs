//! One-time pre-keys and signed pre-keys: serialized records in the default
//! keyspace, each under the key of its identifier.

use vstd::prelude::*;
use vstd::string::*;
use crate::error::SignalProtocolError;
use crate::keys::{prekey_key_text, signed_prekey_key_text};
use crate::outcome::{required, written};
use crate::store::{stored, key_bytes, SledConfigStore};

verus! {

impl SledConfigStore {
    /// The pre-key stored under `prekey_id`. None stored there is the error
    /// `InvalidPreKeyId`.
    pub fn get_pre_key(&self, prekey_id: u32) -> (record: Result<Vec<u8>, SignalProtocolError>)
        ensures
            match record {
                Ok(bytes) => stored(self.default_entries(), prekey_key_text(prekey_id)) == Some(
                    bytes@,
                ),
                Err(SignalProtocolError::InvalidPreKeyId) => stored(
                    self.default_entries(),
                    prekey_key_text(prekey_id),
                ) is None,
                Err(e) => e == SignalProtocolError::InternalError("sled error"),
            },
    {
        let key = self.prekey_key(prekey_id);
        required(self.get(key.as_str()), SignalProtocolError::InvalidPreKeyId, "sled error")
    }

    /// Stores `record` as the pre-key `prekey_id`, in place of what was
    /// there.
    pub fn save_pre_key(&mut self, prekey_id: u32, record: &[u8]) -> (done: Result<
        (),
        SignalProtocolError,
    >)
        ensures
            final(self).session_entries() == old(self).session_entries(),
            match done {
                Ok(()) => final(self).default_entries() == old(self).default_entries().insert(
                    key_bytes(prekey_key_text(prekey_id)),
                    record@,
                ),
                Err(e) => e == SignalProtocolError::InternalError("failed to store pre-key"),
            },
    {
        let key = self.prekey_key(prekey_id);
        written(self.insert(key.as_str(), record), "failed to store pre-key")
    }

    /// Removes the pre-key `prekey_id`. None stored there is no fault.
    pub fn remove_pre_key(&mut self, prekey_id: u32) -> (done: Result<(), SignalProtocolError>)
        ensures
            final(self).session_entries() == old(self).session_entries(),
            match done {
                Ok(()) => final(self).default_entries() == old(self).default_entries().remove(
                    key_bytes(prekey_key_text(prekey_id)),
                ),
                Err(e) => e == SignalProtocolError::InternalError("failed to remove pre-key"),
            },
    {
        let key = self.prekey_key(prekey_id);
        written(self.remove(key.as_str()), "failed to remove pre-key")
    }

    /// The signed pre-key stored under `signed_prekey_id`. None stored there
    /// is the error `InvalidSignedPreKeyId`.
    pub fn get_signed_pre_key(&self, signed_prekey_id: u32) -> (record: Result<
        Vec<u8>,
        SignalProtocolError,
    >)
        ensures
            match record {
                Ok(bytes) => stored(
                    self.default_entries(),
                    signed_prekey_key_text(signed_prekey_id),
                ) == Some(bytes@),
                Err(SignalProtocolError::InvalidSignedPreKeyId) => stored(
                    self.default_entries(),
                    signed_prekey_key_text(signed_prekey_id),
                ) is None,
                Err(e) => e == SignalProtocolError::InternalError("sled error"),
            },
    {
        let key = self.signed_prekey_key(signed_prekey_id);
        required(self.get(key.as_str()), SignalProtocolError::InvalidSignedPreKeyId, "sled error")
    }

    /// Stores `record` as the signed pre-key `signed_prekey_id`, in place of
    /// what was there.
    pub fn save_signed_pre_key(&mut self, signed_prekey_id: u32, record: &[u8]) -> (done: Result<
        (),
        SignalProtocolError,
    >)
        ensures
            final(self).session_entries() == old(self).session_entries(),
            match done {
                Ok(()) => final(self).default_entries() == old(self).default_entries().insert(
                    key_bytes(signed_prekey_key_text(signed_prekey_id)),
                    record@,
                ),
                Err(e) => e == SignalProtocolError::InternalError("sled error"),
            },
    {
        let key = self.signed_prekey_key(signed_prekey_id);
        written(self.insert(key.as_str(), record), "sled error")
    }
}

} // verus!
