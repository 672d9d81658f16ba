//! The registration state, the two counters and the contacts: each one value
//! under a fixed key of the default keyspace.
//!
//! The state and the contacts are stored as serialized documents. The store
//! writes the bytes that it is given, and hands the bytes that it finds to
//! the decoder that the caller brings.

use vstd::prelude::*;
use vstd::bytes::{spec_u32_from_le_bytes, spec_u32_to_le_bytes, u32_from_le_bytes, u32_to_le_bytes};
use vstd::string::*;
use crate::engine::{no_entries, tree_clear};
use crate::error::StoreError;
use crate::keys::{
    SLED_KEY_CONTACTS, SLED_KEY_NEXT_SIGNED_PRE_KEY_ID, SLED_KEY_PRE_KEYS_OFFSET_ID, SLED_KEY_STATE,
};
use crate::store::{bytes_of, key_bytes, stored, SledConfigStore};

verus! {

/// What the store reads of the registration of the client: none yet, or the
/// registration number and the serialized keys of a registered client.
#[derive(Debug, PartialEq, Eq)]
pub enum State {
    New,
    Registered { registration_id: u32, private_key: Vec<u8>, public_key: Vec<u8> },
}

impl Clone for State {
    fn clone(&self) -> (copy: Self)
        ensures
            match *self {
                State::New => copy is New,
                State::Registered { registration_id, private_key, public_key } => {
                    &&& copy is Registered
                    &&& copy->registration_id == registration_id
                    &&& copy->private_key@ == private_key@
                    &&& copy->public_key@ == public_key@
                },
            },
    {
        match self {
            State::New => State::New,
            State::Registered { registration_id, private_key, public_key } => State::Registered {
                registration_id: *registration_id,
                private_key: private_key.clone(),
                public_key: public_key.clone(),
            },
        }
    }
}

/// `state` is what reading the registration state gives, where `entries` is
/// the default keyspace: the error of an engine that failed; or `New` where
/// nothing is stored; or what `decode` makes of the stored document.
pub open spec fn state_read<D: FnOnce(Vec<u8>) -> Result<State, StoreError>>(
    entries: Map<Seq<u8>, Seq<u8>>,
    decode: D,
    state: Result<State, StoreError>,
) -> bool {
    ||| state matches Err(StoreError::DbError(_))
    ||| match stored(entries, SLED_KEY_STATE@) {
        None => state == Ok::<State, StoreError>(State::New),
        Some(bytes) => exists|document: Vec<u8>|
            document@ == bytes && #[trigger] call_ensures(decode, (document,), state),
    }
}

/// `contacts` is what reading the contacts gives, where `entries` is the
/// default keyspace: the error of an engine that failed; or no contact where
/// nothing is stored; or what `decode` makes of the stored document.
pub open spec fn contacts_read<C, D: FnOnce(Vec<u8>) -> Result<Vec<C>, StoreError>>(
    entries: Map<Seq<u8>, Seq<u8>>,
    decode: D,
    contacts: Result<Vec<C>, StoreError>,
) -> bool {
    ||| contacts matches Err(StoreError::DbError(_))
    ||| match stored(entries, SLED_KEY_CONTACTS@) {
        None => contacts matches Ok(list) && list@.len() == 0,
        Some(bytes) => exists|document: Vec<u8>|
            document@ == bytes && #[trigger] call_ensures(decode, (document,), contacts),
    }
}

/// The number that a stored counter holds: the four bytes read with the
/// lowest first. A counter that is not stored holds no number, and one
/// stored as something else than four bytes is malformed.
pub open spec fn counter_read(known: Option<Seq<u8>>) -> Result<Option<u32>, ()> {
    match known {
        None => Ok(None),
        Some(bytes) => if bytes.len() == 4 {
            Ok(Some(spec_u32_from_le_bytes(bytes)))
        } else {
            Err(())
        },
    }
}

/// The number that a counter stands at: that of the stored counter, and 0
/// where none is stored.
pub open spec fn counter_value(known: Option<Seq<u8>>) -> Result<u32, ()> {
    match counter_read(known) {
        Ok(Some(n)) => Ok(n),
        Ok(None) => Ok(0),
        Err(_) => Err(()),
    }
}

/// The number that the lookup of a counter found, as [`counter_read`] says;
/// the error of a lookup that failed is handed on.
pub fn counter_of(found: Result<Option<Vec<u8>>, StoreError>) -> (number: Result<
    Option<u32>,
    StoreError,
>)
    ensures
        match found {
            Ok(known) => match counter_read(bytes_of(known)) {
                Ok(n) => number == Ok::<Option<u32>, StoreError>(n),
                Err(_) => number matches Err(StoreError::MalformedCounter),
            },
            Err(e) => number == Err::<Option<u32>, StoreError>(e),
        },
{
    match found {
        Ok(None) => Ok(None),
        Ok(Some(bytes)) => {
            if bytes.len() == 4 {
                Ok(Some(u32_from_le_bytes(bytes.as_slice())))
            } else {
                Err(StoreError::MalformedCounter)
            }
        },
        Err(e) => Err(e),
    }
}

impl SledConfigStore {
    /// The number stored under `key`, if one is stored.
    pub fn get_u32(&self, key: &str) -> (number: Result<Option<u32>, StoreError>)
        ensures
            match number {
                Ok(n) => counter_read(stored(self.default_entries(), key@)) == Ok::<
                    Option<u32>,
                    (),
                >(n),
                Err(StoreError::MalformedCounter) => counter_read(
                    stored(self.default_entries(), key@),
                ) is Err,
                Err(e) => e is DbError,
            },
    {
        counter_of(self.get(key))
    }

    /// Stores `value` under `key`, as four bytes with the lowest first.
    pub fn insert_u32(&mut self, key: &str, value: u32) -> (done: Result<(), StoreError>)
        ensures
            final(self).session_entries() == old(self).session_entries(),
            done is Ok ==> final(self).default_entries() == old(self).default_entries().insert(
                key_bytes(key@),
                spec_u32_to_le_bytes(value),
            ),
            done matches Err(e) ==> e is DbError,
    {
        let bytes = u32_to_le_bytes(value);
        self.insert(key, bytes.as_slice())
    }

    /// The registration state: `New` where none is stored, and else what
    /// `decode` makes of the stored document, its error too.
    pub fn state<D>(&self, decode: D) -> (state: Result<State, StoreError>) where
        D: FnOnce(Vec<u8>) -> Result<State, StoreError>,

        requires
            forall|document: Vec<u8>| call_requires(decode, (document,)),
        ensures
            state_read(self.default_entries(), decode, state),
    {
        match self.get(SLED_KEY_STATE) {
            Ok(None) => Ok(State::New),
            Ok(Some(document)) => decode(document),
            Err(e) => Err(e),
        }
    }

    /// Makes `document` the stored registration state. Everything else in
    /// the default keyspace is removed; the sessions stay.
    pub fn save(&mut self, document: &[u8]) -> (done: Result<(), StoreError>)
        ensures
            final(self).session_entries() == old(self).session_entries(),
            done is Ok ==> final(self).default_entries() == no_entries().insert(
                key_bytes(SLED_KEY_STATE@),
                document@,
            ),
            done matches Err(e) ==> e is DbError,
    {
        match tree_clear(&mut self.tree) {
            Ok(()) => self.insert(SLED_KEY_STATE, document),
            Err(e) => Err(StoreError::DbError(e)),
        }
    }

    /// The identifier from which the next pre-keys are numbered; 0 where
    /// none is stored.
    pub fn pre_keys_offset_id(&self) -> (id: Result<u32, StoreError>)
        ensures
            match id {
                Ok(n) => counter_value(
                    stored(self.default_entries(), SLED_KEY_PRE_KEYS_OFFSET_ID@),
                ) == Ok::<u32, ()>(n),
                Err(StoreError::MalformedCounter) => counter_value(
                    stored(self.default_entries(), SLED_KEY_PRE_KEYS_OFFSET_ID@),
                ) is Err,
                Err(e) => e is DbError,
            },
    {
        match self.get_u32(SLED_KEY_PRE_KEYS_OFFSET_ID) {
            Ok(Some(n)) => Ok(n),
            Ok(None) => Ok(0),
            Err(e) => Err(e),
        }
    }

    /// Stores the identifier from which the next pre-keys are numbered.
    pub fn set_pre_keys_offset_id(&mut self, id: u32) -> (done: Result<(), StoreError>)
        ensures
            final(self).session_entries() == old(self).session_entries(),
            done is Ok ==> final(self).default_entries() == old(self).default_entries().insert(
                key_bytes(SLED_KEY_PRE_KEYS_OFFSET_ID@),
                spec_u32_to_le_bytes(id),
            ),
            done matches Err(e) ==> e is DbError,
    {
        self.insert_u32(SLED_KEY_PRE_KEYS_OFFSET_ID, id)
    }

    /// The identifier that the next signed pre-key gets; 0 where none is
    /// stored.
    pub fn next_signed_pre_key_id(&self) -> (id: Result<u32, StoreError>)
        ensures
            match id {
                Ok(n) => counter_value(
                    stored(self.default_entries(), SLED_KEY_NEXT_SIGNED_PRE_KEY_ID@),
                ) == Ok::<u32, ()>(n),
                Err(StoreError::MalformedCounter) => counter_value(
                    stored(self.default_entries(), SLED_KEY_NEXT_SIGNED_PRE_KEY_ID@),
                ) is Err,
                Err(e) => e is DbError,
            },
    {
        match self.get_u32(SLED_KEY_NEXT_SIGNED_PRE_KEY_ID) {
            Ok(Some(n)) => Ok(n),
            Ok(None) => Ok(0),
            Err(e) => Err(e),
        }
    }

    /// Stores the identifier that the next signed pre-key gets.
    pub fn set_next_signed_pre_key_id(&mut self, id: u32) -> (done: Result<(), StoreError>)
        ensures
            final(self).session_entries() == old(self).session_entries(),
            done is Ok ==> final(self).default_entries() == old(self).default_entries().insert(
                key_bytes(SLED_KEY_NEXT_SIGNED_PRE_KEY_ID@),
                spec_u32_to_le_bytes(id),
            ),
            done matches Err(e) ==> e is DbError,
    {
        self.insert_u32(SLED_KEY_NEXT_SIGNED_PRE_KEY_ID, id)
    }

    /// Makes `document` the stored contacts, in place of those that were
    /// there.
    pub fn save_contacts(&mut self, document: &[u8]) -> (done: Result<(), StoreError>)
        ensures
            final(self).session_entries() == old(self).session_entries(),
            done is Ok ==> final(self).default_entries() == old(self).default_entries().insert(
                key_bytes(SLED_KEY_CONTACTS@),
                document@,
            ),
            done matches Err(e) ==> e is DbError,
    {
        self.insert(SLED_KEY_CONTACTS, document)
    }

    /// The contacts: none where none are stored, and else what `decode`
    /// makes of the stored document, its error too.
    pub fn contacts<C, D>(&self, decode: D) -> (contacts: Result<Vec<C>, StoreError>) where
        D: FnOnce(Vec<u8>) -> Result<Vec<C>, StoreError>,

        requires
            forall|document: Vec<u8>| call_requires(decode, (document,)),
        ensures
            contacts_read(self.default_entries(), decode, contacts),
    {
        match self.get(SLED_KEY_CONTACTS) {
            Ok(None) => Ok(Vec::new()),
            Ok(Some(document)) => decode(document),
            Err(e) => Err(e),
        }
    }
}

} // verus!
