//! Identities: the client's own key pair and registration number, which the
//! registration state holds, and the identity keys of the peers, stored in
//! the default keyspace as they were first seen.

use vstd::prelude::*;
use vstd::string::*;
use crate::bytes::same_bytes;
use crate::config::{state_read, State};
use crate::error::{SignalProtocolError, StoreError};
use crate::keys::{identity_key_text, ProtocolAddress};
use crate::outcome::optional;
use crate::store::{bytes_of, key_bytes, stored, SledConfigStore};

verus! {

/// The key pair by which the client is known: the serialized public identity
/// key and the serialized private key.
#[derive(Debug, PartialEq, Eq)]
pub struct IdentityKeyPair {
    pub identity_key: Vec<u8>,
    pub private_key: Vec<u8>,
}

impl Clone for IdentityKeyPair {
    fn clone(&self) -> (copy: Self)
        ensures
            copy.identity_key@ == self.identity_key@,
            copy.private_key@ == self.private_key@,
    {
        IdentityKeyPair {
            identity_key: self.identity_key.clone(),
            private_key: self.private_key.clone(),
        }
    }
}

/// Which way a message goes for which an identity is checked.
#[derive(Debug, Clone, Copy, PartialEq, Eq)]
pub enum Direction {
    Sending,
    Receiving,
}

/// The key pair that a registration state gives: that of a registered client.
/// A state without registration, and one that could not be read, are errors,
/// each its own.
pub open spec fn registered_key_pair(state: Result<State, StoreError>) -> Result<
    IdentityKeyPair,
    SignalProtocolError,
> {
    match state {
        Ok(State::Registered { registration_id, private_key, public_key }) => Ok(
            IdentityKeyPair { identity_key: public_key, private_key },
        ),
        Ok(State::New) => Err(
            SignalProtocolError::InternalError("wrong state: no registration data yet"),
        ),
        Err(_) => Err(SignalProtocolError::InternalError("unhandled error")),
    }
}

/// The registration number that a registration state gives: that of a
/// registered client. A state without registration, and one that could not be
/// read, are errors, each its own.
pub open spec fn registered_id(state: Result<State, StoreError>) -> Result<
    u32,
    SignalProtocolError,
> {
    match state {
        Ok(State::Registered { registration_id, private_key, public_key }) => Ok(registration_id),
        Ok(State::New) => Err(
            SignalProtocolError::InternalError("wrong state: no registration data yet"),
        ),
        Err(_) => Err(SignalProtocolError::InternalError("unhandled error")),
    }
}

/// Whether `identity_key` is trusted for a peer of whom `known` is on file:
/// a peer of whom nothing is on file is trusted, any other if and only if the
/// key is the one on file, byte for byte.
pub open spec fn trusts(known: Option<Seq<u8>>, identity_key: Seq<u8>) -> bool {
    match known {
        None => true,
        Some(key) => key == identity_key,
    }
}

/// The key pair of the client whose registration state is `state`, as
/// [`registered_key_pair`] says.
pub fn identity_key_pair_of(state: Result<State, StoreError>) -> (pair: Result<
    IdentityKeyPair,
    SignalProtocolError,
>)
    ensures
        pair == registered_key_pair(state),
{
    match state {
        Ok(State::Registered { registration_id, private_key, public_key }) => Ok(
            IdentityKeyPair { identity_key: public_key, private_key },
        ),
        Ok(State::New) => Err(
            SignalProtocolError::InternalError("wrong state: no registration data yet"),
        ),
        Err(_) => Err(SignalProtocolError::InternalError("unhandled error")),
    }
}

/// The registration number of the client whose registration state is
/// `state`, as [`registered_id`] says.
pub fn local_registration_id_of(state: Result<State, StoreError>) -> (id: Result<
    u32,
    SignalProtocolError,
>)
    ensures
        id == registered_id(state),
{
    match state {
        Ok(State::Registered { registration_id, private_key, public_key }) => Ok(registration_id),
        Ok(State::New) => Err(
            SignalProtocolError::InternalError("wrong state: no registration data yet"),
        ),
        Err(_) => Err(SignalProtocolError::InternalError("unhandled error")),
    }
}

/// Whether `identity_key` is trusted, given what the lookup of the peer's
/// identity found: as [`trusts`] says of a lookup that was answered, and an
/// error of one that failed.
pub fn trust_of<E>(found: Result<Option<Vec<u8>>, E>, identity_key: &[u8]) -> (trusted: Result<
    bool,
    SignalProtocolError,
>)
    ensures
        trusted == (match found {
            Ok(known) => Ok::<bool, SignalProtocolError>(trusts(bytes_of(known), identity_key@)),
            Err(_) => Err(
                SignalProtocolError::InternalError("failed to check if identity is trusted"),
            ),
        }),
{
    match found {
        Ok(None) => Ok(true),
        Ok(Some(known)) => Ok(same_bytes(known.as_slice(), identity_key)),
        Err(_) => Err(SignalProtocolError::InternalError("failed to check if identity is trusted")),
    }
}

impl SledConfigStore {
    /// The key pair of the client, which only a registered client has.
    /// `decode` reads the stored registration state.
    pub fn get_identity_key_pair<D>(&self, decode: D) -> (pair: Result<
        IdentityKeyPair,
        SignalProtocolError,
    >) where D: FnOnce(Vec<u8>) -> Result<State, StoreError>
        requires
            forall|document: Vec<u8>| call_requires(decode, (document,)),
        ensures
            exists|state: Result<State, StoreError>|
                state_read(self.default_entries(), decode, state) && pair
                    == #[trigger] registered_key_pair(state),
    {
        let state = self.state(decode);
        identity_key_pair_of(state)
    }

    /// The registration number of the client, which only a registered client
    /// has. `decode` reads the stored registration state.
    pub fn get_local_registration_id<D>(&self, decode: D) -> (id: Result<
        u32,
        SignalProtocolError,
    >) where D: FnOnce(Vec<u8>) -> Result<State, StoreError>
        requires
            forall|document: Vec<u8>| call_requires(decode, (document,)),
        ensures
            exists|state: Result<State, StoreError>|
                state_read(self.default_entries(), decode, state) && id == #[trigger] registered_id(
                    state,
                ),
    {
        let state = self.state(decode);
        local_registration_id_of(state)
    }

    /// Puts `identity_key` on file as the identity of `address`, in place of
    /// what was there. The answer is always `false`: the store does not tell
    /// a new identity from a changed one.
    pub fn save_identity(&mut self, address: &ProtocolAddress, identity_key: &[u8]) -> (saved: Result<
        bool,
        SignalProtocolError,
    >)
        ensures
            final(self).session_entries() == old(self).session_entries(),
            match saved {
                Ok(replaced) => !replaced && final(self).default_entries() == old(
                    self,
                ).default_entries().insert(
                    key_bytes(identity_key_text(address.name@, address.device_id)),
                    identity_key@,
                ),
                Err(e) => e == SignalProtocolError::InternalError("failed to save identity"),
            },
    {
        let key = self.identity_key(address);
        match self.insert(key.as_str(), identity_key) {
            Ok(()) => Ok(false),
            Err(_) => Err(SignalProtocolError::InternalError("failed to save identity")),
        }
    }

    /// Whether `identity_key` is trusted as the identity of `address`: it is
    /// where no identity of the address is on file, and else if and only if
    /// it is the one on file.
    pub fn is_trusted_identity(
        &self,
        address: &ProtocolAddress,
        identity_key: &[u8],
        _direction: Direction,
    ) -> (trusted: Result<bool, SignalProtocolError>)
        ensures
            match trusted {
                Ok(yes) => yes == trusts(
                    stored(
                        self.default_entries(),
                        identity_key_text(address.name@, address.device_id),
                    ),
                    identity_key@,
                ),
                Err(e) => e == SignalProtocolError::InternalError(
                    "failed to check if identity is trusted",
                ),
            },
    {
        let key = self.identity_key(address);
        trust_of(self.get(key.as_str()), identity_key)
    }

    /// The identity of `address` that is on file, if there is one.
    pub fn get_identity(&self, address: &ProtocolAddress) -> (identity: Result<
        Option<Vec<u8>>,
        SignalProtocolError,
    >)
        ensures
            match identity {
                Ok(found) => bytes_of(found) == stored(
                    self.default_entries(),
                    identity_key_text(address.name@, address.device_id),
                ),
                Err(e) => e == SignalProtocolError::InternalError("failed to read identity"),
            },
    {
        let key = self.identity_key(address);
        optional(self.get(key.as_str()), "failed to read identity")
    }
}

} // verus!
