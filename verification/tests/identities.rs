use signal_store::identity::{identity_key_pair_of, local_registration_id_of, trust_of};
use signal_store::{
    Direction, IdentityKeyPair, ProtocolAddress, SignalProtocolError, SledConfigStore, State,
    StoreError,
};

fn address(name: &str, device_id: u32) -> ProtocolAddress {
    ProtocolAddress::new(name.to_string(), device_id)
}

fn registered() -> State {
    State::Registered { registration_id: 1234, private_key: vec![1, 2, 3], public_key: vec![5, 6] }
}

fn decode(document: Vec<u8>) -> Result<State, StoreError> {
    if document == b"registered" {
        Ok(registered())
    } else {
        Err(StoreError::JsonError(serde_json::from_slice::<bool>(&document).unwrap_err()))
    }
}

fn wrong_state<T>() -> Result<T, SignalProtocolError> {
    Err(SignalProtocolError::InternalError("wrong state: no registration data yet"))
}

fn unhandled<T>() -> Result<T, SignalProtocolError> {
    Err(SignalProtocolError::InternalError("unhandled error"))
}

#[test]
fn identity_that_was_saved_is_read_and_trusted() {
    let mut store = SledConfigStore::temporary().unwrap();
    let alice = address("alice", 1);
    let key = vec![5, 1, 2, 3, 4];
    assert_eq!(store.save_identity(&alice, &key), Ok(false));
    assert_eq!(store.get_identity(&alice), Ok(Some(key.clone())));
    assert_eq!(store.is_trusted_identity(&alice, &key, Direction::Receiving), Ok(true));
    assert_eq!(store.is_trusted_identity(&alice, &key, Direction::Sending), Ok(true));
    assert_eq!(store.get("identity-remote-alice.1").unwrap(), Some(key));
}

#[test]
fn identity_of_an_address_never_seen_is_trusted() {
    let mut store = SledConfigStore::temporary().unwrap();
    let alice = address("alice", 1);
    assert_eq!(store.get_identity(&alice), Ok(None));
    assert_eq!(store.is_trusted_identity(&alice, &[5, 9, 9], Direction::Receiving), Ok(true));
    assert_eq!(store.is_trusted_identity(&alice, &[], Direction::Sending), Ok(true));
    store.save_identity(&address("alice", 2), &[5, 1]).unwrap();
    assert_eq!(store.is_trusted_identity(&alice, &[5, 9, 9], Direction::Receiving), Ok(true));
    assert_eq!(store.get_identity(&alice), Ok(None));
}

#[test]
fn identity_other_than_the_one_on_file_is_not_trusted() {
    let mut store = SledConfigStore::temporary().unwrap();
    let alice = address("alice", 1);
    store.save_identity(&alice, &[5, 1, 2, 3]).unwrap();
    assert_eq!(store.is_trusted_identity(&alice, &[5, 1, 2, 4], Direction::Receiving), Ok(false));
    assert_eq!(store.is_trusted_identity(&alice, &[5, 1, 2], Direction::Receiving), Ok(false));
    assert_eq!(store.is_trusted_identity(&alice, &[5, 1, 2, 3, 0], Direction::Sending), Ok(false));
    assert_eq!(store.is_trusted_identity(&alice, &[], Direction::Sending), Ok(false));
}

#[test]
fn identity_is_overwritten_by_the_next_one_saved() {
    let mut store = SledConfigStore::temporary().unwrap();
    let alice = address("alice", 1);
    assert_eq!(store.save_identity(&alice, &[5, 1]), Ok(false));
    assert_eq!(store.save_identity(&alice, &[5, 2]), Ok(false));
    assert_eq!(store.save_identity(&alice, &[5, 2]), Ok(false));
    assert_eq!(store.get_identity(&alice), Ok(Some(vec![5, 2])));
    assert_eq!(store.is_trusted_identity(&alice, &[5, 1], Direction::Receiving), Ok(false));
    assert_eq!(store.is_trusted_identity(&alice, &[5, 2], Direction::Receiving), Ok(true));
}

#[test]
fn identities_of_different_addresses_are_apart() {
    let mut store = SledConfigStore::temporary().unwrap();
    store.save_identity(&address("alice", 1), &[1]).unwrap();
    store.save_identity(&address("alice", 11), &[2]).unwrap();
    store.save_identity(&address("alice.1", 1), &[3]).unwrap();
    assert_eq!(store.get_identity(&address("alice", 1)), Ok(Some(vec![1])));
    assert_eq!(store.get_identity(&address("alice", 11)), Ok(Some(vec![2])));
    assert_eq!(store.get_identity(&address("alice.1", 1)), Ok(Some(vec![3])));
}

#[test]
fn trust_of_tells_first_sight_from_match_from_failure() {
    assert_eq!(trust_of(Ok::<_, sled::Error>(None), &[1, 2]), Ok(true));
    assert_eq!(trust_of(Ok::<_, sled::Error>(Some(vec![1, 2])), &[1, 2]), Ok(true));
    assert_eq!(trust_of(Ok::<_, sled::Error>(Some(vec![1, 2])), &[1, 3]), Ok(false));
    assert_eq!(trust_of(Ok::<_, sled::Error>(Some(vec![1, 2])), &[1]), Ok(false));
    assert_eq!(trust_of(Ok::<_, sled::Error>(Some(vec![])), &[]), Ok(true));
    assert_eq!(
        trust_of(Err(sled::Error::Unsupported("off".to_string())), &[1, 2]),
        Err(SignalProtocolError::InternalError("failed to check if identity is trusted"))
    );
}

#[test]
fn key_pair_and_registration_id_are_those_of_the_registered_state() {
    let mut store = SledConfigStore::temporary().unwrap();
    store.save(b"registered").unwrap();
    assert_eq!(
        store.get_identity_key_pair(decode),
        Ok(IdentityKeyPair { identity_key: vec![5, 6], private_key: vec![1, 2, 3] })
    );
    assert_eq!(store.get_local_registration_id(decode), Ok(1234));
}

#[test]
fn key_pair_and_registration_id_of_an_unregistered_client_are_the_wrong_state() {
    let store = SledConfigStore::temporary().unwrap();
    assert_eq!(store.get_identity_key_pair(decode), wrong_state());
    assert_eq!(store.get_local_registration_id(decode), wrong_state());
}

#[test]
fn key_pair_and_registration_id_of_a_state_that_cannot_be_read_are_unhandled() {
    let mut store = SledConfigStore::temporary().unwrap();
    store.save(b"{ no document").unwrap();
    assert_eq!(store.get_identity_key_pair(decode), unhandled());
    assert_eq!(store.get_local_registration_id(decode), unhandled());
}

#[test]
fn identity_key_pair_of_tells_the_three_states_apart() {
    assert_eq!(
        identity_key_pair_of(Ok(registered())),
        Ok(IdentityKeyPair { identity_key: vec![5, 6], private_key: vec![1, 2, 3] })
    );
    assert_eq!(identity_key_pair_of(Ok(State::New)), wrong_state());
    assert_eq!(identity_key_pair_of(Err(StoreError::MalformedCounter)), unhandled());
    let failed = StoreError::DbError(sled::Error::Unsupported("off".to_string()));
    assert_eq!(identity_key_pair_of(Err(failed)), unhandled());
}

#[test]
fn local_registration_id_of_tells_the_three_states_apart() {
    assert_eq!(local_registration_id_of(Ok(registered())), Ok(1234));
    let other = State::Registered { registration_id: 0, private_key: vec![], public_key: vec![] };
    assert_eq!(local_registration_id_of(Ok(other)), Ok(0));
    assert_eq!(local_registration_id_of(Ok(State::New)), wrong_state());
    assert_eq!(local_registration_id_of(Err(StoreError::MalformedCounter)), unhandled());
}

#[test]
fn clones_are_equal_to_what_they_were_made_of() {
    assert_eq!(registered().clone(), registered());
    assert_eq!(State::New.clone(), State::New);
    let pair = IdentityKeyPair { identity_key: vec![5, 6], private_key: vec![1, 2, 3] };
    assert_eq!(pair.clone(), pair);
    let told = SignalProtocolError::InternalError("sled error");
    assert_eq!(told.clone(), told);
    assert_eq!(SignalProtocolError::InvalidPreKeyId.clone(), SignalProtocolError::InvalidPreKeyId);
    assert_eq!(
        SignalProtocolError::InvalidSignedPreKeyId.clone(),
        SignalProtocolError::InvalidSignedPreKeyId
    );
    assert_ne!(SignalProtocolError::InvalidPreKeyId, SignalProtocolError::InvalidSignedPreKeyId);
}
