use signal_store::{ProtocolAddress, SledConfigStore};

fn address(name: &str, device_id: u32) -> ProtocolAddress {
    ProtocolAddress::new(name.to_string(), device_id)
}

#[test]
fn prekey_key_has_nine_digits() {
    let store = SledConfigStore::temporary().unwrap();
    assert_eq!(store.prekey_key(0), "prekey-000000000");
    assert_eq!(store.prekey_key(1), "prekey-000000001");
    assert_eq!(store.prekey_key(42), "prekey-000000042");
    assert_eq!(store.prekey_key(123_456_789), "prekey-123456789");
    assert_eq!(store.prekey_key(999_999_999), "prekey-999999999");
}

#[test]
fn prekey_key_of_a_long_number_is_written_in_full() {
    let store = SledConfigStore::temporary().unwrap();
    assert_eq!(store.prekey_key(1_000_000_000), "prekey-1000000000");
    assert_eq!(store.prekey_key(u32::MAX), "prekey-4294967295");
}

#[test]
fn prekey_key_is_what_format_writes() {
    let store = SledConfigStore::temporary().unwrap();
    for id in [0u32, 7, 10, 99, 100, 65_535, 99_999_999, 100_000_000, 4_000_000_000, u32::MAX] {
        assert_eq!(store.prekey_key(id), format!("prekey-{:09}", id));
        assert_eq!(store.signed_prekey_key(id), format!("signed-prekey-{:09}", id));
    }
}

#[test]
fn signed_prekey_key_has_nine_digits() {
    let store = SledConfigStore::temporary().unwrap();
    assert_eq!(store.signed_prekey_key(0), "signed-prekey-000000000");
    assert_eq!(store.signed_prekey_key(17), "signed-prekey-000000017");
    assert_eq!(store.signed_prekey_key(u32::MAX), "signed-prekey-4294967295");
}

#[test]
fn keys_in_order_of_their_numbers() {
    let store = SledConfigStore::temporary().unwrap();
    assert!(store.prekey_key(9) < store.prekey_key(10));
    assert!(store.prekey_key(99_999) < store.prekey_key(100_000));
    assert!(store.signed_prekey_key(2) < store.signed_prekey_key(11));
}

#[test]
fn address_text_is_name_dot_device() {
    assert_eq!(address("alice", 1).to_text(), "alice.1");
    assert_eq!(address("+15551234567", 12).to_text(), "+15551234567.12");
    assert_eq!(address("", 0).to_text(), ".0");
    assert_eq!(address("zoë", u32::MAX).to_text(), "zoë.4294967295");
}

#[test]
fn address_keeps_what_it_was_made_of() {
    let alice = address("alice", 3);
    assert_eq!(alice.name, "alice");
    assert_eq!(alice.device_id, 3);
    assert_eq!(alice, alice.clone());
    assert_ne!(alice, address("alice", 4));
}

#[test]
fn session_key_names_the_address() {
    let store = SledConfigStore::temporary().unwrap();
    assert_eq!(store.session_key(&address("alice", 1)), "session-alice.1");
    assert_eq!(store.session_key(&address("alicebob", 20)), "session-alicebob.20");
}

#[test]
fn session_prefix_ends_with_the_dot() {
    let store = SledConfigStore::temporary().unwrap();
    assert_eq!(store.session_prefix("alice"), "session-alice.");
    assert_eq!(store.session_prefix(""), "session-.");
}

#[test]
fn session_prefix_begins_every_session_key_of_the_name() {
    let store = SledConfigStore::temporary().unwrap();
    let prefix = store.session_prefix("abc");
    assert!(store.session_key(&address("abc", 1)).starts_with(&prefix));
    assert!(store.session_key(&address("abc", 4_000_000_000)).starts_with(&prefix));
    assert!(store.session_key(&address("abc", 1)).len() > prefix.len());
}

#[test]
fn session_prefix_of_a_name_does_not_begin_the_keys_of_a_longer_name() {
    let store = SledConfigStore::temporary().unwrap();
    let prefix = store.session_prefix("abc");
    assert!(!store.session_key(&address("abcd", 1)).starts_with(&prefix));
    assert!(!store.session_key(&address("ab", 1)).starts_with(&prefix));
}

#[test]
fn identity_key_names_the_address() {
    let store = SledConfigStore::temporary().unwrap();
    assert_eq!(store.identity_key(&address("alice", 1)), "identity-remote-alice.1");
    assert_eq!(store.identity_key(&address("bob", 0)), "identity-remote-bob.0");
}

#[test]
fn different_addresses_have_different_keys() {
    let store = SledConfigStore::temporary().unwrap();
    assert_ne!(store.session_key(&address("a.1", 2)), store.session_key(&address("a", 12)));
    assert_ne!(store.session_key(&address("a", 1)), store.session_key(&address("a", 10)));
    assert_ne!(store.identity_key(&address("a.1", 2)), store.identity_key(&address("a", 1)));
}
