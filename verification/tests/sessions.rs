use signal_store::sessions::device_ids;
use signal_store::{ProtocolAddress, SledConfigStore};

fn address(name: &str, device_id: u32) -> ProtocolAddress {
    ProtocolAddress::new(name.to_string(), device_id)
}

#[test]
fn session_that_was_stored_is_loaded() {
    let mut store = SledConfigStore::temporary().unwrap();
    let alice = address("alice", 1);
    store.store_session(&alice, &[10, 20, 30]).unwrap();
    assert_eq!(store.load_session(&alice), Ok(Some(vec![10, 20, 30])));
    assert_eq!(store.load_session(&alice), Ok(Some(vec![10, 20, 30])));
}

#[test]
fn session_that_was_never_stored_is_none() {
    let mut store = SledConfigStore::temporary().unwrap();
    assert_eq!(store.load_session(&address("alice", 1)), Ok(None));
    store.store_session(&address("alice", 1), &[1]).unwrap();
    assert_eq!(store.load_session(&address("alice", 2)), Ok(None));
    assert_eq!(store.load_session(&address("alic", 1)), Ok(None));
}

#[test]
fn session_is_overwritten_by_the_next_one_stored() {
    let mut store = SledConfigStore::temporary().unwrap();
    let alice = address("alice", 1);
    store.store_session(&alice, &[1]).unwrap();
    store.store_session(&alice, &[2, 2]).unwrap();
    assert_eq!(store.load_session(&alice), Ok(Some(vec![2, 2])));
    assert_eq!(store.keys().unwrap().1, vec!["session-alice.1"]);
}

#[test]
fn sessions_are_kept_apart_from_the_default_keyspace() {
    let mut store = SledConfigStore::temporary().unwrap();
    let alice = address("alice", 1);
    store.store_session(&alice, &[1]).unwrap();
    assert_eq!(store.get("session-alice.1").unwrap(), None);
    store.insert("session-alice.2", &[2]).unwrap();
    assert_eq!(store.load_session(&address("alice", 2)), Ok(None));
    assert_eq!(store.get_sub_device_sessions("alice"), Ok(vec![1]));
}

#[test]
fn sub_devices_of_a_name_do_not_take_in_a_longer_name() {
    let mut store = SledConfigStore::temporary().unwrap();
    store.store_session(&address("alice", 1), &[1]).unwrap();
    store.store_session(&address("alice", 2), &[2]).unwrap();
    store.store_session(&address("alicebob", 1), &[3]).unwrap();
    assert_eq!(store.get_sub_device_sessions("alice"), Ok(vec![1, 2]));
    assert_eq!(store.get_sub_device_sessions("alicebob"), Ok(vec![1]));
    assert_eq!(store.get_sub_device_sessions("alic"), Ok(vec![]));
    assert_eq!(store.get_sub_device_sessions("bob"), Ok(vec![]));
}

#[test]
fn sub_devices_of_abc_and_abcd_do_not_meet() {
    let mut store = SledConfigStore::temporary().unwrap();
    store.store_session(&address("abc", 7), &[1]).unwrap();
    store.store_session(&address("abcd", 8), &[2]).unwrap();
    assert_eq!(store.get_sub_device_sessions("abc"), Ok(vec![7]));
    assert_eq!(store.get_sub_device_sessions("abcd"), Ok(vec![8]));
    assert_eq!(store.get_sub_device_sessions("ab"), Ok(vec![]));
}

#[test]
fn sub_devices_come_in_the_order_of_their_keys() {
    let mut store = SledConfigStore::temporary().unwrap();
    for device_id in [2u32, 10, 1, 33, 4_000_000_000] {
        store.store_session(&address("alice", device_id), &[0]).unwrap();
    }
    assert_eq!(store.get_sub_device_sessions("alice"), Ok(vec![1, 10, 2, 33, 4_000_000_000]));
}

#[test]
fn sub_devices_of_no_sessions_are_none() {
    let store = SledConfigStore::temporary().unwrap();
    assert_eq!(store.get_sub_device_sessions("alice"), Ok(vec![]));
}

#[test]
fn sub_devices_pass_over_keys_that_do_not_end_in_a_number() {
    let mut store = SledConfigStore::temporary().unwrap();
    store.store_session(&address("alice", 3), &[1]).unwrap();
    store.store_session(&address("alice.x", 4), &[2]).unwrap();
    store.store_session(&address("alice.5", 6), &[3]).unwrap();
    store.store_session(&address("alice.", 7), &[4]).unwrap();
    assert_eq!(store.get_sub_device_sessions("alice"), Ok(vec![3]));
    assert_eq!(store.get_sub_device_sessions("alice.5"), Ok(vec![6]));
    assert_eq!(store.get_sub_device_sessions("alice."), Ok(vec![7]));
}

#[test]
fn device_ids_reads_the_number_after_the_prefix() {
    let keys = vec![
        b"session-alice.1".to_vec(),
        b"session-alice.".to_vec(),
        b"session-alice.+2".to_vec(),
        b"session-alice.003".to_vec(),
        b"session-alice.4x".to_vec(),
        b"session-alice.-5".to_vec(),
        b"session-alice. 6".to_vec(),
        b"session-alice.4294967295".to_vec(),
        b"session-alice.4294967296".to_vec(),
        b"session-alice.1.2".to_vec(),
        b"session-alicf.7".to_vec(),
        b"session-alice".to_vec(),
        b"".to_vec(),
        vec![115, 101, 115, 115, 105, 111, 110, 45, 97, 108, 105, 99, 101, 46, 255],
        b"session-alice.8".to_vec(),
    ];
    assert_eq!(device_ids(&keys, b"session-alice."), vec![1, 2, 3, 4_294_967_295, 8]);
    assert_eq!(device_ids(&keys, b"session-alice.1."), vec![2]);
    assert_eq!(device_ids(&keys, b"nothing"), Vec::<u32>::new());
    assert_eq!(device_ids(&Vec::new(), b"session-alice."), Vec::<u32>::new());
}

#[test]
fn device_ids_reads_numbers_as_the_standard_library_does() {
    let texts = [
        "", "0", "7", "42", "+42", "++42", "-42", "+", "-", "007", "4294967295", "4294967296",
        "99999999999", "000000000000000000001", "1 ", " 1", "1_0", "0x10", "1e3", "٣", "12a", "a12",
    ];
    for text in texts {
        let key = format!("p{}", text).into_bytes();
        let expected: Vec<u32> = text.parse::<u32>().ok().into_iter().collect();
        assert_eq!(device_ids(&vec![key], b"p"), expected, "for {:?}", text);
    }
}

#[test]
fn session_that_was_deleted_is_none() {
    let mut store = SledConfigStore::temporary().unwrap();
    let alice = address("alice", 1);
    store.store_session(&alice, &[1]).unwrap();
    store.store_session(&address("alice", 2), &[2]).unwrap();
    assert_eq!(store.delete_session(&alice), Ok(()));
    assert_eq!(store.load_session(&alice), Ok(None));
    assert_eq!(store.load_session(&address("alice", 2)), Ok(Some(vec![2])));
    assert_eq!(store.get_sub_device_sessions("alice"), Ok(vec![2]));
}

#[test]
fn session_that_is_not_there_is_deleted_without_fault() {
    let mut store = SledConfigStore::temporary().unwrap();
    assert_eq!(store.delete_session(&address("alice", 1)), Ok(()));
}

#[test]
fn delete_all_sessions_counts_and_removes_every_session() {
    let mut store = SledConfigStore::temporary().unwrap();
    store.store_session(&address("alice", 1), &[1]).unwrap();
    store.store_session(&address("alice", 2), &[2]).unwrap();
    store.store_session(&address("bob", 1), &[3]).unwrap();
    assert_eq!(store.delete_all_sessions("alice"), Ok(3));
    assert_eq!(store.load_session(&address("alice", 1)), Ok(None));
    assert_eq!(store.load_session(&address("bob", 1)), Ok(None));
    assert_eq!(store.keys().unwrap().1, Vec::<String>::new());
    assert_eq!(store.delete_all_sessions("alice"), Ok(0));
}

#[test]
fn delete_all_sessions_does_not_ask_whose() {
    let mut store = SledConfigStore::temporary().unwrap();
    store.store_session(&address("alice", 1), &[1]).unwrap();
    store.store_session(&address("bob", 1), &[3]).unwrap();
    assert_eq!(store.delete_all_sessions("nobody"), Ok(2));
    assert_eq!(store.get_sub_device_sessions("alice"), Ok(vec![]));
    assert_eq!(store.get_sub_device_sessions("bob"), Ok(vec![]));
}

#[test]
fn delete_all_sessions_leaves_the_default_keyspace() {
    let mut store = SledConfigStore::temporary().unwrap();
    store.save_pre_key(1, &[1]).unwrap();
    store.save_identity(&address("alice", 1), &[5]).unwrap();
    store.store_session(&address("alice", 1), &[1]).unwrap();
    assert_eq!(store.delete_all_sessions("alice"), Ok(1));
    assert_eq!(store.get_pre_key(1), Ok(vec![1]));
    assert_eq!(store.get_identity(&address("alice", 1)), Ok(Some(vec![5])));
}
