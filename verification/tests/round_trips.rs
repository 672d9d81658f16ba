use signal_store::{Direction, ProtocolAddress, SledConfigStore, StoreError};

fn addresses() -> Vec<ProtocolAddress> {
    let names = ["", "alice", "alicebob", "+15551234567", "a.b", "zoë", ".", "session-", "名前", " "];
    let devices = [0u32, 1, 2, 10, 255, 4_294_967_295];
    let mut addresses = Vec::new();
    for name in names {
        for device_id in devices {
            addresses.push(ProtocolAddress::new(name.to_string(), device_id));
        }
    }
    addresses
}

fn records() -> Vec<Vec<u8>> {
    vec![vec![], vec![0], vec![5, 1, 2, 3], (0u8..=255).collect(), vec![255; 1000]]
}

#[test]
fn test_save_get_trust_identity() {
    for address in addresses() {
        for identity_key in records() {
            let mut db = SledConfigStore::temporary().unwrap();
            db.save_identity(&address, &identity_key).unwrap();
            let id = db.get_identity(&address).unwrap().unwrap();
            assert_eq!(id, identity_key);
            assert!(db.is_trusted_identity(&address, &id, Direction::Receiving).unwrap());
        }
    }
}

#[test]
fn test_store_load_session() {
    for address in addresses() {
        for session in records() {
            let mut db = SledConfigStore::temporary().unwrap();
            db.store_session(&address, &session).unwrap();
            assert!(db.load_session(&address).unwrap().is_some());
            let loaded_session = db.load_session(&address).unwrap().unwrap();
            assert_eq!(session, loaded_session);
        }
    }
}

#[test]
fn test_prekey_store() {
    let mut db = SledConfigStore::temporary().unwrap();
    for id in [0u32, 1, 9, 10, 999_999_999, 1_000_000_000, u32::MAX] {
        for pre_key_record in records() {
            db.save_pre_key(id, &pre_key_record).unwrap();
            assert_eq!(db.get_pre_key(id).unwrap(), pre_key_record);
            db.remove_pre_key(id).unwrap();
            assert!(db.get_pre_key(id).is_err());
        }
    }
}

#[test]
fn test_signed_prekey_store() {
    let mut db = SledConfigStore::temporary().unwrap();
    for id in [0u32, 1, 9, 10, 999_999_999, 1_000_000_000, u32::MAX] {
        for signed_pre_key_record in records() {
            db.save_signed_pre_key(id, &signed_pre_key_record).unwrap();
            assert_eq!(db.get_signed_pre_key(id).unwrap(), signed_pre_key_record);
        }
    }
}

#[test]
fn sessions_of_all_addresses_are_apart() {
    let mut db = SledConfigStore::temporary().unwrap();
    let addresses = addresses();
    for (at, address) in addresses.iter().enumerate() {
        db.store_session(address, &at.to_string().into_bytes()).unwrap();
    }
    for (at, address) in addresses.iter().enumerate() {
        assert_eq!(db.load_session(address).unwrap(), Some(at.to_string().into_bytes()));
    }
    assert_eq!(db.delete_all_sessions("alice"), Ok(addresses.len()));
}

#[test]
fn sub_devices_are_those_of_the_name_for_all_names() {
    let mut db = SledConfigStore::temporary().unwrap();
    for address in addresses() {
        db.store_session(&address, &[1]).unwrap();
    }
    for name in ["", "alice", "alicebob", "+15551234567", "a.b", "zoë", ".", "session-", "名前", " "] {
        let mut devices = db.get_sub_device_sessions(name).unwrap();
        devices.sort();
        assert_eq!(devices, vec![0, 1, 2, 10, 255, 4_294_967_295], "for {:?}", name);
    }
    assert_eq!(db.get_sub_device_sessions("a"), Ok(vec![]));
    assert_eq!(db.get_sub_device_sessions("alic"), Ok(vec![]));
}

#[test]
fn store_errors_are_made_of_engine_and_decoder_errors() {
    let engine = sled::Error::Unsupported("switched off".to_string());
    assert!(matches!(StoreError::from(engine), StoreError::DbError(_)));
    let decoder = serde_json::from_slice::<bool>(b"maybe").unwrap_err();
    assert!(matches!(StoreError::from(decoder), StoreError::JsonError(_)));
}
