//! What holds of the store from one operation to the next.
//!
//! The operations say what they do to the entries of a keyspace. The laws
//! below are about those entries: what is found after something was written,
//! and what a write leaves alone.

use vstd::prelude::*;
use vstd::bytes::{lemma_auto_spec_u32_to_from_le_bytes, spec_u32_to_le_bytes};
use crate::config::{counter_read, counter_value};
use crate::identity::trusts;
use crate::keys::{
    identity_key_text, lemma_record_key_injective, lemma_session_key_injective, prekey_key_text,
    record_key_text, session_key_text, signed_prekey_key_text, Record,
};
use crate::store::{key_bytes, stored};
use crate::text::lemma_encode_injective;

verus! {

/// An identity that was saved for an address is the one that is read for it,
/// and the key that was saved is trusted.
pub proof fn law_saved_identity_is_read_and_trusted(
    entries: Map<Seq<u8>, Seq<u8>>,
    name: Seq<char>,
    device_id: u32,
    identity_key: Seq<u8>,
)
    ensures
        ({
            let saved = entries.insert(
                key_bytes(identity_key_text(name, device_id)),
                identity_key,
            );
            &&& stored(saved, identity_key_text(name, device_id)) == Some(identity_key)
            &&& trusts(stored(saved, identity_key_text(name, device_id)), identity_key)
        }),
{
}

/// Any key is trusted for an address of which no identity is on file.
pub proof fn law_first_sight_is_trusted(
    entries: Map<Seq<u8>, Seq<u8>>,
    name: Seq<char>,
    device_id: u32,
    identity_key: Seq<u8>,
)
    requires
        stored(entries, identity_key_text(name, device_id)) is None,
    ensures
        trusts(stored(entries, identity_key_text(name, device_id)), identity_key),
{
}

/// Once an identity is on file for an address, no other key is trusted.
pub proof fn law_other_key_is_not_trusted(
    entries: Map<Seq<u8>, Seq<u8>>,
    name: Seq<char>,
    device_id: u32,
    identity_key: Seq<u8>,
    other_key: Seq<u8>,
)
    requires
        other_key != identity_key,
    ensures
        !trusts(
            stored(
                entries.insert(key_bytes(identity_key_text(name, device_id)), identity_key),
                identity_key_text(name, device_id),
            ),
            other_key,
        ),
{
}

/// A session record that was stored for an address is the one that is
/// loaded for it.
pub proof fn law_stored_session_is_loaded(
    entries: Map<Seq<u8>, Seq<u8>>,
    name: Seq<char>,
    device_id: u32,
    record: Seq<u8>,
)
    ensures
        stored(
            entries.insert(key_bytes(session_key_text(name, device_id)), record),
            session_key_text(name, device_id),
        ) == Some(record),
{
}

/// Storing or deleting the session of one address leaves the session of
/// every other address as it was.
pub proof fn law_sessions_are_apart(
    entries: Map<Seq<u8>, Seq<u8>>,
    name: Seq<char>,
    device_id: u32,
    other_name: Seq<char>,
    other_device_id: u32,
    record: Seq<u8>,
)
    requires
        name != other_name || device_id != other_device_id,
    ensures
        stored(
            entries.insert(key_bytes(session_key_text(name, device_id)), record),
            session_key_text(other_name, other_device_id),
        ) == stored(entries, session_key_text(other_name, other_device_id)),
        stored(
            entries.remove(key_bytes(session_key_text(name, device_id))),
            session_key_text(other_name, other_device_id),
        ) == stored(entries, session_key_text(other_name, other_device_id)),
{
    if key_bytes(session_key_text(name, device_id)) == key_bytes(
        session_key_text(other_name, other_device_id),
    ) {
        lemma_encode_injective(
            session_key_text(name, device_id),
            session_key_text(other_name, other_device_id),
        );
        lemma_session_key_injective(name, device_id, other_name, other_device_id);
    }
}

/// A pre-key that was saved under an identifier is the one that is found
/// there, and none is found there once it was removed.
pub proof fn law_saved_pre_key_is_found_until_removed(
    entries: Map<Seq<u8>, Seq<u8>>,
    id: u32,
    record: Seq<u8>,
)
    ensures
        ({
            let saved = entries.insert(key_bytes(prekey_key_text(id)), record);
            let removed = saved.remove(key_bytes(prekey_key_text(id)));
            &&& stored(saved, prekey_key_text(id)) == Some(record)
            &&& stored(removed, prekey_key_text(id)) is None
        }),
{
}

/// A signed pre-key that was saved under an identifier is the one that is
/// found there.
pub proof fn law_saved_signed_pre_key_is_found(
    entries: Map<Seq<u8>, Seq<u8>>,
    id: u32,
    record: Seq<u8>,
)
    ensures
        stored(
            entries.insert(key_bytes(signed_prekey_key_text(id)), record),
            signed_prekey_key_text(id),
        ) == Some(record),
{
}

/// A counter that was set to a number stands at that number.
pub proof fn law_counter_stands_as_set(entries: Map<Seq<u8>, Seq<u8>>, key: Seq<char>, n: u32)
    ensures
        counter_read(stored(entries.insert(key_bytes(key), spec_u32_to_le_bytes(n)), key)) == Ok::<
            Option<u32>,
            (),
        >(Some(n)),
        counter_value(stored(entries.insert(key_bytes(key), spec_u32_to_le_bytes(n)), key)) == Ok::<
            u32,
            (),
        >(n),
{
    lemma_auto_spec_u32_to_from_le_bytes();
}

/// The records of the default keyspace are apart: writing or removing one
/// record leaves every other record as it was, whatever the kinds of the two.
pub proof fn law_records_are_apart(
    entries: Map<Seq<u8>, Seq<u8>>,
    written: Record,
    other: Record,
    value: Seq<u8>,
)
    requires
        written != other,
    ensures
        stored(entries.insert(key_bytes(record_key_text(written)), value), record_key_text(other))
            == stored(entries, record_key_text(other)),
        stored(entries.remove(key_bytes(record_key_text(written))), record_key_text(other))
            == stored(entries, record_key_text(other)),
{
    if key_bytes(record_key_text(written)) == key_bytes(record_key_text(other)) {
        lemma_encode_injective(record_key_text(written), record_key_text(other));
        lemma_record_key_injective(written, other);
    }
}

} // verus!
