//! Session records: one serialized record for each device of each peer, in
//! a keyspace of their own.

use vstd::prelude::*;
use vstd::string::*;
use crate::bytes::begins_with;
use crate::engine::{
    key_list, no_entries, tree_clear, tree_get, tree_insert, tree_keys, tree_keys_with_prefix,
    tree_remove,
};
use crate::error::SignalProtocolError;
use crate::keys::{
    address_text, lemma_cut_at_last_dot, lemma_encode_address, lemma_same_start,
    session_key_text, session_prefix_text, ProtocolAddress,
};
use crate::order::{
    holds_exactly, is_listed, lemma_listing_counts, lemma_listing_is_unique, listing,
};
use crate::outcome::{optional, written};
use crate::store::{bytes_of, key_bytes, stored, SledConfigStore};
use crate::text::{
    decimal, decimal_bytes, is_digit, lemma_decimal_bytes, lemma_decimal_len_bound,
    lemma_decimal_without_dot, lemma_encode_concat, lemma_encode_decimal, lemma_encode_injective,
    lemma_encode_without_dot, lemma_parse_decimal, parse_u32, parse_u32_from, unsigned_part,
};
use vstd::utf8::*;

verus! {

/// The device number that a key of the sessions gives under `prefix`: what
/// follows the prefix, read as a number. A key that does not begin with the
/// prefix, or goes on with something else than a number, gives none.
pub open spec fn device_id_of(key: Seq<u8>, prefix: Seq<u8>) -> Option<u32> {
    if prefix.is_prefix_of(key) {
        parse_u32(key.subrange(prefix.len() as int, key.len() as int))
    } else {
        None
    }
}

/// The device numbers that `keys` give under `prefix`, in the order of the
/// keys. A key that gives none is passed over.
pub open spec fn device_ids_of(keys: Seq<Seq<u8>>, prefix: Seq<u8>) -> Seq<u32>
    decreases keys.len(),
{
    if keys.len() == 0 {
        Seq::empty()
    } else {
        match device_id_of(keys.last(), prefix) {
            Some(id) => device_ids_of(keys.drop_last(), prefix).push(id),
            None => device_ids_of(keys.drop_last(), prefix),
        }
    }
}

/// The device numbers of the peer `name` with which `entries` holds a
/// session: those that the keys with the prefix of the peer give, in the
/// order of the keys.
pub open spec fn sub_devices(entries: Map<Seq<u8>, Seq<u8>>, name: Seq<char>) -> Seq<u32> {
    device_ids_of(
        listing(entries, key_bytes(session_prefix_text(name))),
        key_bytes(session_prefix_text(name)),
    )
}

/// Every key of `entries` is the key of a session.
pub open spec fn only_sessions(entries: Map<Seq<u8>, Seq<u8>>) -> bool {
    forall|key: Seq<u8>| #[trigger]
        entries.contains_key(key) ==> exists|name: Seq<char>, device: u32|
            key == key_bytes(#[trigger] session_key_text(name, device))
}

/// The device numbers that the keys of a scan give: of each key that begins
/// with `prefix` and goes on with a number, that number.
pub fn device_ids(keys: &Vec<Vec<u8>>, prefix: &[u8]) -> (ids: Vec<u32>)
    ensures
        ids@ == device_ids_of(key_list(*keys), prefix@),
{
    let mut ids: Vec<u32> = Vec::new();
    let mut at: usize = 0;
    while at < keys.len()
        invariant
            at <= keys@.len(),
            ids@ == device_ids_of(key_list(*keys).subrange(0, at as int), prefix@),
        decreases keys@.len() - at,
    {
        let key: &[u8] = keys[at].as_slice();
        let ghost seen = key_list(*keys).subrange(0, at + 1);
        assert(seen.drop_last() =~= key_list(*keys).subrange(0, at as int));
        assert(seen.last() == key@);
        if begins_with(key, prefix) {
            match parse_u32_from(key, prefix.len()) {
                Some(id) => {
                    ids.push(id);
                },
                None => {},
            }
        }
        at = at + 1;
    }
    assert(key_list(*keys).subrange(0, at as int) =~= key_list(*keys));
    ids
}

impl SledConfigStore {
    /// The session record of `address`, if one is stored.
    pub fn load_session(&self, address: &ProtocolAddress) -> (record: Result<
        Option<Vec<u8>>,
        SignalProtocolError,
    >)
        ensures
            match record {
                Ok(found) => bytes_of(found) == stored(
                    self.session_entries(),
                    session_key_text(address.name@, address.device_id),
                ),
                Err(e) => e == SignalProtocolError::InternalError("sled error"),
            },
    {
        let key = self.session_key(address);
        optional(tree_get(&self.sessions, key.as_str().as_bytes()), "sled error")
    }

    /// Stores `record` as the session of `address`, in place of what was
    /// there.
    pub fn store_session(&mut self, address: &ProtocolAddress, record: &[u8]) -> (done: Result<
        (),
        SignalProtocolError,
    >)
        ensures
            final(self).default_entries() == old(self).default_entries(),
            match done {
                Ok(()) => final(self).session_entries() == old(self).session_entries().insert(
                    key_bytes(session_key_text(address.name@, address.device_id)),
                    record@,
                ),
                Err(e) => e == SignalProtocolError::InternalError("sled error"),
            },
    {
        let key = self.session_key(address);
        written(tree_insert(&mut self.sessions, key.as_str().as_bytes(), record), "sled error")
    }

    /// The device numbers of the peer `name` with which a session is stored,
    /// in the order of their keys. A key that begins like those of the peer
    /// and does not go on with a number is passed over.
    pub fn get_sub_device_sessions(&self, name: &str) -> (devices: Result<
        Vec<u32>,
        SignalProtocolError,
    >)
        ensures
            match devices {
                Ok(ids) => ids@ == sub_devices(self.session_entries(), name@) && is_listed(
                    self.session_entries(),
                    key_bytes(session_prefix_text(name@)),
                ),
                Err(e) => e == SignalProtocolError::InternalError("sled error"),
            },
    {
        let session_prefix = self.session_prefix(name);
        let prefix: &[u8] = session_prefix.as_str().as_bytes();
        match tree_keys_with_prefix(&self.sessions, prefix) {
            Ok(keys) => {
                let ids = device_ids(&keys, prefix);
                proof {
                    lemma_listing_is_unique(key_list(keys), self.session_entries(), prefix@);
                }
                Ok(ids)
            },
            Err(_) => Err(SignalProtocolError::InternalError("sled error")),
        }
    }

    /// Removes the session of `address`. None stored for it is no fault.
    pub fn delete_session(&mut self, address: &ProtocolAddress) -> (done: Result<
        (),
        SignalProtocolError,
    >)
        ensures
            final(self).default_entries() == old(self).default_entries(),
            match done {
                Ok(()) => final(self).session_entries() == old(self).session_entries().remove(
                    key_bytes(session_key_text(address.name@, address.device_id)),
                ),
                Err(e) => e == SignalProtocolError::InternalError("failed to delete session"),
            },
    {
        let key = self.session_key(address);
        written(tree_remove(&mut self.sessions, key.as_str().as_bytes()), "failed to delete session")
    }

    /// Removes every session, whatever peer is named, and says how many
    /// there were. Where the sessions cannot be counted, none is removed.
    pub fn delete_all_sessions(&mut self, _name: &str) -> (removed: Result<
        usize,
        SignalProtocolError,
    >)
        ensures
            final(self).default_entries() == old(self).default_entries(),
            match removed {
                Ok(count) => holds_exactly(old(self).session_entries(), count as nat)
                    && final(self).session_entries() == no_entries(),
                Err(e) => e == SignalProtocolError::InternalError("failed to delete all sessions")
                    && final(self).session_entries().submap_of(old(self).session_entries()),
            },
    {
        let count: usize = match tree_keys(&self.sessions) {
            Ok(keys) => {
                proof {
                    lemma_listing_counts(key_list(keys), self.session_entries());
                }
                keys.len()
            },
            Err(_) => {
                return Err(SignalProtocolError::InternalError("failed to delete all sessions"));
            },
        };
        match tree_clear(&mut self.sessions) {
            Ok(()) => Ok(count),
            Err(_) => Err(SignalProtocolError::InternalError("failed to delete all sessions")),
        }
    }
}

/// The prefix of a peer begins the session key of each of its devices, as
/// text and as bytes, and the key goes on after it.
pub proof fn law_session_prefix_begins_its_keys(name: Seq<char>, device_id: u32)
    ensures
        session_prefix_text(name).is_prefix_of(session_key_text(name, device_id)),
        session_prefix_text(name).len() < session_key_text(name, device_id).len(),
        key_bytes(session_prefix_text(name)).is_prefix_of(
            key_bytes(session_key_text(name, device_id)),
        ),
{
    let prefix = session_prefix_text(name);
    let key = session_key_text(name, device_id);
    let digits = decimal(device_id as nat);
    lemma_decimal_len_bound(device_id as nat);
    assert(key =~= prefix + digits);
    assert(key.subrange(0, prefix.len() as int) =~= prefix);
    lemma_encode_concat(prefix, digits);
    assert(key_bytes(key).subrange(0, key_bytes(prefix).len() as int) =~= key_bytes(prefix));
}

/// The prefix of a peer begins no session key of another peer whose name
/// holds no dot: the dot after the name sets the names apart, even where
/// the one begins with the other.
pub proof fn law_session_prefix_tells_names_apart(
    peer: Seq<char>,
    name: Seq<char>,
    device_id: u32,
)
    requires
        !name.contains('.'),
        session_prefix_text(peer).is_prefix_of(session_key_text(name, device_id)),
    ensures
        peer == name,
{
    reveal_strlit(".");
    let tag = "session-"@;
    let prefix = session_prefix_text(peer);
    let key = session_key_text(name, device_id);
    let digits = decimal(device_id as nat);
    lemma_decimal_without_dot(device_id as nat);
    assert(key =~= tag + name + "."@ + digits);
    let dot = tag.len() + peer.len();
    assert(prefix[dot as int] == '.');
    assert(key.subrange(0, prefix.len() as int)[dot as int] == key[dot as int]);
    assert(key[dot as int] == '.');
    if peer.len() < name.len() {
        assert(key[dot as int] == name[peer.len() as int]);
        assert(name.contains(name[peer.len() as int]));
        assert(false);
    } else if peer.len() > name.len() {
        assert(key[dot as int] == digits[peer.len() - name.len() - 1]);
        assert(false);
    } else {
        assert forall|i: int| 0 <= i < peer.len() implies peer[i] == name[i] by {
            assert(prefix[tag.len() + i] == peer[i]);
            assert(key.subrange(0, prefix.len() as int)[tag.len() + i] == key[tag.len() + i]);
            assert(key[tag.len() + i] == name[i]);
        }
        assert(peer =~= name);
    }
}

/// As they are stored, too, the prefix of a peer begins no session key of
/// another peer whose name holds no dot.
pub proof fn law_session_prefix_tells_stored_names_apart(
    peer: Seq<char>,
    name: Seq<char>,
    device_id: u32,
)
    requires
        !name.contains('.'),
        key_bytes(session_prefix_text(peer)).is_prefix_of(
            key_bytes(session_key_text(name, device_id)),
        ),
    ensures
        peer == name,
{
    let tag = encode_utf8("session-"@);
    let digits = decimal_bytes(device_id as nat);
    let key = key_bytes(session_key_text(name, device_id));
    let prefix = key_bytes(session_prefix_text(peer));
    let stored_name = encode_utf8(name);
    let asked = encode_utf8(peer);
    assert(key == tag + (stored_name + seq![46u8] + digits)) by {
        lemma_encode_concat("session-"@, address_text(name, device_id));
        lemma_encode_address(name, device_id);
    }
    assert(prefix == tag + (asked + seq![46u8])) by {
        reveal_strlit(".");
        assert(is_ascii_chars("."@));
        is_ascii_chars_encode_utf8("."@);
        assert(encode_utf8("."@) =~= seq![46u8]);
        assert(session_prefix_text(peer) =~= "session-"@ + (peer + "."@));
        lemma_encode_concat("session-"@, peer + "."@);
        lemma_encode_concat(peer, "."@);
    }
    lemma_encode_without_dot(name);
    lemma_decimal_bytes(device_id as nat);
    let dot = tag.len() + asked.len();
    assert(prefix[dot as int] == 46);
    assert(key.subrange(0, prefix.len() as int)[dot as int] == key[dot as int]);
    if asked.len() < stored_name.len() {
        assert(key[dot as int] == stored_name[asked.len() as int]);
        assert(false);
    } else if asked.len() > stored_name.len() {
        assert(key[dot as int] == digits[asked.len() - stored_name.len() - 1]);
        assert(is_digit(digits[asked.len() - stored_name.len() - 1]));
        assert(false);
    } else {
        assert forall|i: int| 0 <= i < asked.len() implies asked[i] == stored_name[i] by {
            assert(prefix[tag.len() + i] == asked[i]);
            assert(key.subrange(0, prefix.len() as int)[tag.len() + i] == key[tag.len() + i]);
            assert(key[tag.len() + i] == stored_name[i]);
        }
        assert(asked =~= stored_name);
        lemma_encode_injective(peer, name);
    }
}

/// A text that is read as a number holds no dot.
proof fn lemma_number_without_dot(text: Seq<u8>)
    requires
        parse_u32(text) is Some,
    ensures
        forall|i: int| 0 <= i < text.len() ==> text[i] != 46,
{
    let digits = unsigned_part(text);
    assert forall|i: int| 0 <= i < text.len() implies text[i] != 46 by {
        if text[0] == 43 {
            if i > 0 {
                assert(is_digit(digits[i - 1]));
            }
        } else {
            assert(is_digit(digits[i]));
        }
    }
}

/// The key of a session gives the device number of its address under the
/// prefix of its own peer, and no number under the prefix of any other peer,
/// whatever the two names are.
pub proof fn lemma_session_key_device(name: Seq<char>, device_id: u32, peer: Seq<char>)
    ensures
        device_id_of(
            key_bytes(session_key_text(name, device_id)),
            key_bytes(session_prefix_text(peer)),
        ) == (if name == peer {
            Some(device_id)
        } else {
            None
        }),
{
    let tag = encode_utf8("session-"@);
    let digits = decimal_bytes(device_id as nat);
    let own = encode_utf8(name) + seq![46u8] + digits;
    let key = key_bytes(session_key_text(name, device_id));
    let prefix = key_bytes(session_prefix_text(peer));
    let asked = encode_utf8(peer) + seq![46u8];
    assert(key == tag + own) by {
        lemma_encode_concat("session-"@, address_text(name, device_id));
        lemma_encode_address(name, device_id);
    }
    assert(prefix == tag + asked) by {
        reveal_strlit(".");
        assert(is_ascii_chars("."@));
        is_ascii_chars_encode_utf8("."@);
        assert(encode_utf8("."@) =~= seq![46u8]);
        assert(session_prefix_text(peer) =~= "session-"@ + (peer + "."@));
        lemma_encode_concat("session-"@, peer + "."@);
        lemma_encode_concat(peer, "."@);
    }
    lemma_parse_decimal(device_id);
    lemma_encode_decimal(device_id as nat);
    lemma_decimal_bytes(device_id as nat);
    if name == peer {
        assert(key =~= prefix + digits);
        assert(key.subrange(0, prefix.len() as int) =~= prefix);
        assert(key.subrange(prefix.len() as int, key.len() as int) =~= digits);
    } else if prefix.is_prefix_of(key) {
        let rest = key.subrange(prefix.len() as int, key.len() as int);
        if parse_u32(rest) is Some {
            lemma_number_without_dot(rest);
            assert(key =~= prefix + rest);
            assert(tag + own =~= tag + (asked + rest));
            lemma_same_start(tag, own, asked + rest);
            assert(asked + rest =~= encode_utf8(peer) + seq![46u8] + rest);
            lemma_cut_at_last_dot(encode_utf8(name), digits, encode_utf8(peer), rest);
            lemma_encode_injective(name, peer);
        }
    }
}

/// A number is among the device numbers that keys give if and only if one
/// of the keys gives it.
pub proof fn lemma_device_ids_of(keys: Seq<Seq<u8>>, prefix: Seq<u8>, id: u32)
    ensures
        device_ids_of(keys, prefix).contains(id) <==> exists|i: int|
            0 <= i < keys.len() && device_id_of(#[trigger] keys[i], prefix) == Some(id),
    decreases keys.len(),
{
    if keys.len() > 0 {
        let before = keys.drop_last();
        lemma_device_ids_of(before, prefix, id);
        let ids = device_ids_of(keys, prefix);
        let ids_before = device_ids_of(before, prefix);
        if ids.contains(id) {
            let at = choose|at: int| 0 <= at < ids.len() && ids[at] == id;
            if at < ids_before.len() {
                assert(ids_before[at] == id);
                assert(ids_before.contains(id));
                let i = choose|i: int|
                    0 <= i < before.len() && device_id_of(#[trigger] before[i], prefix) == Some(id);
                assert(keys[i] == before[i]);
            } else {
                assert(device_id_of(keys[keys.len() - 1], prefix) == Some(id));
            }
        }
        if exists|i: int|
            0 <= i < keys.len() && device_id_of(#[trigger] keys[i], prefix) == Some(id) {
            let i = choose|i: int|
                0 <= i < keys.len() && device_id_of(#[trigger] keys[i], prefix) == Some(id);
            if i < before.len() {
                assert(before[i] == keys[i]);
                assert(ids_before.contains(id));
                let at = choose|at: int| 0 <= at < ids_before.len() && ids_before[at] == id;
                assert(ids[at] == id);
            } else {
                assert(ids[ids.len() - 1] == id);
            }
        }
    }
}

/// A keyspace that holds nothing but sessions still does once a session is
/// stored in it or anything is removed from it, and the empty keyspace is
/// such a keyspace.
pub proof fn law_sessions_stay_among_themselves(
    entries: Map<Seq<u8>, Seq<u8>>,
    fewer: Map<Seq<u8>, Seq<u8>>,
    name: Seq<char>,
    device_id: u32,
    record: Seq<u8>,
)
    requires
        only_sessions(entries),
        fewer.submap_of(entries),
    ensures
        only_sessions(no_entries()),
        only_sessions(entries.insert(key_bytes(session_key_text(name, device_id)), record)),
        only_sessions(entries.remove(key_bytes(session_key_text(name, device_id)))),
        only_sessions(fewer),
{
    let more = entries.insert(key_bytes(session_key_text(name, device_id)), record);
    assert forall|key: Seq<u8>| #[trigger] more.contains_key(key) implies exists|
        name: Seq<char>,
        device: u32,
    |
        key == key_bytes(#[trigger] session_key_text(name, device)) by {
        if key != key_bytes(session_key_text(name, device_id)) {
            assert(entries.contains_key(key));
        }
    }
    assert forall|key: Seq<u8>| #[trigger] fewer.contains_key(key) implies exists|
        name: Seq<char>,
        device: u32,
    |
        key == key_bytes(#[trigger] session_key_text(name, device)) by {
        assert(fewer.dom().contains(key));
        assert(entries.contains_key(key));
    }
}

/// The devices that are listed for a peer are those with which a session
/// is stored, where the keyspace holds nothing but sessions: the number of a
/// device is listed if and only if the session of the peer with that device
/// is stored. A session of another peer adds no number, even where the one
/// name begins with the other.
pub proof fn law_sub_device_sessions(
    entries: Map<Seq<u8>, Seq<u8>>,
    peer: Seq<char>,
    device_id: u32,
)
    requires
        is_listed(entries, key_bytes(session_prefix_text(peer))),
        only_sessions(entries),
    ensures
        sub_devices(entries, peer).contains(device_id) <==> entries.contains_key(
            key_bytes(session_key_text(peer, device_id)),
        ),
{
    let prefix = key_bytes(session_prefix_text(peer));
    let keys = listing(entries, prefix);
    let wanted = key_bytes(session_key_text(peer, device_id));
    lemma_device_ids_of(keys, prefix, device_id);
    if entries.contains_key(wanted) {
        lemma_session_key_device(peer, device_id, peer);
        assert(keys.contains(wanted));
        let i = choose|i: int| 0 <= i < keys.len() && keys[i] == wanted;
        assert(device_id_of(keys[i], prefix) == Some(device_id));
    }
    if device_ids_of(keys, prefix).contains(device_id) {
        let i = choose|i: int|
            0 <= i < keys.len() && device_id_of(#[trigger] keys[i], prefix) == Some(device_id);
        assert(keys.contains(keys[i]));
        assert(entries.contains_key(keys[i]));
        let (name, device) = choose|name: Seq<char>, device: u32|
            keys[i] == key_bytes(#[trigger] session_key_text(name, device));
        lemma_session_key_device(name, device, peer);
    }
}

} // verus!
