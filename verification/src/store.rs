//! The store and its plain operations: one value under one key of the
//! default keyspace.

use vstd::prelude::*;
use vstd::string::*;
use vstd::utf8::*;
use crate::engine::{
    db_is_temporary, db_path, default_tree, default_tree_name, key_list, open_db,
    open_temporary_db, open_tree, tree_entries, tree_get, tree_insert, tree_keys, tree_name,
    tree_path, tree_remove,
};
use crate::error::{SignalProtocolError, StoreError};
use crate::order::{is_listed, lemma_listing_is_unique, listing};
use crate::text::{bytes_to_text, lemma_encode_injective, text_of};

verus! {

/// The name of the keyspace that holds the session records.
pub const SLED_TREE_SESSIONS: &'static str = "sessions";

/// The persistent state of a messaging client: registration, counters,
/// pre-keys, identities and contacts in the default keyspace, session records
/// in a keyspace of their own.
#[derive(Debug)]
pub struct SledConfigStore {
    /// The open database, held for as long as its keyspaces are used.
    pub(crate) db: sled::Db,
    /// The default keyspace.
    pub(crate) tree: sled::Tree,
    /// The keyspace of the sessions.
    pub(crate) sessions: sled::Tree,
}

/// The bytes under which a key text is stored: its UTF-8 encoding.
pub open spec fn key_bytes(key: Seq<char>) -> Seq<u8> {
    encode_utf8(key)
}

/// What `entries` holds under the key text `key`.
pub open spec fn stored(entries: Map<Seq<u8>, Seq<u8>>, key: Seq<char>) -> Option<Seq<u8>> {
    if entries.contains_key(key_bytes(key)) {
        Some(entries[key_bytes(key)])
    } else {
        None
    }
}

/// The bytes of a value that may be missing.
pub open spec fn bytes_of(value: Option<Vec<u8>>) -> Option<Seq<u8>> {
    match value {
        Some(bytes) => Some(bytes@),
        None => None,
    }
}

/// The texts held by a vector of strings, in its order.
pub open spec fn text_list(texts: Vec<String>) -> Seq<Seq<char>> {
    Seq::new(texts@.len(), |i: int| texts@[i]@)
}

/// The texts that keys are shown as, in the order of the keys.
pub open spec fn texts_of(keys: Seq<Seq<u8>>) -> Seq<Seq<char>> {
    Seq::new(keys.len(), |i: int| text_of(keys[i]))
}

/// The keyspace of the sessions is not the default keyspace: the two are
/// kept under different names.
pub proof fn law_sessions_have_a_keyspace_of_their_own()
    ensures
        default_tree_name() != key_bytes(SLED_TREE_SESSIONS@),
{
    reveal_strlit("__sled__default");
    reveal_strlit("sessions");
    if default_tree_name() == key_bytes(SLED_TREE_SESSIONS@) {
        lemma_encode_injective("__sled__default"@, SLED_TREE_SESSIONS@);
    }
}

/// A key that was written as text is listed as that text.
pub proof fn law_key_is_listed_as_written(key: Seq<char>)
    ensures
        text_of(key_bytes(key)) == key,
{
    encode_utf8_valid_utf8(key);
    encode_utf8_decode_utf8(key);
}

/// The keys as texts, in their order.
fn key_texts(keys: &Vec<Vec<u8>>) -> (texts: Vec<String>)
    ensures
        text_list(texts) == texts_of(key_list(*keys)),
{
    let mut texts: Vec<String> = Vec::new();
    let mut at: usize = 0;
    while at < keys.len()
        invariant
            at <= keys@.len(),
            texts@.len() == at,
            forall|i: int| 0 <= i < at ==> (#[trigger] texts@[i])@ == text_of(keys@[i]@),
        decreases keys@.len() - at,
    {
        texts.push(bytes_to_text(keys[at].as_slice()));
        at = at + 1;
    }
    assert(text_list(texts) =~= texts_of(key_list(*keys)));
    texts
}

impl SledConfigStore {
    /// The entries of the default keyspace.
    pub open(crate) spec fn default_entries(&self) -> Map<Seq<u8>, Seq<u8>> {
        tree_entries(self.tree)
    }

    /// The entries of the keyspace of sessions.
    pub open(crate) spec fn session_entries(&self) -> Map<Seq<u8>, Seq<u8>> {
        tree_entries(self.sessions)
    }

    /// The path at which the store keeps its files.
    pub open(crate) spec fn path(&self) -> Seq<char> {
        db_path(self.db)
    }

    /// Whether the store is a temporary one, which is gone when it is
    /// dropped.
    pub open(crate) spec fn is_temporary(&self) -> bool {
        db_is_temporary(self.db)
    }

    /// The store is laid out in two keyspaces of its database: the default
    /// keyspace, and apart from it the keyspace called
    /// [`SLED_TREE_SESSIONS`].
    pub open(crate) spec fn is_laid_out(&self) -> bool {
        &&& tree_path(self.tree) == db_path(self.db)
        &&& tree_name(self.tree) == default_tree_name()
        &&& tree_path(self.sessions) == db_path(self.db)
        &&& tree_name(self.sessions) == key_bytes(SLED_TREE_SESSIONS@)
    }

    /// Opens the store at `path`, creating it if there is none: a lasting
    /// store that keeps its files there.
    pub fn new(path: &str) -> (opened: Result<Self, StoreError>)
        ensures
            opened matches Ok(store) ==> store.path() == path@ && !store.is_temporary()
                && store.is_laid_out(),
            opened matches Err(e) ==> e is DbError,
    {
        match open_db(path) {
            Ok(db) => Self::over(db),
            Err(e) => Err(StoreError::DbError(e)),
        }
    }

    /// Opens a store that is gone again when it is dropped.
    pub fn temporary() -> (opened: Result<Self, StoreError>)
        ensures
            opened matches Ok(store) ==> store.is_temporary() && store.is_laid_out(),
            opened matches Err(e) ==> e is DbError,
    {
        match open_temporary_db() {
            Ok(db) => Self::over(db),
            Err(e) => Err(StoreError::DbError(e)),
        }
    }

    /// The store over an open database: the database itself, its default
    /// keyspace and its keyspace of sessions, which is opened for it.
    fn over(db: sled::Db) -> (opened: Result<Self, StoreError>)
        ensures
            opened matches Ok(store) ==> store.db == db && store.is_laid_out(),
            opened matches Err(e) ==> e is DbError,
    {
        let tree = default_tree(&db);
        match open_tree(&db, SLED_TREE_SESSIONS) {
            Ok(sessions) => Ok(SledConfigStore { db, tree, sessions }),
            Err(e) => Err(StoreError::DbError(e)),
        }
    }

    /// Reads the value under `key` in the default keyspace.
    pub fn get(&self, key: &str) -> (found: Result<Option<Vec<u8>>, StoreError>)
        ensures
            found matches Ok(value) ==> bytes_of(value) == stored(self.default_entries(), key@),
            found matches Err(e) ==> e is DbError,
    {
        match tree_get(&self.tree, key.as_bytes()) {
            Ok(value) => Ok(value),
            Err(e) => Err(StoreError::DbError(e)),
        }
    }

    /// Stores `value` under `key` in the default keyspace, in place of what
    /// was there.
    pub fn insert(&mut self, key: &str, value: &[u8]) -> (done: Result<(), StoreError>)
        ensures
            final(self).session_entries() == old(self).session_entries(),
            done is Ok ==> final(self).default_entries() == old(self).default_entries().insert(
                key_bytes(key@),
                value@,
            ),
            done matches Err(e) ==> e is DbError,
    {
        match tree_insert(&mut self.tree, key.as_bytes(), value) {
            Ok(()) => Ok(()),
            Err(e) => Err(StoreError::DbError(e)),
        }
    }

    /// Removes `key` and its value from the default keyspace. A key that is
    /// not there is no fault.
    pub fn remove(&mut self, key: &str) -> (done: Result<(), StoreError>)
        ensures
            final(self).session_entries() == old(self).session_entries(),
            done is Ok ==> final(self).default_entries() == old(self).default_entries().remove(
                key_bytes(key@),
            ),
            done matches Err(e) ==> e is DbError,
    {
        match tree_remove(&mut self.tree, key.as_bytes()) {
            Ok(()) => Ok(()),
            Err(e) => Err(StoreError::DbError(e)),
        }
    }

    /// Every key of the store as text: those of the default keyspace, and
    /// those of the sessions, each in ascending order of the stored bytes.
    pub fn keys(&self) -> (listed: Result<(Vec<String>, Vec<String>), SignalProtocolError>)
        ensures
            match listed {
                Ok((global_keys, session_keys)) => {
                    &&& is_listed(self.default_entries(), Seq::empty())
                    &&& is_listed(self.session_entries(), Seq::empty())
                    &&& text_list(global_keys) == texts_of(
                        listing(self.default_entries(), Seq::empty()),
                    )
                    &&& text_list(session_keys) == texts_of(
                        listing(self.session_entries(), Seq::empty()),
                    )
                },
                Err(e) => e == SignalProtocolError::InternalError("sled error"),
            },
    {
        let global_keys = match tree_keys(&self.tree) {
            Ok(keys) => keys,
            Err(_) => {
                return Err(SignalProtocolError::InternalError("sled error"));
            },
        };
        let session_keys = match tree_keys(&self.sessions) {
            Ok(keys) => keys,
            Err(_) => {
                return Err(SignalProtocolError::InternalError("sled error"));
            },
        };
        let global_texts = key_texts(&global_keys);
        let session_texts = key_texts(&session_keys);
        proof {
            lemma_listing_is_unique(key_list(global_keys), self.default_entries(), Seq::empty());
            lemma_listing_is_unique(key_list(session_keys), self.session_entries(), Seq::empty());
        }
        Ok((global_texts, session_texts))
    }
}

} // verus!
