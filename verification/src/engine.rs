//! The storage engine.
//!
//! The store keeps its data in `sled`: an embedded database of independent
//! keyspaces ("trees"), each an ordered map from byte strings to byte strings.
//! This module is the whole boundary to it. Nothing in it is proved: every
//! function below hands one call to `sled`, and its contract states what the
//! verified store relies on. The contracts speak of what a keyspace holds
//! through [`tree_entries`], and of a keyspace that is reached through one
//! handle only: the store opens each of its keyspaces once and never shares
//! it, and the engine opens no database that is open already. Of where a
//! database and a keyspace are kept they speak through [`db_path`],
//! [`db_is_temporary`], [`tree_path`] and [`tree_name`], which a handle has
//! from its opening on.

use vstd::prelude::*;
use vstd::utf8::encode_utf8;
use crate::order::lists_keys;

verus! {

/// An open database.
#[verifier::external_type_specification]
#[verifier::external_body]
pub struct ExDb(sled::Db);

/// One keyspace of a database.
#[verifier::external_type_specification]
#[verifier::external_body]
pub struct ExTree(sled::Tree);

/// What a failed engine call reports.
#[verifier::external_type_specification]
#[verifier::external_body]
pub struct ExEngineError(sled::Error);

/// The entries that a keyspace holds: the value stored under each key.
pub uninterp spec fn tree_entries(tree: sled::Tree) -> Map<Seq<u8>, Seq<u8>>;

/// The path at which a database keeps its files.
pub uninterp spec fn db_path(db: sled::Db) -> Seq<char>;

/// Whether a database was opened as a temporary one, which is removed when
/// it is dropped.
pub uninterp spec fn db_is_temporary(db: sled::Db) -> bool;

/// The name under which a keyspace is kept in its database.
pub uninterp spec fn tree_name(tree: sled::Tree) -> Seq<u8>;

/// The path of the database to which a keyspace belongs.
pub uninterp spec fn tree_path(tree: sled::Tree) -> Seq<char>;

/// The name that the engine gives the default keyspace of every database.
pub open spec fn default_tree_name() -> Seq<u8> {
    encode_utf8("__sled__default"@)
}

/// The keyspace that holds nothing.
pub open spec fn no_entries() -> Map<Seq<u8>, Seq<u8>> {
    Map::empty()
}

/// The byte strings held by a vector of keys, in its order.
pub open spec fn key_list(keys: Vec<Vec<u8>>) -> Seq<Seq<u8>> {
    Seq::new(keys@.len(), |i: int| keys@[i]@)
}

/// `sled::open`: opens the database at `path`, creating it if there is none.
/// The database that it returns keeps its files at that path and is not a
/// temporary one. Nothing is claimed of what it holds.
#[verifier::external_body]
pub(crate) fn open_db(path: &str) -> (opened: Result<sled::Db, sled::Error>)
    ensures
        opened matches Ok(db) ==> db_path(db) == path@,
        opened matches Ok(db) ==> !db_is_temporary(db),
{
    sled::open(path)
}

/// `sled::Config::open` on a configuration made temporary: a database in a
/// place of the engine's choice, removed again when the database is dropped.
/// Nothing is claimed of what it holds.
#[verifier::external_body]
pub(crate) fn open_temporary_db() -> (opened: Result<sled::Db, sled::Error>)
    ensures
        opened matches Ok(db) ==> db_is_temporary(db),
{
    sled::Config::new().temporary(true).open()
}

/// `sled::Tree::clone` on the default keyspace, to which a `sled::Db`
/// dereferences: a handle of the keyspace of that database which the engine
/// keeps under its default name.
#[verifier::external_body]
pub(crate) fn default_tree(db: &sled::Db) -> (tree: sled::Tree)
    ensures
        tree_name(tree) == default_tree_name(),
        tree_path(tree) == db_path(*db),
{
    sled::Tree::clone(db)
}

/// `sled::Db::open_tree`: the keyspace of the database that is called
/// `name`, created if there is none.
#[verifier::external_body]
pub(crate) fn open_tree(db: &sled::Db, name: &str) -> (opened: Result<sled::Tree, sled::Error>)
    ensures
        opened matches Ok(tree) ==> tree_name(tree) == encode_utf8(name@),
        opened matches Ok(tree) ==> tree_path(tree) == db_path(*db),
{
    db.open_tree(name)
}

/// `sled::Tree::get`: the value stored under `key`, or `None` where the
/// keyspace holds no such key.
#[verifier::external_body]
pub(crate) fn tree_get(tree: &sled::Tree, key: &[u8]) -> (found: Result<
    Option<Vec<u8>>,
    sled::Error,
>)
    ensures
        match found {
            Ok(Some(value)) => tree_entries(*tree).contains_key(key@) && value@ == tree_entries(
                *tree,
            )[key@],
            Ok(None) => !tree_entries(*tree).contains_key(key@),
            Err(_) => true,
        },
{
    tree.get(key).map(|found| found.map(|value| value.to_vec()))
}

/// `sled::Tree::insert`: stores `value` under `key`, in place of what was
/// there. Where the call fails nothing is claimed of the keyspace.
#[verifier::external_body]
pub(crate) fn tree_insert(tree: &mut sled::Tree, key: &[u8], value: &[u8]) -> (done: Result<
    (),
    sled::Error,
>)
    ensures
        done is Ok ==> tree_entries(*final(tree)) == tree_entries(*old(tree)).insert(key@, value@),
{
    tree.insert(key, value).map(|_| ())
}

/// `sled::Tree::remove`: removes `key` and its value; a key that is not
/// there is no fault. Where the call fails nothing is claimed of the
/// keyspace.
#[verifier::external_body]
pub(crate) fn tree_remove(tree: &mut sled::Tree, key: &[u8]) -> (done: Result<(), sled::Error>)
    ensures
        done is Ok ==> tree_entries(*final(tree)) == tree_entries(*old(tree)).remove(key@),
{
    tree.remove(key).map(|_| ())
}

/// `sled::Tree::clear`: removes every entry, one after the other. Where it
/// fails on the way, some of the entries are left.
#[verifier::external_body]
pub(crate) fn tree_clear(tree: &mut sled::Tree) -> (done: Result<(), sled::Error>)
    ensures
        done is Ok ==> tree_entries(*final(tree)) == no_entries(),
        tree_entries(*final(tree)).submap_of(tree_entries(*old(tree))),
{
    tree.clear()
}

/// `sled::Tree::iter`: every key of the keyspace, in ascending order, or the
/// first fault that the walk met.
#[verifier::external_body]
pub(crate) fn tree_keys(tree: &sled::Tree) -> (listed: Result<Vec<Vec<u8>>, sled::Error>)
    ensures
        listed matches Ok(keys) ==> lists_keys(
            key_list(keys),
            tree_entries(*tree),
            Seq::<u8>::empty(),
        ),
{
    tree.iter().map(|entry| entry.map(|(key, _)| key.to_vec())).collect()
}

/// `sled::Tree::scan_prefix`: the keys that begin with `prefix`, in ascending
/// order, or the first fault that the walk met.
#[verifier::external_body]
pub(crate) fn tree_keys_with_prefix(tree: &sled::Tree, prefix: &[u8]) -> (listed: Result<
    Vec<Vec<u8>>,
    sled::Error,
>)
    ensures
        listed matches Ok(keys) ==> lists_keys(key_list(keys), tree_entries(*tree), prefix@),
{
    tree.scan_prefix(prefix).map(|entry| entry.map(|(key, _)| key.to_vec())).collect()
}

} // verus!
