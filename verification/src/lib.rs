//! Persistent state of a secure messaging client: registration, counters,
//! pre-keys, identities, contacts and sessions in an embedded key-value
//! store, and a cache of one value.

pub mod bytes;
pub mod cache;
pub mod config;
pub mod engine;
pub mod error;
pub mod identity;
pub mod keys;
pub mod laws;
pub mod order;
pub mod outcome;
pub mod prekeys;
pub mod sessions;
pub mod store;
pub mod text;

pub use cache::CacheMutex;
pub use config::State;
pub use error::{SignalProtocolError, StoreError};
pub use identity::{Direction, IdentityKeyPair};
pub use keys::ProtocolAddress;
pub use store::SledConfigStore;
