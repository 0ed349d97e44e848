//! A registry of independently configured, named in-memory caches.
//!
//! The registry owns a set of live caches, each created under a unique name
//! with an eviction policy chosen at creation time, and routes key/value
//! operations to the right cache instance. Cache instances are shared by
//! reference counting, so a handle obtained before a concurrent removal
//! stays valid until the last operation against it completes. Both the
//! registry's name map and each cache's own data sit behind a verified
//! reader-writer lock, so creation, deletion and lookup are linearizable
//! and the uniqueness of names is an invariant of every reachable state.

pub mod cache;
pub mod errors;
pub mod handlers;
pub mod registry;
pub mod request_types;
pub mod state;
pub mod store;
pub mod text;
