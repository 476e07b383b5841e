//! The offline-capable data layer of a desktop client: a keyed cache of
//! backend responses, the requests sent to the backend, and the policy that
//! decides when to answer from the cache and when to fetch.
pub mod backend;
pub mod naming;
pub mod proxy;
pub mod store;
