//! A read-through cache of digit-string keys and values, shared by the
//! lookup front-ends, with single-flight backfill of missing keys.
pub mod key;
pub mod store;
pub mod records;
pub mod registry;
pub mod lookup;
pub mod service;
pub mod mock;
pub mod laws;
