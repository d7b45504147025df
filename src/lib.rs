//! An embedded, ordered key-value store with atomic batches and paginated
//! range scans, built over sled.
//!
//! Keys and values are text at the call surface and bytes underneath; keys
//! are ordered byte-lexicographically. The contents of a store are modelled
//! as a `Map<Seq<u8>, Seq<u8>>`, a batch as a map from keys to staged writes
//! (`Some(value)` to put, `None` to delete).
use vstd::prelude::*;

pub mod model;
pub mod batch;
pub mod store;
pub mod laws;

pub use batch::WriteBatch;
pub use store::{Config, Page, Store, StoreError};

verus! {

/// A value handed across the host boundary as an owned resource.
pub struct Wrapped<T> {
    pub value: T,
}

impl<T> Wrapped<T> {
    pub fn new(value: T) -> (r: Wrapped<T>)
        ensures
            r.value == value,
    {
        Wrapped { value: value }
    }
}

} // verus!
