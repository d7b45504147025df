//! A batch of staged puts and deletes, applied to a store all at once.
use vstd::prelude::*;
use vstd::string::StringSliceAdditionalSpecFns;
use crate::model::no_writes;

verus! {

#[verifier::external_type_specification]
#[verifier::external_body]
pub struct ExSledBatch(sled::Batch);

/// The writes staged in a sled batch: for each key, the value it will be set
/// to, or `None` where the key will be removed.
pub uninterp spec fn batch_writes(b: sled::Batch) -> Map<Seq<u8>, Option<Seq<u8>>>;

/// Relies on `sled::Batch::default`: a new batch stages nothing.
#[verifier::external_body]
fn sled_batch_new() -> (r: sled::Batch)
    ensures
        batch_writes(r) == no_writes(),
{
    sled::Batch::default()
}

/// Relies on `sled::Batch::insert`: the key is staged to be set to the value,
/// replacing what was staged for it before.
#[verifier::external_body]
fn sled_batch_insert(b: &mut sled::Batch, k: &[u8], v: &[u8])
    ensures
        batch_writes(*final(b)) == batch_writes(*old(b)).insert(k@, Some(v@)),
{
    b.insert(k, v)
}

/// Relies on `sled::Batch::remove`: the key is staged to be removed,
/// replacing what was staged for it before.
#[verifier::external_body]
fn sled_batch_remove(b: &mut sled::Batch, k: &[u8])
    ensures
        batch_writes(*final(b)) == batch_writes(*old(b)).insert(k@, None),
{
    b.remove(k)
}

/// Staged writes, last write per key wins. A batch touches no store until it
/// is applied, and applying it leaves it as it is.
pub struct WriteBatch {
    pub(crate) ops: sled::Batch,
}

impl View for WriteBatch {
    type V = Map<Seq<u8>, Option<Seq<u8>>>;

    open(crate) spec fn view(&self) -> Map<Seq<u8>, Option<Seq<u8>>> {
        batch_writes(self.ops)
    }
}

impl WriteBatch {
    /// An empty batch.
    pub fn new() -> (r: WriteBatch)
        ensures
            r@ == no_writes(),
    {
        WriteBatch { ops: sled_batch_new() }
    }

    /// Stages a put of `value` under `key`, overriding any earlier staged
    /// operation on `key`.
    pub fn insert(&mut self, key: &str, value: &str)
        ensures
            final(self)@ == old(self)@.insert(key.spec_bytes(), Some(value.spec_bytes())),
    {
        sled_batch_insert(&mut self.ops, key.as_bytes(), value.as_bytes());
    }

    /// Stages a delete of `key`, overriding any earlier staged operation on
    /// `key`.
    pub fn remove(&mut self, key: &str)
        ensures
            final(self)@ == old(self)@.insert(key.spec_bytes(), None),
    {
        sled_batch_remove(&mut self.ops, key.as_bytes());
    }
}

} // verus!
