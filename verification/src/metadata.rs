//! The precursor record of a session that goes through an archive: the
//! snapshot on which the archive is based. The side that loads the archive
//! and goes on replicating has no other way to learn it.

use crate::text::{pool_part, snapshot_pool};
use vstd::prelude::*;

verus! {

/// The record that goes with an archive.
#[derive(Debug)]
pub struct RemoteMetadata {
    /// The identifier of the snapshot on which the archive is based.
    pub precursor_snap: String,
}

impl RemoteMetadata {
    /// The record that names `precursor`.
    pub fn new(precursor: String) -> (r: RemoteMetadata)
        ensures
            r.precursor_snap@ == precursor@,
    {
        RemoteMetadata { precursor_snap: precursor }
    }

    /// The snapshot that the record names.
    pub fn precursor(&self) -> (r: String)
        ensures
            r@ == self.precursor_snap@,
    {
        self.precursor_snap.clone()
    }

    /// The pool of the snapshot that the record names.
    pub fn pool(&self) -> (r: String)
        ensures
            r@ == pool_part(self.precursor_snap@),
    {
        snapshot_pool(self.precursor_snap.as_str())
    }
}

} // verus!
