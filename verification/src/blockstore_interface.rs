//! The host-supplied storage capability: the bundle of callbacks the host
//! hands in with each operation, seen from this side as a single interface
//! with a put and a get, plus the two release callbacks through which the
//! host frees what it allocated for an answer.

use crate::c_types::{RustBytes, RustResult, RustVoid};
use vstd::prelude::*;

verus! {

/// What the host must implement to supply block storage.
///
/// The contracts state the ownership half of the boundary protocol, which
/// every host implementation is trusted to uphold: an answer hands this side
/// fresh envelopes, never ones that were already released. Nothing is
/// promised about success or content; a host may fail any call, and the
/// bridge propagates that failure as data.
///
/// After an answer has been read, the whole result envelope is handed back
/// through the matching `dealloc_after_*` callback, so the host can free
/// its own allocation exactly once.
pub trait BlockStoreInterface: Sized {
    /// Stores the block `bytes` under the key `cid`.
    fn put(&mut self, cid: RustBytes, bytes: RustBytes) -> (r: RustResult<RustVoid>)
        ensures
            !r.err.is_released(),
    ;

    /// Retrieves the block stored under the key `cid`.
    fn get(&mut self, cid: RustBytes) -> (r: RustResult<RustBytes>)
        ensures
            !r.err.is_released(),
            !r.result.is_released(),
    ;

    /// Gives a `get` answer back to the host for release.
    fn dealloc_after_get(&mut self, data: RustResult<RustBytes>);

    /// Gives a `put` answer back to the host for release.
    fn dealloc_after_put(&mut self, data: RustResult<RustVoid>);
}

} // verus!
