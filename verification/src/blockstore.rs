//! The storage-callback bridge: adapts the host's callback bundle into the
//! synchronous block-store capability the engine expects. Each call makes
//! exactly one host callback, decodes or propagates its answer, and hands
//! the answer envelope back to the host for release.

use crate::blockstore_interface::BlockStoreInterface;
use crate::c_types::{error_text, RustBytes, RustResult, RustVoid};
use vstd::prelude::*;

verus! {

/// Decides what a `get` answer means: a failure becomes an error carrying
/// the message the host sent (or the fixed fallback when that message is
/// not valid text), a success becomes the fetched bytes. A failed fetch
/// never yields a partial payload.
pub fn bridge_get_response(data: &RustResult<RustBytes>) -> (r: Result<Vec<u8>, String>)
    requires
        !data.err.is_released(),
        !data.result.is_released(),
    ensures
        data.ok ==> (r matches Ok(v) && v@ == data.result.spec_content()),
        !data.ok ==> (r matches Err(m) && m@ == error_text(data.err)),
{
    if data.is_ok() {
        Ok(data.result.decode())
    } else {
        Err(data.err.decode_or_fallback())
    }
}

/// Decides what a `put` answer means: a failure becomes an error carrying
/// the message the host sent, a success carries nothing.
pub fn bridge_put_response(data: &RustResult<RustVoid>) -> (r: Result<(), String>)
    requires
        !data.err.is_released(),
    ensures
        data.ok ==> r is Ok,
        !data.ok ==> (r matches Err(m) && m@ == error_text(data.err)),
{
    if data.is_ok() {
        Ok(())
    } else {
        Err(data.err.decode_or_fallback())
    }
}

/// The bridge: owns the host's callback bundle for the duration of one
/// engine operation and serves every block fetch and store the engine
/// issues, strictly one at a time.
pub struct BridgedStore<I: BlockStoreInterface> {
    pub block_store_interface: I,
}

impl<I: BlockStoreInterface> BridgedStore<I> {
    pub fn new(block_store_interface: I) -> (r: BridgedStore<I>)
        ensures
            r == (BridgedStore { block_store_interface }),
    {
        BridgedStore { block_store_interface }
    }

    /// Retrieves the block stored under `cid`: exactly one host fetch, no
    /// caching, no retries. What the answer means is decided by
    /// `bridge_get_response`, whose contract pins it; the answer envelope
    /// itself is handed back to the host for release before returning.
    pub fn get_block(&mut self, cid: Vec<u8>) -> (r: Result<Vec<u8>, String>) {
        let cid_env = RustBytes::encode(&cid);
        let data = self.block_store_interface.get(cid_env);
        let r = bridge_get_response(&data);
        self.block_store_interface.dealloc_after_get(data);
        r
    }

    /// Stores `bytes` under `cid`: the mirror of `get_block`, decided by
    /// `bridge_put_response`.
    pub fn put_block(&mut self, cid: Vec<u8>, bytes: Vec<u8>) -> (r: Result<(), String>) {
        let cid_env = RustBytes::encode(&cid);
        let bytes_env = RustBytes::encode(&bytes);
        let data = self.block_store_interface.put(cid_env, bytes_env);
        let r = bridge_put_response(&data);
        self.block_store_interface.dealloc_after_put(data);
        r
    }
}

} // verus!
