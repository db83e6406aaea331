//! Marshaling protocol for driving an embedded content-addressed private
//! filesystem engine from a host process: ownership-tagged buffer and string
//! envelopes, a discriminated result envelope, a storage-callback bridge, and
//! the path and listing codecs that sit between the two sides.

pub mod blockstore;
pub mod blockstore_interface;
pub mod c_types;
pub mod cid;
pub mod codec;
pub mod ops;
