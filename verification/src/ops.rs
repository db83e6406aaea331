//! One entry point per filesystem verb. Each follows the same template:
//! decode and validate the identifier and path envelopes (a failure here
//! short-circuits to an error envelope), invoke exactly one engine
//! operation, and wrap the outcome in a result envelope. No entry point
//! performs more than one engine mutation; multi-step workflows are the
//! host's business, issued as separate calls.
//!
//! The engine itself is an external collaborator reached through the
//! [`Engine`] capability; nothing is assumed about it, and everything the
//! entry points decide around it is verified: how inputs are rejected, how
//! outcomes are enveloped, and that a failure never carries a partial
//! payload.

use crate::c_types::{
    holds_message, holds_some_message, BoundaryError, Empty, RustBytes, RustResult, RustString,
    RustVoid,
};
use crate::cid::{envelope_key, key_norm, StorageKey};
use crate::codec::{prepare_ls_output, prepare_path_segments, LsEntry};
use vstd::prelude::*;
use vstd::utf8::{decode_utf8, valid_utf8};

verus! {

/// The synchronous capability surface of the private-filesystem engine.
///
/// Implementations resolve the root named by `key`, perform one operation,
/// and report the new root identifier (or content) as plain values; every
/// failure is a message. The engine may call back into the host's block
/// store any number of times while serving one operation.
pub trait Engine {
    /// Creates a fresh filesystem for `wnfs_key`; returns the identifier of
    /// its root.
    fn init(&mut self, wnfs_key: Vec<u8>) -> Result<String, String>;

    /// Loads the filesystem rooted at `key` using `wnfs_key`.
    fn load_with_wnfs_key(&mut self, wnfs_key: Vec<u8>, key: &StorageKey) -> Result<(), String>;

    /// Writes `content` at `path`; returns the new root identifier.
    fn write_file(&mut self, key: &StorageKey, path: Vec<String>, content: Vec<u8>) -> Result<
        String,
        String,
    >;

    /// Writes the host file `source` at `path`; returns the new root
    /// identifier.
    fn write_file_from_path(&mut self, key: &StorageKey, path: Vec<String>, source: &str) -> Result<
        String,
        String,
    >;

    /// Reads the content stored at `path`.
    fn read_file(&mut self, key: &StorageKey, path: Vec<String>) -> Result<Vec<u8>, String>;

    /// Copies the content at `path` into the host file `target`.
    fn read_file_to_path(&mut self, key: &StorageKey, path: Vec<String>, target: &str) -> Result<
        (),
        String,
    >;

    /// Streams the content at `path` into the host file `target`.
    fn read_filestream_to_path(
        &mut self,
        key: &StorageKey,
        path: Vec<String>,
        target: &str,
    ) -> Result<(), String>;

    /// Creates the directory `path`; returns the new root identifier.
    fn mkdir(&mut self, key: &StorageKey, path: Vec<String>) -> Result<String, String>;

    /// Moves `source` to `target`; returns the new root identifier.
    fn mv(&mut self, key: &StorageKey, source: Vec<String>, target: Vec<String>) -> Result<
        String,
        String,
    >;

    /// Copies `source` to `target`; returns the new root identifier.
    fn cp(&mut self, key: &StorageKey, source: Vec<String>, target: Vec<String>) -> Result<
        String,
        String,
    >;

    /// Removes the entry at `path`; returns the new root identifier.
    fn rm(&mut self, key: &StorageKey, path: Vec<String>) -> Result<String, String>;

    /// Lists the directory at `path`.
    fn ls(&mut self, key: &StorageKey, path: Vec<String>) -> Result<Vec<LsEntry>, String>;
}

/// Wraps a decoding failure as an error envelope carrying its message; the
/// payload slot holds the canonical empty value.
pub fn boundary_error_result<T: Empty>(e: &BoundaryError) -> (r: RustResult<T>)
    ensures
        !r.ok,
        r.result == T::empty_spec(),
        holds_message(r.err, e.message_spec()),
        e.message_spec().len() > 0 ==> holds_some_message(r.err),
        !r.err.is_released(),
{
    let msg = e.message();
    let r = RustResult::error(RustString::encode_or_empty(msg.as_str()));
    proof {
        if e.message_spec().len() > 0 {
            assert(holds_message(r.err, e.message_spec()));
        }
    }
    r
}

/// Wraps an engine outcome that carries nothing: success is the empty
/// payload, failure carries the engine's message.
pub fn wrap_void_result(res: Result<(), String>) -> (r: RustResult<RustVoid>)
    ensures
        r.ok <==> res is Ok,
        res is Ok ==> r.err == RustString::empty_spec(),
        res matches Err(m) ==> holds_message(r.err, m@),
        !r.err.is_released(),
{
    match res {
        Ok(_) => RustResult::ok(RustVoid::empty()),
        Err(m) => RustResult::error(RustString::encode_or_empty(m.as_str())),
    }
}

/// Wraps an engine outcome that carries text (a new root identifier, or an
/// echoed host path): the payload envelope holds exactly the text on
/// success; on failure the payload is the canonical empty envelope and the
/// message is the engine's.
pub fn wrap_string_result(res: Result<String, String>) -> (r: RustResult<RustString>)
    ensures
        r.ok <==> res is Ok,
        res matches Ok(s) ==> (holds_message(r.result, s@) && r.err == RustString::empty_spec()),
        res matches Err(m) ==> (r.result == RustString::empty_spec() && holds_message(r.err, m@)),
        !r.err.is_released(),
        !r.result.is_released(),
{
    match res {
        Ok(s) => RustResult::ok(RustString::encode_or_empty(s.as_str())),
        Err(m) => RustResult::error(RustString::encode_or_empty(m.as_str())),
    }
}

/// Wraps an engine outcome that carries bytes: the payload envelope holds
/// exactly the bytes on success; a failure carries the engine's message and
/// never a partial payload.
pub fn wrap_bytes_result(res: Result<Vec<u8>, String>) -> (r: RustResult<RustBytes>)
    ensures
        r.ok <==> res is Ok,
        res matches Ok(v) ==> (r.result.spec_content() == v@ && r.err == RustString::empty_spec()),
        res matches Err(m) ==> (r.result == RustBytes::empty_spec() && holds_message(r.err, m@)),
        !r.err.is_released(),
        !r.result.is_released(),
{
    match res {
        Ok(v) => RustResult::ok(RustBytes::encode(&v)),
        Err(m) => RustResult::error(RustString::encode_or_empty(m.as_str())),
    }
}

/// Creates a fresh filesystem from the supplied key material; on success
/// the payload is the new root identifier.
pub fn init_native<E: Engine>(engine: &mut E, wnfs_key: &RustBytes) -> (r: RustResult<RustString>)
    requires
        !wnfs_key.is_released(),
    ensures
        !r.ok ==> r.result == RustString::empty_spec(),
        r.ok ==> r.err == RustString::empty_spec(),
        !r.err.is_released(),
        !r.result.is_released(),
{
    wrap_string_result(engine.init(wnfs_key.decode()))
}

/// Reloads the filesystem rooted at `cid` with the supplied key material;
/// success carries nothing. A malformed identifier short-circuits to an
/// error envelope without reaching the engine.
pub fn load_with_wnfs_key_native<E: Engine>(
    engine: &mut E,
    wnfs_key: &RustBytes,
    cid: &RustString,
) -> (r: RustResult<RustVoid>)
    requires
        !wnfs_key.is_released(),
        !cid.is_released(),
    ensures
        r.ok ==> r.err == RustString::empty_spec(),
        envelope_key(cid.spec_content()) is None ==> !r.ok,
        !valid_utf8(cid.spec_content()) ==> holds_message(r.err, "invalid text encoding"@),
        valid_utf8(cid.spec_content()) && key_norm(decode_utf8(cid.spec_content())) is None
            ==> holds_some_message(r.err),
        envelope_key(cid.spec_content()) is None ==> *final(engine) == *old(engine),
        !r.err.is_released(),
{
    let key = match cid.to_key() {
        Ok(k) => k,
        Err(e) => {
            return boundary_error_result(&e);
        },
    };
    wrap_void_result(engine.load_with_wnfs_key(wnfs_key.decode(), &key))
}

/// Writes a byte payload at a path; on success the payload is the new root
/// identifier.
pub fn write_file_native<E: Engine>(
    engine: &mut E,
    cid: &RustString,
    path_segments: &RustString,
    content: &RustBytes,
) -> (r: RustResult<RustString>)
    requires
        !cid.is_released(),
        !path_segments.is_released(),
        !content.is_released(),
    ensures
        !r.ok ==> r.result == RustString::empty_spec(),
        r.ok ==> r.err == RustString::empty_spec(),
        envelope_key(cid.spec_content()) is None ==> !r.ok,
        !valid_utf8(path_segments.spec_content()) ==> !r.ok,
        !valid_utf8(cid.spec_content()) ==> holds_message(r.err, "invalid text encoding"@),
        valid_utf8(cid.spec_content()) && key_norm(decode_utf8(cid.spec_content())) is None
            ==> holds_some_message(r.err),
        envelope_key(cid.spec_content()) is Some && !valid_utf8(path_segments.spec_content())
            ==> holds_message(r.err, "invalid text encoding"@),
        (envelope_key(cid.spec_content()) is None || !valid_utf8(path_segments.spec_content()))
            ==> *final(engine) == *old(engine),
        !r.err.is_released(),
        !r.result.is_released(),
{
    let key = match cid.to_key() {
        Ok(k) => k,
        Err(e) => {
            return boundary_error_result(&e);
        },
    };
    let segs = match prepare_path_segments(path_segments) {
        Ok(v) => v,
        Err(e) => {
            return boundary_error_result(&e);
        },
    };
    wrap_string_result(engine.write_file(&key, segs, content.decode()))
}

/// Writes the content of a host file at a path; on success the payload is
/// the new root identifier.
pub fn write_file_from_path_native<E: Engine>(
    engine: &mut E,
    cid: &RustString,
    path_segments: &RustString,
    filename: &RustString,
) -> (r: RustResult<RustString>)
    requires
        !cid.is_released(),
        !path_segments.is_released(),
        !filename.is_released(),
    ensures
        !r.ok ==> r.result == RustString::empty_spec(),
        r.ok ==> r.err == RustString::empty_spec(),
        envelope_key(cid.spec_content()) is None ==> !r.ok,
        !valid_utf8(path_segments.spec_content()) ==> !r.ok,
        !valid_utf8(filename.spec_content()) ==> !r.ok,
        !valid_utf8(cid.spec_content()) ==> holds_message(r.err, "invalid text encoding"@),
        valid_utf8(cid.spec_content()) && key_norm(decode_utf8(cid.spec_content())) is None
            ==> holds_some_message(r.err),
        envelope_key(cid.spec_content()) is Some && !valid_utf8(path_segments.spec_content())
            ==> holds_message(r.err, "invalid text encoding"@),
        envelope_key(cid.spec_content()) is Some && valid_utf8(path_segments.spec_content())
            && !valid_utf8(filename.spec_content()) ==> holds_message(
            r.err,
            "invalid text encoding"@,
        ),
        (envelope_key(cid.spec_content()) is None || !valid_utf8(path_segments.spec_content())
            || !valid_utf8(filename.spec_content())) ==> *final(engine) == *old(engine),
        !r.err.is_released(),
        !r.result.is_released(),
{
    let key = match cid.to_key() {
        Ok(k) => k,
        Err(e) => {
            return boundary_error_result(&e);
        },
    };
    let segs = match prepare_path_segments(path_segments) {
        Ok(v) => v,
        Err(e) => {
            return boundary_error_result(&e);
        },
    };
    let source = match filename.decode() {
        Ok(s) => s,
        Err(e) => {
            return boundary_error_result(&e);
        },
    };
    wrap_string_result(engine.write_file_from_path(&key, segs, source.as_str()))
}

/// Reads the content stored at a path; on success the payload is that
/// content, and a failure never carries a partial payload.
pub fn read_file_native<E: Engine>(
    engine: &mut E,
    cid: &RustString,
    path_segments: &RustString,
) -> (r: RustResult<RustBytes>)
    requires
        !cid.is_released(),
        !path_segments.is_released(),
    ensures
        !r.ok ==> r.result == RustBytes::empty_spec(),
        r.ok ==> r.err == RustString::empty_spec(),
        envelope_key(cid.spec_content()) is None ==> !r.ok,
        !valid_utf8(path_segments.spec_content()) ==> !r.ok,
        !valid_utf8(cid.spec_content()) ==> holds_message(r.err, "invalid text encoding"@),
        valid_utf8(cid.spec_content()) && key_norm(decode_utf8(cid.spec_content())) is None
            ==> holds_some_message(r.err),
        envelope_key(cid.spec_content()) is Some && !valid_utf8(path_segments.spec_content())
            ==> holds_message(r.err, "invalid text encoding"@),
        (envelope_key(cid.spec_content()) is None || !valid_utf8(path_segments.spec_content()))
            ==> *final(engine) == *old(engine),
        !r.err.is_released(),
        !r.result.is_released(),
{
    let key = match cid.to_key() {
        Ok(k) => k,
        Err(e) => {
            return boundary_error_result(&e);
        },
    };
    let segs = match prepare_path_segments(path_segments) {
        Ok(v) => v,
        Err(e) => {
            return boundary_error_result(&e);
        },
    };
    wrap_bytes_result(engine.read_file(&key, segs))
}

/// Copies the content at a path into a host file; on success the payload
/// echoes the host file path that was handed in.
pub fn read_file_to_path_native<E: Engine>(
    engine: &mut E,
    cid: &RustString,
    path_segments: &RustString,
    filename: &RustString,
) -> (r: RustResult<RustString>)
    requires
        !cid.is_released(),
        !path_segments.is_released(),
        !filename.is_released(),
    ensures
        !r.ok ==> r.result == RustString::empty_spec(),
        r.ok ==> r.err == RustString::empty_spec(),
        r.ok ==> holds_message(r.result, decode_utf8(filename.spec_content())),
        envelope_key(cid.spec_content()) is None ==> !r.ok,
        !valid_utf8(path_segments.spec_content()) ==> !r.ok,
        !valid_utf8(filename.spec_content()) ==> !r.ok,
        !valid_utf8(cid.spec_content()) ==> holds_message(r.err, "invalid text encoding"@),
        valid_utf8(cid.spec_content()) && key_norm(decode_utf8(cid.spec_content())) is None
            ==> holds_some_message(r.err),
        envelope_key(cid.spec_content()) is Some && !valid_utf8(path_segments.spec_content())
            ==> holds_message(r.err, "invalid text encoding"@),
        envelope_key(cid.spec_content()) is Some && valid_utf8(path_segments.spec_content())
            && !valid_utf8(filename.spec_content()) ==> holds_message(
            r.err,
            "invalid text encoding"@,
        ),
        (envelope_key(cid.spec_content()) is None || !valid_utf8(path_segments.spec_content())
            || !valid_utf8(filename.spec_content())) ==> *final(engine) == *old(engine),
        !r.err.is_released(),
        !r.result.is_released(),
{
    let key = match cid.to_key() {
        Ok(k) => k,
        Err(e) => {
            return boundary_error_result(&e);
        },
    };
    let segs = match prepare_path_segments(path_segments) {
        Ok(v) => v,
        Err(e) => {
            return boundary_error_result(&e);
        },
    };
    let target = match filename.decode() {
        Ok(s) => s,
        Err(e) => {
            return boundary_error_result(&e);
        },
    };
    match engine.read_file_to_path(&key, segs, target.as_str()) {
        Ok(_) => RustResult::ok(RustString::encode_or_empty(target.as_str())),
        Err(m) => RustResult::error(RustString::encode_or_empty(m.as_str())),
    }
}

/// Streams the content at a path into a host file; on success the payload
/// echoes the host file path that was handed in.
pub fn read_filestream_to_path_native<E: Engine>(
    engine: &mut E,
    cid: &RustString,
    path_segments: &RustString,
    filename: &RustString,
) -> (r: RustResult<RustString>)
    requires
        !cid.is_released(),
        !path_segments.is_released(),
        !filename.is_released(),
    ensures
        !r.ok ==> r.result == RustString::empty_spec(),
        r.ok ==> r.err == RustString::empty_spec(),
        r.ok ==> holds_message(r.result, decode_utf8(filename.spec_content())),
        envelope_key(cid.spec_content()) is None ==> !r.ok,
        !valid_utf8(path_segments.spec_content()) ==> !r.ok,
        !valid_utf8(filename.spec_content()) ==> !r.ok,
        !valid_utf8(cid.spec_content()) ==> holds_message(r.err, "invalid text encoding"@),
        valid_utf8(cid.spec_content()) && key_norm(decode_utf8(cid.spec_content())) is None
            ==> holds_some_message(r.err),
        envelope_key(cid.spec_content()) is Some && !valid_utf8(path_segments.spec_content())
            ==> holds_message(r.err, "invalid text encoding"@),
        envelope_key(cid.spec_content()) is Some && valid_utf8(path_segments.spec_content())
            && !valid_utf8(filename.spec_content()) ==> holds_message(
            r.err,
            "invalid text encoding"@,
        ),
        (envelope_key(cid.spec_content()) is None || !valid_utf8(path_segments.spec_content())
            || !valid_utf8(filename.spec_content())) ==> *final(engine) == *old(engine),
        !r.err.is_released(),
        !r.result.is_released(),
{
    let key = match cid.to_key() {
        Ok(k) => k,
        Err(e) => {
            return boundary_error_result(&e);
        },
    };
    let segs = match prepare_path_segments(path_segments) {
        Ok(v) => v,
        Err(e) => {
            return boundary_error_result(&e);
        },
    };
    let target = match filename.decode() {
        Ok(s) => s,
        Err(e) => {
            return boundary_error_result(&e);
        },
    };
    match engine.read_filestream_to_path(&key, segs, target.as_str()) {
        Ok(_) => RustResult::ok(RustString::encode_or_empty(target.as_str())),
        Err(m) => RustResult::error(RustString::encode_or_empty(m.as_str())),
    }
}

/// Creates a directory at a path; on success the payload is the new root
/// identifier.
pub fn mkdir_native<E: Engine>(
    engine: &mut E,
    cid: &RustString,
    path_segments: &RustString,
) -> (r: RustResult<RustString>)
    requires
        !cid.is_released(),
        !path_segments.is_released(),
    ensures
        !r.ok ==> r.result == RustString::empty_spec(),
        r.ok ==> r.err == RustString::empty_spec(),
        envelope_key(cid.spec_content()) is None ==> !r.ok,
        !valid_utf8(path_segments.spec_content()) ==> !r.ok,
        !valid_utf8(cid.spec_content()) ==> holds_message(r.err, "invalid text encoding"@),
        valid_utf8(cid.spec_content()) && key_norm(decode_utf8(cid.spec_content())) is None
            ==> holds_some_message(r.err),
        envelope_key(cid.spec_content()) is Some && !valid_utf8(path_segments.spec_content())
            ==> holds_message(r.err, "invalid text encoding"@),
        (envelope_key(cid.spec_content()) is None || !valid_utf8(path_segments.spec_content()))
            ==> *final(engine) == *old(engine),
        !r.err.is_released(),
        !r.result.is_released(),
{
    let key = match cid.to_key() {
        Ok(k) => k,
        Err(e) => {
            return boundary_error_result(&e);
        },
    };
    let segs = match prepare_path_segments(path_segments) {
        Ok(v) => v,
        Err(e) => {
            return boundary_error_result(&e);
        },
    };
    wrap_string_result(engine.mkdir(&key, segs))
}

/// Moves an entry from a source path to a target path; on success the
/// payload is the new root identifier.
pub fn mv_native<E: Engine>(
    engine: &mut E,
    cid: &RustString,
    source_path_segments: &RustString,
    target_path_segments: &RustString,
) -> (r: RustResult<RustString>)
    requires
        !cid.is_released(),
        !source_path_segments.is_released(),
        !target_path_segments.is_released(),
    ensures
        !r.ok ==> r.result == RustString::empty_spec(),
        r.ok ==> r.err == RustString::empty_spec(),
        envelope_key(cid.spec_content()) is None ==> !r.ok,
        !valid_utf8(source_path_segments.spec_content()) ==> !r.ok,
        !valid_utf8(target_path_segments.spec_content()) ==> !r.ok,
        !valid_utf8(cid.spec_content()) ==> holds_message(r.err, "invalid text encoding"@),
        valid_utf8(cid.spec_content()) && key_norm(decode_utf8(cid.spec_content())) is None
            ==> holds_some_message(r.err),
        envelope_key(cid.spec_content()) is Some && !valid_utf8(
            source_path_segments.spec_content(),
        ) ==> holds_message(r.err, "invalid text encoding"@),
        envelope_key(cid.spec_content()) is Some && valid_utf8(
            source_path_segments.spec_content(),
        ) && !valid_utf8(target_path_segments.spec_content()) ==> holds_message(
            r.err,
            "invalid text encoding"@,
        ),
        (envelope_key(cid.spec_content()) is None || !valid_utf8(
            source_path_segments.spec_content(),
        ) || !valid_utf8(target_path_segments.spec_content())) ==> *final(engine) == *old(engine),
        !r.err.is_released(),
        !r.result.is_released(),
{
    let key = match cid.to_key() {
        Ok(k) => k,
        Err(e) => {
            return boundary_error_result(&e);
        },
    };
    let source = match prepare_path_segments(source_path_segments) {
        Ok(v) => v,
        Err(e) => {
            return boundary_error_result(&e);
        },
    };
    let target = match prepare_path_segments(target_path_segments) {
        Ok(v) => v,
        Err(e) => {
            return boundary_error_result(&e);
        },
    };
    wrap_string_result(engine.mv(&key, source, target))
}

/// Copies an entry from a source path to a target path; on success the
/// payload is the new root identifier.
pub fn cp_native<E: Engine>(
    engine: &mut E,
    cid: &RustString,
    source_path_segments: &RustString,
    target_path_segments: &RustString,
) -> (r: RustResult<RustString>)
    requires
        !cid.is_released(),
        !source_path_segments.is_released(),
        !target_path_segments.is_released(),
    ensures
        !r.ok ==> r.result == RustString::empty_spec(),
        r.ok ==> r.err == RustString::empty_spec(),
        envelope_key(cid.spec_content()) is None ==> !r.ok,
        !valid_utf8(source_path_segments.spec_content()) ==> !r.ok,
        !valid_utf8(target_path_segments.spec_content()) ==> !r.ok,
        !valid_utf8(cid.spec_content()) ==> holds_message(r.err, "invalid text encoding"@),
        valid_utf8(cid.spec_content()) && key_norm(decode_utf8(cid.spec_content())) is None
            ==> holds_some_message(r.err),
        envelope_key(cid.spec_content()) is Some && !valid_utf8(
            source_path_segments.spec_content(),
        ) ==> holds_message(r.err, "invalid text encoding"@),
        envelope_key(cid.spec_content()) is Some && valid_utf8(
            source_path_segments.spec_content(),
        ) && !valid_utf8(target_path_segments.spec_content()) ==> holds_message(
            r.err,
            "invalid text encoding"@,
        ),
        (envelope_key(cid.spec_content()) is None || !valid_utf8(
            source_path_segments.spec_content(),
        ) || !valid_utf8(target_path_segments.spec_content())) ==> *final(engine) == *old(engine),
        !r.err.is_released(),
        !r.result.is_released(),
{
    let key = match cid.to_key() {
        Ok(k) => k,
        Err(e) => {
            return boundary_error_result(&e);
        },
    };
    let source = match prepare_path_segments(source_path_segments) {
        Ok(v) => v,
        Err(e) => {
            return boundary_error_result(&e);
        },
    };
    let target = match prepare_path_segments(target_path_segments) {
        Ok(v) => v,
        Err(e) => {
            return boundary_error_result(&e);
        },
    };
    wrap_string_result(engine.cp(&key, source, target))
}

/// Removes the entry at a path; on success the payload is the new root
/// identifier.
pub fn rm_native<E: Engine>(
    engine: &mut E,
    cid: &RustString,
    path_segments: &RustString,
) -> (r: RustResult<RustString>)
    requires
        !cid.is_released(),
        !path_segments.is_released(),
    ensures
        !r.ok ==> r.result == RustString::empty_spec(),
        r.ok ==> r.err == RustString::empty_spec(),
        envelope_key(cid.spec_content()) is None ==> !r.ok,
        !valid_utf8(path_segments.spec_content()) ==> !r.ok,
        !valid_utf8(cid.spec_content()) ==> holds_message(r.err, "invalid text encoding"@),
        valid_utf8(cid.spec_content()) && key_norm(decode_utf8(cid.spec_content())) is None
            ==> holds_some_message(r.err),
        envelope_key(cid.spec_content()) is Some && !valid_utf8(path_segments.spec_content())
            ==> holds_message(r.err, "invalid text encoding"@),
        (envelope_key(cid.spec_content()) is None || !valid_utf8(path_segments.spec_content()))
            ==> *final(engine) == *old(engine),
        !r.err.is_released(),
        !r.result.is_released(),
{
    let key = match cid.to_key() {
        Ok(k) => k,
        Err(e) => {
            return boundary_error_result(&e);
        },
    };
    let segs = match prepare_path_segments(path_segments) {
        Ok(v) => v,
        Err(e) => {
            return boundary_error_result(&e);
        },
    };
    wrap_string_result(engine.rm(&key, segs))
}

/// Lists the directory at a path; on success the payload is the listing in
/// the flat wire format of `prepare_ls_output`.
pub fn ls_native<E: Engine>(
    engine: &mut E,
    cid: &RustString,
    path_segments: &RustString,
) -> (r: RustResult<RustBytes>)
    requires
        !cid.is_released(),
        !path_segments.is_released(),
    ensures
        !r.ok ==> r.result == RustBytes::empty_spec(),
        r.ok ==> r.err == RustString::empty_spec(),
        envelope_key(cid.spec_content()) is None ==> !r.ok,
        !valid_utf8(path_segments.spec_content()) ==> !r.ok,
        !valid_utf8(cid.spec_content()) ==> holds_message(r.err, "invalid text encoding"@),
        valid_utf8(cid.spec_content()) && key_norm(decode_utf8(cid.spec_content())) is None
            ==> holds_some_message(r.err),
        envelope_key(cid.spec_content()) is Some && !valid_utf8(path_segments.spec_content())
            ==> holds_message(r.err, "invalid text encoding"@),
        (envelope_key(cid.spec_content()) is None || !valid_utf8(path_segments.spec_content()))
            ==> *final(engine) == *old(engine),
        !r.err.is_released(),
        !r.result.is_released(),
{
    let key = match cid.to_key() {
        Ok(k) => k,
        Err(e) => {
            return boundary_error_result(&e);
        },
    };
    let segs = match prepare_path_segments(path_segments) {
        Ok(v) => v,
        Err(e) => {
            return boundary_error_result(&e);
        },
    };
    match engine.ls(&key, segs) {
        Ok(entries) => {
            let out = prepare_ls_output(&entries);
            wrap_bytes_result(Ok(out))
        },
        Err(m) => wrap_bytes_result(Err(m)),
    }
}

} // verus!
