use libipld::multihash::MultihashDigest;
use std::collections::HashMap;
use wnfs_bridge::blockstore::BridgedStore;
use wnfs_bridge::blockstore_interface::BlockStoreInterface;
use wnfs_bridge::c_types::{Empty, RustBytes, RustResult, RustString, RustVoid};
use wnfs_bridge::cid::StorageKey;
use wnfs_bridge::codec::LsEntry;
use wnfs_bridge::ops::{
    init_native, load_with_wnfs_key_native, ls_native, mkdir_native, mv_native, cp_native,
    read_file_native, read_file_to_path_native, rm_native, write_file_native, Engine,
};

fn mint_cid(n: u64) -> String {
    let hash = libipld::multihash::Code::Sha2_256.digest(&n.to_be_bytes());
    libipld::Cid::new_v1(0x71, hash).to_string()
}

#[derive(Clone, Default)]
struct Snapshot {
    files: HashMap<String, (Vec<u8>, i64, i64)>,
    dirs: Vec<String>,
}

/// An in-memory stand-in for the private-filesystem engine: each mutation
/// produces a new root identifier mapping to a new snapshot, as the real
/// engine's content addressing does.
#[derive(Default)]
struct MockEngine {
    roots: HashMap<String, Snapshot>,
    counter: u64,
}

impl MockEngine {
    fn fresh_cid(&mut self) -> String {
        self.counter += 1;
        mint_cid(self.counter)
    }

    fn snapshot(&self, key: &StorageKey) -> Result<Snapshot, String> {
        self.roots.get(&key.serialize()).cloned().ok_or_else(|| "root not found".to_string())
    }

    fn commit(&mut self, snap: Snapshot) -> String {
        let cid = self.fresh_cid();
        self.roots.insert(cid.clone(), snap);
        cid
    }
}

fn joined(path: &[String]) -> String {
    path.join("/")
}

impl Engine for MockEngine {
    fn init(&mut self, wnfs_key: Vec<u8>) -> Result<String, String> {
        if wnfs_key.len() != 32 {
            return Err("key material must be 32 bytes".to_string());
        }
        Ok(self.commit(Snapshot::default()))
    }

    fn load_with_wnfs_key(&mut self, wnfs_key: Vec<u8>, key: &StorageKey) -> Result<(), String> {
        if wnfs_key.len() != 32 {
            return Err("key material must be 32 bytes".to_string());
        }
        self.snapshot(key).map(|_| ())
    }

    fn write_file(
        &mut self,
        key: &StorageKey,
        path: Vec<String>,
        content: Vec<u8>,
    ) -> Result<String, String> {
        let mut snap = self.snapshot(key)?;
        let t = self.counter as i64;
        snap.files.insert(joined(&path), (content, 1000 + t, 2000 + t));
        Ok(self.commit(snap))
    }

    fn write_file_from_path(
        &mut self,
        key: &StorageKey,
        path: Vec<String>,
        source: &str,
    ) -> Result<String, String> {
        // The stand-in has no host filesystem; it stores the source path
        // itself as the content.
        self.write_file(key, path, source.as_bytes().to_vec())
    }

    fn read_file(&mut self, key: &StorageKey, path: Vec<String>) -> Result<Vec<u8>, String> {
        let snap = self.snapshot(key)?;
        snap.files
            .get(&joined(&path))
            .map(|(content, _, _)| content.clone())
            .ok_or_else(|| format!("file not found: {}", joined(&path)))
    }

    fn read_file_to_path(
        &mut self,
        key: &StorageKey,
        path: Vec<String>,
        _target: &str,
    ) -> Result<(), String> {
        self.read_file(key, path).map(|_| ())
    }

    fn read_filestream_to_path(
        &mut self,
        key: &StorageKey,
        path: Vec<String>,
        _target: &str,
    ) -> Result<(), String> {
        self.read_file(key, path).map(|_| ())
    }

    fn mkdir(&mut self, key: &StorageKey, path: Vec<String>) -> Result<String, String> {
        let mut snap = self.snapshot(key)?;
        snap.dirs.push(joined(&path));
        Ok(self.commit(snap))
    }

    fn mv(
        &mut self,
        key: &StorageKey,
        source: Vec<String>,
        target: Vec<String>,
    ) -> Result<String, String> {
        let mut snap = self.snapshot(key)?;
        let item = snap.files.remove(&joined(&source)).ok_or("source not found".to_string())?;
        snap.files.insert(joined(&target), item);
        Ok(self.commit(snap))
    }

    fn cp(
        &mut self,
        key: &StorageKey,
        source: Vec<String>,
        target: Vec<String>,
    ) -> Result<String, String> {
        let mut snap = self.snapshot(key)?;
        let item = snap.files.get(&joined(&source)).cloned().ok_or("source not found".to_string())?;
        snap.files.insert(joined(&target), item);
        Ok(self.commit(snap))
    }

    fn rm(&mut self, key: &StorageKey, path: Vec<String>) -> Result<String, String> {
        let mut snap = self.snapshot(key)?;
        snap.files.remove(&joined(&path)).ok_or("path not found".to_string())?;
        Ok(self.commit(snap))
    }

    fn ls(&mut self, key: &StorageKey, path: Vec<String>) -> Result<Vec<LsEntry>, String> {
        let snap = self.snapshot(key)?;
        let prefix = if path.is_empty() { String::new() } else { joined(&path) + "/" };
        let mut entries: Vec<LsEntry> = Vec::new();
        for (p, (_, created, modified)) in snap.files.iter() {
            if let Some(rest) = p.strip_prefix(&prefix) {
                if !rest.is_empty() && !rest.contains('/') {
                    entries.push(LsEntry {
                        name: rest.to_string(),
                        created: Some(*created),
                        modified: Some(*modified),
                    });
                }
            }
        }
        entries.sort_by(|a, b| a.name.cmp(&b.name));
        Ok(entries)
    }
}

fn cid_of(r: RustResult<RustString>) -> String {
    assert!(r.is_ok(), "operation should have succeeded");
    r.unwrap_payload().decode().unwrap()
}

fn listing_names(bytes: &[u8]) -> Vec<String> {
    let text = String::from_utf8(bytes.to_vec()).unwrap();
    text.split("!!!")
        .filter(|rec| !rec.is_empty())
        .map(|rec| rec.split("???").next().unwrap().to_string())
        .collect()
}

#[test]
fn test_overall() {
    let mut eng = MockEngine::default();
    let wnfs_key = vec![7u8; 32];

    // Initialize: yields the first root identifier.
    let cfg = init_native(&mut eng, &RustBytes::encode(&wnfs_key));
    let c0 = cid_of(cfg);

    // Write "Hello, World!" under the first root: yields a second root.
    let content = b"Hello, World!".to_vec();
    let cfg = write_file_native(
        &mut eng,
        &RustString::encode(&c0),
        &RustString::encode("root/test.txt"),
        &RustBytes::encode(&content),
    );
    let c1 = cid_of(cfg);
    assert_ne!(c0, c1);

    // Read it back under the new root: exactly the bytes written.
    let read = read_file_native(
        &mut eng,
        &RustString::encode(&c1),
        &RustString::encode("root/test.txt"),
    );
    assert!(read.is_ok());
    assert_eq!(read.unwrap_payload().decode(), content);

    // List the directory: the file's name appears.
    let ls = ls_native(&mut eng, &RustString::encode(&c1), &RustString::encode("root"));
    assert!(ls.is_ok());
    let names = listing_names(&ls.unwrap_payload().decode());
    assert!(names.contains(&"test.txt".to_string()));

    // Reload under the same key and root: still readable.
    let loaded = load_with_wnfs_key_native(
        &mut eng,
        &RustBytes::encode(&wnfs_key),
        &RustString::encode(&c1),
    );
    assert!(loaded.is_ok());

    // Remove the file: yields a third root, under which the file is gone.
    let cfg = rm_native(&mut eng, &RustString::encode(&c1), &RustString::encode("root/test.txt"));
    let c2 = cid_of(cfg);
    let read = read_file_native(
        &mut eng,
        &RustString::encode(&c2),
        &RustString::encode("root/test.txt"),
    );
    assert!(!read.is_ok());
    let msg = read.unwrap_error().decode().unwrap();
    assert!(msg.contains("not found"), "unexpected message: {}", msg);

    // The old root is unchanged: the file is still there under c1.
    let read = read_file_native(
        &mut eng,
        &RustString::encode(&c1),
        &RustString::encode("root/test.txt"),
    );
    assert!(read.is_ok());
}

#[test]
fn move_and_copy_between_paths() {
    let mut eng = MockEngine::default();
    let wnfs_key = vec![9u8; 32];
    let c0 = cid_of(init_native(&mut eng, &RustBytes::encode(&wnfs_key)));
    let c1 = cid_of(write_file_native(
        &mut eng,
        &RustString::encode(&c0),
        &RustString::encode("root/a.txt"),
        &RustBytes::encode(&b"payload".to_vec()),
    ));
    let c2 = cid_of(mkdir_native(
        &mut eng,
        &RustString::encode(&c1),
        &RustString::encode("root/sub"),
    ));
    let c3 = cid_of(cp_native(
        &mut eng,
        &RustString::encode(&c2),
        &RustString::encode("root/a.txt"),
        &RustString::encode("root/sub/b.txt"),
    ));
    let c4 = cid_of(mv_native(
        &mut eng,
        &RustString::encode(&c3),
        &RustString::encode("root/a.txt"),
        &RustString::encode("root/sub/c.txt"),
    ));
    let read = read_file_native(
        &mut eng,
        &RustString::encode(&c4),
        &RustString::encode("root/sub/c.txt"),
    );
    assert_eq!(read.unwrap_payload().decode(), b"payload".to_vec());
    let gone = read_file_native(
        &mut eng,
        &RustString::encode(&c4),
        &RustString::encode("root/a.txt"),
    );
    assert!(!gone.is_ok());
}

#[test]
fn read_file_to_path_echoes_target() {
    let mut eng = MockEngine::default();
    let wnfs_key = vec![1u8; 32];
    let c0 = cid_of(init_native(&mut eng, &RustBytes::encode(&wnfs_key)));
    let c1 = cid_of(write_file_native(
        &mut eng,
        &RustString::encode(&c0),
        &RustString::encode("root/t.txt"),
        &RustBytes::encode(&b"x".to_vec()),
    ));
    let r = read_file_to_path_native(
        &mut eng,
        &RustString::encode(&c1),
        &RustString::encode("root/t.txt"),
        &RustString::encode("/tmp/out.txt"),
    );
    assert!(r.is_ok());
    assert_eq!(r.unwrap_payload().decode().unwrap(), "/tmp/out.txt");
}

#[test]
fn malformed_identifier_short_circuits() {
    let mut eng = MockEngine::default();
    let r = read_file_native(
        &mut eng,
        &RustString::encode("this is not an identifier"),
        &RustString::encode("root/x"),
    );
    assert!(!r.is_ok());
    assert!(matches!(r.result, RustBytes::Null));
    let msg = r.unwrap_error().decode().unwrap();
    assert!(!msg.is_empty());
    // The engine was never reached: no roots were created or consulted.
    assert_eq!(eng.counter, 0);
}

#[test]
fn invalid_path_text_short_circuits() {
    let mut eng = MockEngine::default();
    let wnfs_key = vec![2u8; 32];
    let c0 = cid_of(init_native(&mut eng, &RustBytes::encode(&wnfs_key)));
    let r = read_file_native(
        &mut eng,
        &RustString::encode(&c0),
        &RustString::Live(vec![0xfe, 0xff]),
    );
    assert!(!r.is_ok());
    assert_eq!(r.unwrap_error().decode().unwrap(), "invalid text encoding");
}

#[test]
fn invalid_text_inputs_carry_fixed_message() {
    let mut eng = MockEngine::default();
    let wnfs_key = vec![3u8; 32];
    let c0 = cid_of(init_native(&mut eng, &RustBytes::encode(&wnfs_key)));

    // An identifier envelope that does not carry valid text.
    let r = load_with_wnfs_key_native(
        &mut eng,
        &RustBytes::encode(&wnfs_key),
        &RustString::Live(vec![0xf0, 0x28]),
    );
    assert!(!r.is_ok());
    assert_eq!(r.unwrap_error().decode().unwrap(), "invalid text encoding");

    // A target host-path envelope that does not carry valid text.
    let r = read_file_to_path_native(
        &mut eng,
        &RustString::encode(&c0),
        &RustString::encode("root/x"),
        &RustString::Live(vec![0xff]),
    );
    assert!(!r.is_ok());
    assert_eq!(r.unwrap_error().decode().unwrap(), "invalid text encoding");

    // A target path envelope of a move that does not carry valid text.
    let r = mv_native(
        &mut eng,
        &RustString::encode(&c0),
        &RustString::encode("root/a"),
        &RustString::Live(vec![0xc3, 0x28]),
    );
    assert!(!r.is_ok());
    assert_eq!(r.unwrap_error().decode().unwrap(), "invalid text encoding");
}

#[test]
fn init_rejecting_engine_reports_error() {
    let mut eng = MockEngine::default();
    let r = init_native(&mut eng, &RustBytes::encode(&vec![1u8, 2, 3]));
    assert!(!r.is_ok());
    assert!(matches!(r.result, RustString::Null));
    assert_eq!(r.unwrap_error().decode().unwrap(), "key material must be 32 bytes");
}

/// A host store that answers every fetch with an error, as a host whose
/// backend is unreachable would.
struct FailingStore {
    gets: usize,
    deallocs: usize,
}

impl BlockStoreInterface for FailingStore {
    fn put(&mut self, _cid: RustBytes, _bytes: RustBytes) -> RustResult<RustVoid> {
        RustResult::error(RustString::encode("backend offline"))
    }

    fn get(&mut self, _cid: RustBytes) -> RustResult<RustBytes> {
        self.gets += 1;
        RustResult::error(RustString::encode("backend offline"))
    }

    fn dealloc_after_get(&mut self, _data: RustResult<RustBytes>) {
        self.deallocs += 1;
    }

    fn dealloc_after_put(&mut self, _data: RustResult<RustVoid>) {
        self.deallocs += 1;
    }
}

/// An engine stand-in whose reads go through the storage-callback bridge,
/// so a host-side failure surfaces through a whole read operation.
struct BridgeBackedEngine {
    store: BridgedStore<FailingStore>,
}

impl Engine for BridgeBackedEngine {
    fn init(&mut self, _wnfs_key: Vec<u8>) -> Result<String, String> {
        Err("unsupported".to_string())
    }

    fn load_with_wnfs_key(&mut self, _wnfs_key: Vec<u8>, _key: &StorageKey) -> Result<(), String> {
        Err("unsupported".to_string())
    }

    fn write_file(
        &mut self,
        _key: &StorageKey,
        _path: Vec<String>,
        _content: Vec<u8>,
    ) -> Result<String, String> {
        Err("unsupported".to_string())
    }

    fn write_file_from_path(
        &mut self,
        _key: &StorageKey,
        _path: Vec<String>,
        _source: &str,
    ) -> Result<String, String> {
        Err("unsupported".to_string())
    }

    fn read_file(&mut self, key: &StorageKey, _path: Vec<String>) -> Result<Vec<u8>, String> {
        // Resolving the root requires fetching its block from the host.
        self.store.get_block(key.serialize().into_bytes())?;
        Ok(Vec::new())
    }

    fn read_file_to_path(
        &mut self,
        _key: &StorageKey,
        _path: Vec<String>,
        _target: &str,
    ) -> Result<(), String> {
        Err("unsupported".to_string())
    }

    fn read_filestream_to_path(
        &mut self,
        _key: &StorageKey,
        _path: Vec<String>,
        _target: &str,
    ) -> Result<(), String> {
        Err("unsupported".to_string())
    }

    fn mkdir(&mut self, _key: &StorageKey, _path: Vec<String>) -> Result<String, String> {
        Err("unsupported".to_string())
    }

    fn mv(
        &mut self,
        _key: &StorageKey,
        _source: Vec<String>,
        _target: Vec<String>,
    ) -> Result<String, String> {
        Err("unsupported".to_string())
    }

    fn cp(
        &mut self,
        _key: &StorageKey,
        _source: Vec<String>,
        _target: Vec<String>,
    ) -> Result<String, String> {
        Err("unsupported".to_string())
    }

    fn rm(&mut self, _key: &StorageKey, _path: Vec<String>) -> Result<String, String> {
        Err("unsupported".to_string())
    }

    fn ls(&mut self, _key: &StorageKey, _path: Vec<String>) -> Result<Vec<LsEntry>, String> {
        Err("unsupported".to_string())
    }
}

#[test]
fn failed_block_fetch_fails_whole_read() {
    let mut eng = BridgeBackedEngine {
        store: BridgedStore::new(FailingStore { gets: 0, deallocs: 0 }),
    };
    let r = read_file_native(
        &mut eng,
        &RustString::encode(&mint_cid(1)),
        &RustString::encode("root/test.txt"),
    );
    assert!(!r.is_ok());
    assert!(matches!(r.result, RustBytes::Null), "no partial payload");
    let msg = r.unwrap_error().decode().unwrap();
    assert!(!msg.is_empty());
    assert!(msg.contains("backend offline"));
    assert_eq!(eng.store.block_store_interface.gets, 1);
    assert_eq!(eng.store.block_store_interface.deallocs, 1);
}

/// A host store over an in-memory map, answering as a healthy host would.
struct MemStore {
    blocks: HashMap<Vec<u8>, Vec<u8>>,
    deallocs: usize,
}

impl BlockStoreInterface for MemStore {
    fn put(&mut self, cid: RustBytes, bytes: RustBytes) -> RustResult<RustVoid> {
        self.blocks.insert(cid.decode(), bytes.decode());
        RustResult::ok(RustVoid::empty())
    }

    fn get(&mut self, cid: RustBytes) -> RustResult<RustBytes> {
        match self.blocks.get(&cid.decode()) {
            Some(v) => RustResult::ok(RustBytes::encode(v)),
            None => RustResult::error(RustString::encode("block not found")),
        }
    }

    fn dealloc_after_get(&mut self, data: RustResult<RustBytes>) {
        let mut data = data;
        wnfs_bridge::c_types::rust_result_bytes_free(&mut data);
        self.deallocs += 1;
    }

    fn dealloc_after_put(&mut self, data: RustResult<RustVoid>) {
        let mut data = data;
        data.err.free();
        self.deallocs += 1;
    }
}

#[test]
fn bridge_round_trips_blocks_through_host_store() {
    let mut bridge = BridgedStore::new(MemStore { blocks: HashMap::new(), deallocs: 0 });
    bridge.put_block(b"cid-1".to_vec(), b"block data".to_vec()).unwrap();
    let got = bridge.get_block(b"cid-1".to_vec()).unwrap();
    assert_eq!(got, b"block data".to_vec());
    let missing = bridge.get_block(b"cid-2".to_vec());
    assert_eq!(missing.unwrap_err(), "block not found");
    assert_eq!(bridge.block_store_interface.deallocs, 3);
}
