use libipld::multihash::MultihashDigest;
use wnfs_bridge::c_types::{BoundaryError, RustString};
use wnfs_bridge::cid::StorageKey;

const CID_V1: &str = "bafyreif2pall7dybz7vecqka3zo24irdwabwdi4wc55jznaq75q7eaavvu";

#[test]
fn key_round_trip_canonical() {
    let key = StorageKey::parse(CID_V1).unwrap();
    assert_eq!(key.serialize(), CID_V1);
}

#[test]
fn key_normalizes_other_base_encoding() {
    // The same identifier in upper-case base32 (multibase prefix 'B')
    // parses, and serializes in the canonical lower-case form.
    let upper = format!("B{}", CID_V1[1..].to_uppercase());
    let key = StorageKey::parse(&upper).unwrap();
    assert_eq!(key.serialize(), CID_V1);
    // Re-parsing the canonical form is stable.
    let again = StorageKey::parse(&key.serialize()).unwrap();
    assert_eq!(again.serialize(), CID_V1);
}

#[test]
fn key_parse_rejects_malformed_input() {
    let err = StorageKey::parse("not a cid").unwrap_err();
    match err {
        BoundaryError::InvalidKey(msg) => assert!(!msg.is_empty()),
        other => panic!("unexpected error: {:?}", other),
    }
    assert!(StorageKey::parse("").is_err());
    assert!(StorageKey::parse("b").is_err());
}

#[test]
fn envelope_to_key() {
    let env = RustString::encode(CID_V1);
    let key = env.to_key().unwrap();
    assert_eq!(key.serialize(), CID_V1);

    let bad = RustString::Live(vec![0xff, 0xff]);
    assert!(matches!(bad.to_key().unwrap_err(), BoundaryError::InvalidEncoding));

    let not_a_key = RustString::encode("hello");
    assert!(matches!(not_a_key.to_key().unwrap_err(), BoundaryError::InvalidKey(_)));
}

#[test]
fn blockstore_test_codec() {
    let codec_u64: u64 = u64::try_from(113).unwrap();
    let hash = libipld::multihash::Code::Sha2_256.digest(b"abc");
    let codec = libipld::IpldCodec::try_from(codec_u64).unwrap();
    let cid = libipld::Cid::new(libipld::cid::Version::V1, codec.into(), hash).unwrap();

    assert!(cid.to_string() == "bafyreif2pall7dybz7vecqka3zo24irdwabwdi4wc55jznaq75q7eaavvu");

    let input = "01711220fac1804f9aa7394df8439e08af28a97b7a1dcc84c4cb64697d7bfb9d296a84c0";
    let cid_bytes = hex::decode(input).unwrap();

    let cid_recreated = libipld::Cid::try_from(cid_bytes).unwrap();
    assert!(cid_recreated.version() == libipld::cid::Version::V1);
    assert!(
        cid_recreated.to_string()
            == "bafyreih2ygae7gvhhfg7qq46bcxsrkl3pio4zbgeznsgs7l37ooss2ueya"
    );
}

#[test]
fn store_test_codec() {
    let codec_u64: u64 = u64::try_from(113).unwrap();
    let hash = libipld::multihash::Code::Sha2_256.digest(b"abc");
    let codec = libipld::IpldCodec::try_from(codec_u64).unwrap();
    let cid = libipld::Cid::new(libipld::cid::Version::V1, codec.into(), hash).unwrap();

    assert!(cid.to_string() == "bafyreif2pall7dybz7vecqka3zo24irdwabwdi4wc55jznaq75q7eaavvu");

    let input = "01711220fac1804f9aa7394df8439e08af28a97b7a1dcc84c4cb64697d7bfb9d296a84c0";
    let cid_bytes = hex::decode(input).unwrap();

    let cid_recreated = libipld::Cid::try_from(cid_bytes).unwrap();
    assert!(cid_recreated.version() == libipld::cid::Version::V1);
    assert!(
        cid_recreated.to_string()
            == "bafyreih2ygae7gvhhfg7qq46bcxsrkl3pio4zbgeznsgs7l37ooss2ueya"
    );
}

#[test]
fn parsed_keys_round_trip_for_minted_identifiers() {
    for i in 0u64..5 {
        let hash = libipld::multihash::Code::Sha2_256.digest(&i.to_be_bytes());
        let minted = libipld::Cid::new_v1(0x71, hash).to_string();
        let key = StorageKey::parse(&minted).unwrap();
        assert_eq!(key.serialize(), minted);
    }
}
