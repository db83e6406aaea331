use wnfs_bridge::c_types::{BoundaryError, RustString};
use wnfs_bridge::codec::{
    decode_listing, prepare_ls_output, prepare_path_segments, split_path, LsEntry,
};

fn entry(name: &str, created: Option<i64>, modified: Option<i64>) -> LsEntry {
    LsEntry { name: name.to_string(), created, modified }
}

/// Test-side decoder for the listing wire format: splits records on `!!!`
/// and fields on `???`, as the host does.
fn host_split_listing(bytes: &[u8]) -> Vec<(String, String, String)> {
    let text = String::from_utf8(bytes.to_vec()).unwrap();
    let mut out = Vec::new();
    for rec in text.split("!!!") {
        if rec.is_empty() {
            continue;
        }
        let fields: Vec<&str> = rec.split("???").collect();
        assert_eq!(fields.len(), 3, "record has exactly three fields");
        out.push((fields[0].to_string(), fields[1].to_string(), fields[2].to_string()));
    }
    out
}

#[test]
fn split_path_three_segments() {
    let segs = split_path("root/dir/file.txt");
    assert_eq!(segs, vec!["root".to_string(), "dir".to_string(), "file.txt".to_string()]);
}

#[test]
fn split_path_no_trailing_empty_segment() {
    let segs = split_path("root/");
    assert_eq!(segs, vec!["root".to_string()]);
}

#[test]
fn split_path_drops_leading_and_doubled_delimiters() {
    let segs = split_path("//a//b/");
    assert_eq!(segs, vec!["a".to_string(), "b".to_string()]);
    assert_eq!(split_path("/"), Vec::<String>::new());
    assert_eq!(split_path(""), Vec::<String>::new());
    assert_eq!(split_path("plain"), vec!["plain".to_string()]);
}

#[test]
fn prepare_path_segments_decodes_envelope() {
    let env = RustString::encode("root/test.txt");
    let segs = prepare_path_segments(&env).unwrap();
    assert_eq!(segs, vec!["root".to_string(), "test.txt".to_string()]);
}

#[test]
fn prepare_path_segments_rejects_invalid_text() {
    let env = RustString::Live(vec![0xc0, 0x00]);
    let err = prepare_path_segments(&env).unwrap_err();
    assert!(matches!(err, BoundaryError::InvalidEncoding));
}

#[test]
fn listing_exact_bytes() {
    let out = prepare_ls_output(&vec![entry("a.txt", Some(1), Some(2))]);
    assert_eq!(out, b"a.txt???1???2!!!".to_vec());
}

#[test]
fn listing_round_trip() {
    let entries = vec![entry("a.txt", Some(100), Some(200)), entry("b.txt", Some(300), Some(400))];
    let out = prepare_ls_output(&entries);
    let records = host_split_listing(&out);
    assert_eq!(
        records,
        vec![
            ("a.txt".to_string(), "100".to_string(), "200".to_string()),
            ("b.txt".to_string(), "300".to_string(), "400".to_string()),
        ]
    );
}

#[test]
fn listing_drops_entry_missing_a_timestamp() {
    let entries = vec![
        entry("seen.txt", Some(10), Some(20)),
        entry("no-modified.txt", Some(10), None),
        entry("no-created.txt", None, Some(20)),
        entry("also-seen.txt", Some(30), Some(40)),
    ];
    let out = prepare_ls_output(&entries);
    let records = host_split_listing(&out);
    assert_eq!(records.len(), 2);
    assert_eq!(records[0].0, "seen.txt");
    assert_eq!(records[1].0, "also-seen.txt");
}

#[test]
fn listing_empty_and_all_filtered_yield_empty_buffer() {
    assert_eq!(prepare_ls_output(&Vec::new()), Vec::<u8>::new());
    let entries = vec![entry("x", None, None)];
    assert_eq!(prepare_ls_output(&entries), Vec::<u8>::new());
}

#[test]
fn decode_listing_inverts_encoding() {
    let entries = vec![
        entry("a.txt", Some(100), Some(200)),
        entry("b.txt", Some(-3), Some(0)),
        entry("c c", Some(i64::MIN), Some(i64::MAX)),
    ];
    let out = prepare_ls_output(&entries);
    let decoded = decode_listing(&out).unwrap();
    assert_eq!(decoded.len(), 3);
    for (d, e) in decoded.iter().zip(entries.iter()) {
        assert_eq!(d.name, e.name);
        assert_eq!(d.created, e.created);
        assert_eq!(d.modified, e.modified);
    }
    assert_eq!(decode_listing(&Vec::new()).unwrap().len(), 0);
}

#[test]
fn decode_listing_rejects_non_canonical_buffers() {
    // A record without its terminator.
    assert!(decode_listing(&b"x???1???2".to_vec()).is_err());
    // Trailing bytes after the last record.
    assert!(decode_listing(&b"x???1???2!!!junk".to_vec()).is_err());
    // Non-canonical digits: re-encoding would not reproduce them.
    assert!(decode_listing(&b"x???007???2!!!".to_vec()).is_err());
    assert!(decode_listing(&b"x???-0???2!!!".to_vec()).is_err());
    // A record with too few fields.
    assert!(decode_listing(&b"only-a-name!!!".to_vec()).is_err());
}

#[test]
fn decode_listing_and_delimiter_like_names() {
    // A lone delimiter byte inside a name still round-trips.
    let inner = vec![entry("a?b", Some(1), Some(2))];
    let decoded = decode_listing(&prepare_ls_output(&inner)).unwrap();
    assert_eq!(decoded[0].name, "a?b");

    // A name that runs into the field delimiter corrupts the stream: the
    // encoding is no longer the canonical form of any listing, and the
    // decoder reports that instead of guessing.
    let corrupt = vec![entry("a?", Some(1), Some(2))];
    assert!(decode_listing(&prepare_ls_output(&corrupt)).is_err());
}

#[test]
fn listing_negative_and_large_timestamps() {
    let entries = vec![entry("old.txt", Some(-62135596800), Some(i64::MAX))];
    let out = prepare_ls_output(&entries);
    let records = host_split_listing(&out);
    assert_eq!(records[0].1, "-62135596800");
    assert_eq!(records[0].2, i64::MAX.to_string());

    let entries = vec![entry("min.txt", Some(i64::MIN), Some(0))];
    let out = prepare_ls_output(&entries);
    let records = host_split_listing(&out);
    assert_eq!(records[0].1, i64::MIN.to_string());
    assert_eq!(records[0].2, "0");
}
