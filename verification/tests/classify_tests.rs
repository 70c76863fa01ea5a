use pkg_extractor::classify::{classify_entry, to_upper_hex};
use pkg_extractor::structs::{Entry, ExtrOpts};

fn entry(numtype: u8, numsubtype: u8, reference: &str) -> Entry {
    Entry {
        reference: reference.to_string(),
        numtype,
        numsubtype,
        startingblock: 0,
        startingblockoffset: 0,
        filesize: 0,
    }
}

#[test]
fn uppercase_hex() {
    assert_eq!(to_upper_hex("deadbeef"), "DEADBEEF");
    assert_eq!(to_upper_hex("0123abcd"), "0123ABCD");
    assert_eq!(to_upper_hex(""), "");
}

#[test]
fn wem_stream_target() {
    let e = entry(26, 7, "00c0ffee");
    let t = classify_entry(&e, "test", 3, true).unwrap();
    assert_eq!(t.extension, "wem");
    assert_eq!(t.subdirectory, "wem");
    assert_eq!(t.file_name, "00C0FFEE");
    assert!(!t.needs_hash);
}

#[test]
fn bank_target() {
    let e = entry(26, 6, "00c0ffee");
    let t = classify_entry(&e, "test", 12, true).unwrap();
    assert_eq!(t.extension, "bnk");
    assert_eq!(t.subdirectory, "bnk");
    assert_eq!(t.file_name, "test-000c");
    assert!(!t.needs_hash);
}

#[test]
fn other_entries_skipped_by_default() {
    let opts = ExtrOpts::new();
    assert!(opts.skip_non_audio);
    let e = entry(13, 1, "0a0b0c0d");
    assert!(classify_entry(&e, "test", 0, opts.skip_non_audio).is_none());
    let e = entry(26, 5, "0a0b0c0d");
    assert!(classify_entry(&e, "test", 0, true).is_none());
}

#[test]
fn other_entries_processed_when_not_skipping() {
    let e = entry(13, 1, "0a0b0c0d");
    let t = classify_entry(&e, "test", 0x1F, false).unwrap();
    assert_eq!(t.extension, "bin");
    assert_eq!(t.subdirectory, "unknown/0A0B0C0D/");
    assert_eq!(t.file_name, "test-001f");
    assert!(t.needs_hash);
}

#[test]
fn audio_entries_kept_either_way() {
    let e = entry(26, 7, "000000ff");
    assert!(classify_entry(&e, "test", 0, true).is_some());
    assert!(classify_entry(&e, "test", 0, false).is_some());
}
