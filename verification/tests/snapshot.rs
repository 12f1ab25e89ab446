use veddb_core::snapshot::format::{check_header, header_text_len};
use veddb_core::snapshot::image::SnapshotWriter;
use veddb_core::snapshot::{SnapshotError, SnapshotFooter, SnapshotHeader, SnapshotMetadata};
use veddb_core::replication::ErrorCode;

#[test]
fn test_snapshot_header() {
    let mut header = SnapshotHeader::new(12345);
    assert!(header.verify_magic());
    header.checksum = header.compute_checksum();
    assert!(header.verify_checksum());
}

#[test]
fn test_snapshot_footer() {
    let checksum = [0u8; 32];
    let footer = SnapshotFooter::new(checksum);
    assert!(footer.verify_end_marker());
}

#[test]
fn test_snapshot_metadata() {
    let metadata = SnapshotMetadata::default();
    assert_eq!(metadata.collections_count, 0);
    assert_eq!(metadata.config, "{}");
}

#[test]
fn header_checks_in_order() {
    let mut h = SnapshotHeader::at(7, 1_700_000_000, 0);
    assert_eq!(check_header(&h), Err(SnapshotError::ChecksumMismatch));
    h.checksum = h.compute_checksum();
    assert_eq!(check_header(&h), Ok(()));
    h.version = 9;
    assert_eq!(check_header(&h), Err(SnapshotError::InvalidVersion(9)));
    h.magic[0] = b'X';
    assert_eq!(check_header(&h), Err(SnapshotError::InvalidMagic));
}

#[test]
fn checksum_covers_sequence() {
    let a = SnapshotHeader::at(1, 5, 0).compute_checksum();
    let b = SnapshotHeader::at(2, 5, 0).compute_checksum();
    assert_ne!(a, b);
    assert_eq!(a, SnapshotHeader::at(1, 5, 99).compute_checksum());
}

#[test]
fn sha256_known_value() {
    // An image with no records ends with the SHA-256 of the empty input.
    let image = SnapshotWriter::new().finalize();
    let d = &image[10..42];
    assert_eq!(d[0], 0xe3);
    assert_eq!(d[1], 0xb0);
    assert_eq!(d[31], 0x55);
}

#[test]
fn header_text_ends_at_first_zero() {
    assert_eq!(header_text_len(b"{\"a\":1}\0\0\0"), 7);
    assert_eq!(header_text_len(b"abc"), 3);
    assert_eq!(header_text_len(b""), 0);
}

#[test]
fn test_error_code_description() {
    assert_eq!(ErrorCode::InvalidMessage.description(), "Invalid message format");
    assert_eq!(ErrorCode::AuthenticationFailed.description(), "Authentication failed");
    assert_eq!(ErrorCode::Timeout.description(), "Operation timed out");
}

#[test]
fn bad_end_marker_is_detected() {
    let mut footer = SnapshotFooter::new([1u8; 32]);
    footer.end_marker[9] = 1;
    assert!(!footer.verify_end_marker());
}
