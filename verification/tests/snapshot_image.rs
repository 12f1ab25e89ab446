use sha2::{Digest, Sha256};
use veddb_core::snapshot::image::{SnapshotReader, SnapshotWriter, FOOTER_LEN, HEADER_BLOCK_LEN};
use veddb_core::snapshot::{SnapshotError, SnapshotHeader};

fn sample_image() -> (Vec<u8>, u64) {
    let mut w = SnapshotWriter::new();
    w.write_header(br#"{"sequence":7}"#);
    w.write_metadata(br#"{"collections_count":1}"#);
    w.write_collection_header(br#"{"name":"users"}"#);
    w.write_document(br#"{"name":"Alice"}"#);
    w.write_index(b"");
    let written = w.bytes_written();
    (w.finalize(), written)
}

#[test]
fn image_layout_and_size() {
    let (image, written) = sample_image();
    // 256 + (4+23) + (4+16) + (4+16) + (4+0)
    assert_eq!(written, 256 + 27 + 20 + 20 + 4);
    assert_eq!(image.len() as u64, written + FOOTER_LEN as u64);
    assert_eq!(&image[..14], br#"{"sequence":7}"#);
    assert!(image[14..HEADER_BLOCK_LEN].iter().all(|b| *b == 0));
    assert_eq!(&image[256..260], &[23u8, 0, 0, 0]);
    let body_len = written as usize;
    assert_eq!(&image[body_len..body_len + 10], b"VEDDB_END\0");
    assert_eq!(&image[body_len + 10..body_len + 42], &Sha256::digest(&image[..body_len])[..]);
    assert!(image[body_len + 42..].iter().all(|b| *b == 0));
}

#[test]
fn image_round_trip() {
    let (image, written) = sample_image();
    let mut r = SnapshotReader::new(image);
    assert_eq!(r.read_header_text().unwrap(), br#"{"sequence":7}"#.to_vec());
    assert_eq!(r.read_record().unwrap(), br#"{"collections_count":1}"#.to_vec());
    assert_eq!(r.read_record().unwrap(), br#"{"name":"users"}"#.to_vec());
    assert_eq!(r.read_record().unwrap(), br#"{"name":"Alice"}"#.to_vec());
    assert_eq!(r.read_record().unwrap(), Vec::<u8>::new());
    assert_eq!(r.bytes_read() as u64, written);
    let footer = r.read_footer().unwrap();
    assert!(footer.verify_end_marker());
    assert_eq!(r.bytes_read() as u64, written + 64);
}

#[test]
fn image_checksum_mismatch() {
    let (mut image, _) = sample_image();
    image[300] ^= 0xff;
    let mut r = SnapshotReader::new(image);
    r.read_header_text().unwrap();
    for _ in 0..4 {
        r.read_record().unwrap();
    }
    assert_eq!(r.read_footer().unwrap_err(), SnapshotError::ChecksumMismatch);
}

#[test]
fn image_bad_end_marker() {
    let (mut image, written) = sample_image();
    image[written as usize] = b'X';
    let mut r = SnapshotReader::new(image);
    r.read_header_text().unwrap();
    for _ in 0..4 {
        r.read_record().unwrap();
    }
    assert_eq!(r.read_footer().unwrap_err(), SnapshotError::InvalidEndMarker);
}

#[test]
fn image_short_reads() {
    let mut r = SnapshotReader::new(vec![1u8; 10]);
    assert_eq!(
        r.read_header_text().unwrap_err(),
        SnapshotError::IoError("failed to fill whole buffer".to_string())
    );
    assert_eq!(r.bytes_read(), 0);
    // a prefix announcing more bytes than remain
    let mut r = SnapshotReader::new(vec![9u8, 0, 0, 0, 1, 2]);
    assert!(matches!(r.read_record(), Err(SnapshotError::IoError(_))));
    assert_eq!(r.bytes_read(), 0);
    let mut r = SnapshotReader::new(vec![0u8; 63]);
    assert!(matches!(r.read_footer(), Err(SnapshotError::IoError(_))));
}

#[test]
fn header_text_fills_block() {
    let text = vec![b'a'; 256];
    let mut w = SnapshotWriter::new();
    w.write_header(&text);
    let image = w.finalize();
    let mut r = SnapshotReader::new(image);
    assert_eq!(r.read_header_text().unwrap(), text);
    assert!(r.read_footer().is_ok());
}

#[test]
fn test_snapshot_writer_creation() {
    let writer = SnapshotWriter::new();
    assert_eq!(writer.bytes_written(), 0);
}

#[test]
fn test_write_header() {
    let mut writer = SnapshotWriter::new();
    let header = SnapshotHeader::new(100);
    assert_eq!(header.sequence, 100);
    let text = format!(r#"{{"version":{},"sequence":{}}}"#, header.version, header.sequence);
    writer.write_header(text.as_bytes());
    assert_eq!(writer.bytes_written(), HEADER_BLOCK_LEN as u64);
}

#[test]
fn test_write_document() {
    let mut writer = SnapshotWriter::new();
    let text = br#"{"name":{"String":"John"}}"#;
    writer.write_document(text);
    assert_eq!(writer.bytes_written(), 4 + text.len() as u64);
}
