use fmvparse::boxes::{ChunkOffsetBox, Mp4Box};
use fmvparse::error::Error;
use fmvparse::header::Header;

fn header(tag: &str, size: u32, start: u64) -> Header {
    let mut bytes = size.to_be_bytes().to_vec();
    bytes.extend_from_slice(tag.as_bytes());
    Header::new(&bytes, start).unwrap()
}

fn table_body(count: u32, offsets: &[u32]) -> Vec<u8> {
    let mut body = vec![0, 0, 0, 0];
    body.extend_from_slice(&count.to_be_bytes());
    for offset in offsets {
        body.extend_from_slice(&offset.to_be_bytes());
    }
    body
}

#[test]
fn three_offsets_are_decoded_in_order() {
    let body = table_body(3, &[100, 4096, 8192]);
    let table = ChunkOffsetBox::parse(header("stco", 28, 40), 6, &body, false).unwrap();
    assert_eq!(table.offsets, vec![100, 4096, 8192]);
    assert_eq!(table.chunk_offsets(), &vec![100, 4096, 8192]);
    assert_eq!((table.name(), table.start(), table.size(), table.end()), ("stco", 40, 28, 68));
    assert_eq!(table.level(), 6);
    assert!(table.fields().is_none());
}

#[test]
fn count_beyond_the_body_is_truncated() {
    let body = table_body(5, &[100, 4096, 8192]);
    assert!(matches!(
        ChunkOffsetBox::parse(header("stco", 28, 0), 1, &body, false),
        Err(Error::TruncatedBody)
    ));
}

#[test]
fn version_and_flags_are_skipped() {
    let mut body = table_body(1, &[7]);
    body[0] = 1;
    body[1] = 0xff;
    body[2] = 0xee;
    body[3] = 0xdd;
    let table = ChunkOffsetBox::parse(header("stco", 20, 0), 1, &body, false).unwrap();
    assert_eq!(table.offsets, vec![7]);
}

#[test]
fn body_without_room_for_the_count_is_truncated() {
    for len in 0..8 {
        let body = vec![0u8; len];
        assert!(matches!(
            ChunkOffsetBox::parse(header("stco", 16, 0), 1, &body, false),
            Err(Error::TruncatedBody)
        ));
    }
}

#[test]
fn empty_table_is_decoded() {
    let body = table_body(0, &[]);
    let table = ChunkOffsetBox::parse(header("stco", 16, 0), 1, &body, false).unwrap();
    assert!(table.offsets.is_empty());
}

#[test]
fn bytes_after_the_last_entry_are_ignored() {
    let mut body = table_body(2, &[1, 2]);
    body.extend_from_slice(&[9, 9, 9]);
    let table = ChunkOffsetBox::parse(header("stco", 27, 0), 1, &body, false).unwrap();
    assert_eq!(table.offsets, vec![1, 2]);
}

#[test]
fn last_entry_cut_by_one_byte_is_truncated() {
    let mut body = table_body(2, &[1, 2]);
    body.pop();
    assert!(matches!(
        ChunkOffsetBox::parse(header("stco", 23, 0), 1, &body, false),
        Err(Error::TruncatedBody)
    ));
}

#[test]
fn wide_entries_take_eight_bytes() {
    let mut body = vec![0, 0, 0, 0, 0, 0, 0, 2];
    body.extend_from_slice(&0x0000_0001_0000_0002u64.to_be_bytes());
    body.extend_from_slice(&u64::MAX.to_be_bytes());
    let table = ChunkOffsetBox::parse(header("co64", 32, 0), 1, &body, true).unwrap();
    assert_eq!(table.offsets, vec![0x0000_0001_0000_0002, u64::MAX]);
    // The same bytes as narrow entries: two entries of four bytes each.
    let narrow = ChunkOffsetBox::parse(header("stco", 32, 0), 1, &body, false).unwrap();
    assert_eq!(narrow.offsets, vec![1, 2]);
}

#[test]
fn wide_count_beyond_the_body_is_truncated() {
    let mut body = vec![0, 0, 0, 0, 0, 0, 0, 2];
    body.extend_from_slice(&5u64.to_be_bytes());
    body.extend_from_slice(&[0, 0, 0, 6]);
    assert!(matches!(
        ChunkOffsetBox::parse(header("co64", 28, 0), 1, &body, true),
        Err(Error::TruncatedBody)
    ));
}

#[test]
fn largest_narrow_offset_is_kept() {
    let body = table_body(1, &[u32::MAX]);
    let table = ChunkOffsetBox::parse(header("stco", 20, 0), 1, &body, false).unwrap();
    assert_eq!(table.offsets, vec![u32::MAX as u64]);
}

#[test]
fn table_without_entries_can_be_made_directly() {
    let table = ChunkOffsetBox::empty(header("stco", 16, 8), 2);
    assert!(table.offsets.is_empty());
    assert_eq!((table.start(), table.end(), table.level()), (8, 24, 2));
}
