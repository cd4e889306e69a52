use fmvparse::error::Error;
use fmvparse::header::{Header, HEADER_BYTES};

#[test]
fn header_is_decoded_big_endian() {
    let bytes = [0x01, 0x02, 0x03, 0x04, b'm', b'o', b'o', b'v'];
    let header = Header::new(&bytes, 7).unwrap();
    assert_eq!(header.size(), 0x0102_0304);
    assert_eq!(header.name(), "moov");
    assert_eq!(header.start(), 7);
    assert_eq!(header.end(), 7 + 0x0102_0304);
    assert_eq!(HEADER_BYTES, 8);
}

#[test]
fn header_looks_at_first_eight_bytes_only() {
    let bytes = [0, 0, 0, 8, b'f', b'r', b'e', b'e', 0xff, 0xff, 0xff];
    let header = Header::new(&bytes, 0).unwrap();
    assert_eq!((header.name(), header.size(), header.start(), header.end()), ("free", 8, 0, 8));
}

#[test]
fn header_of_fewer_than_eight_bytes_is_truncated() {
    for len in 0..8 {
        let bytes = [0, 0, 0, 16, b'm', b'd', b'a', b't'];
        assert!(matches!(Header::new(&bytes[..len], 0), Err(Error::TruncatedHeader)));
    }
}

#[test]
fn header_with_tag_that_is_not_utf8_is_invalid() {
    let bytes = [0, 0, 0, 16, 0xff, 0xfe, b'a', b'b'];
    assert!(matches!(Header::new(&bytes, 0), Err(Error::InvalidTag)));
    let cut_short = [0, 0, 0, 16, b'a', b'b', b'c', 0xc3];
    assert!(matches!(Header::new(&cut_short, 0), Err(Error::InvalidTag)));
}

#[test]
fn header_tag_may_be_any_utf8_text() {
    let bytes = [0, 0, 0, 16, 0xc3, 0xa9, 0xc3, 0xa9];
    let header = Header::new(&bytes, 0).unwrap();
    assert_eq!(header.name(), "éé");
}

#[test]
fn invalid_tag_is_reported_before_small_size() {
    let bytes = [0, 0, 0, 0, 0xff, 0xff, 0xff, 0xff];
    assert!(matches!(Header::new(&bytes, 0), Err(Error::InvalidTag)));
}

#[test]
fn header_with_size_below_eight_is_truncated() {
    for size in 0..8u8 {
        let bytes = [0, 0, 0, size, b'f', b'r', b'e', b'e'];
        assert!(matches!(Header::new(&bytes, 0), Err(Error::TruncatedHeader)));
    }
    let bytes = [0, 0, 0, 8, b'f', b'r', b'e', b'e'];
    assert!(Header::new(&bytes, 0).is_ok());
}

#[test]
fn header_that_would_end_past_the_address_space_runs_off_any_source() {
    let bytes = [0, 0, 0, 16, b'm', b'd', b'a', b't'];
    match Header::new(&bytes, u64::MAX - 15) {
        Err(Error::IO(detail)) => assert_eq!(detail, "unexpected end of file"),
        other => panic!("unexpected {:?}", other),
    }
    let header = Header::new(&bytes, u64::MAX - 16).unwrap();
    assert_eq!(header.end(), u64::MAX);
}
