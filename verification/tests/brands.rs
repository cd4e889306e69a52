use fmvparse::boxes::Brands;
use fmvparse::error::Error;

#[test]
fn brands_are_read_in_body_order() {
    let brands = Brands::parse(b"isom\0\0\x02\0isomiso2avc1mp41").unwrap();
    assert_eq!(brands.major, "isom");
    assert_eq!(brands.minor, "\0\0\u{2}\0");
    assert_eq!(brands.compatible, ["isom", "iso2", "avc1", "mp41"]);
}

#[test]
fn body_of_two_codes_has_no_compatible_brands() {
    let brands = Brands::parse(b"qt  2005").unwrap();
    assert_eq!(brands.major, "qt  ");
    assert_eq!(brands.minor, "2005");
    assert!(brands.compatible.is_empty());
}

#[test]
fn body_shorter_than_two_codes_is_truncated() {
    for len in 0..8 {
        assert!(matches!(Brands::parse(&b"isomiso2"[..len]), Err(Error::TruncatedBody)));
    }
}

#[test]
fn body_that_ends_inside_a_code_is_truncated() {
    for extra in 1..4 {
        let mut body = b"isomiso2mp41".to_vec();
        body.extend_from_slice(&b"avc1"[..extra]);
        assert!(matches!(Brands::parse(&body), Err(Error::TruncatedBody)));
    }
}

#[test]
fn code_that_is_not_text_is_invalid() {
    assert!(matches!(Brands::parse(b"\xff\xff\xff\xffiso2"), Err(Error::InvalidTag)));
    assert!(matches!(Brands::parse(b"isom\x80\0\0\0"), Err(Error::InvalidTag)));
    assert!(matches!(Brands::parse(b"isomiso2mp41av\xc3\x28"), Err(Error::InvalidTag)));
    // A character may not straddle two codes.
    assert!(matches!(Brands::parse(b"iso\xc3\xa9so2"), Err(Error::InvalidTag)));
}

#[test]
fn length_is_looked_at_before_the_text() {
    assert!(matches!(Brands::parse(b"\xff\xff\xff\xffiso2m"), Err(Error::TruncatedBody)));
}
