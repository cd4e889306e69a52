use fmvparse::boxes::Mp4Box;
use fmvparse::error::Error;
use fmvparse::layout::MAX_DEPTH;
use fmvparse::mp4::Mp4;

fn boxed(tag: &str, body: &[u8]) -> Vec<u8> {
    let mut out = ((body.len() as u32) + 8).to_be_bytes().to_vec();
    out.extend_from_slice(tag.as_bytes());
    out.extend_from_slice(body);
    out
}

fn nested(tag: &str, depth: usize) -> Vec<u8> {
    let mut data = Vec::new();
    for _ in 0..depth {
        data = boxed(tag, &data);
    }
    data
}

#[test]
fn content_of_fewer_than_four_bytes_is_no_file() {
    for len in 0..4 {
        let data = vec![0u8; len];
        assert!(matches!(Mp4::parse("tiny", &data), Err(Error::UnrecognizedFile)));
    }
}

#[test]
fn content_too_short_for_a_header_is_truncated() {
    for len in 4..8 {
        let data = vec![0u8; len];
        assert!(matches!(Mp4::parse("short", &data), Err(Error::TruncatedHeader)));
    }
}

#[test]
fn bytes_left_over_after_the_last_box_are_a_truncated_header() {
    let mut data = boxed("ftyp", &[]);
    data.extend_from_slice(&[0, 0, 0]);
    assert!(matches!(Mp4::parse("x", &data), Err(Error::TruncatedHeader)));
    let in_container = boxed("moov", &[boxed("mvhd", &[]), vec![1, 2, 3, 4, 5, 6, 7]].concat());
    assert!(matches!(Mp4::parse("x", &in_container), Err(Error::TruncatedHeader)));
}

fn is_unexpected_end(result: Result<Mp4, Error>) -> bool {
    match result {
        Err(e) => {
            e.is_unexpected_end() && matches!(&e, Error::IO(d) if d == "unexpected end of file")
        }
        Ok(_) => false,
    }
}

#[test]
fn box_that_ends_after_the_file_is_an_unexpected_end() {
    let mut data = boxed("mdat", &[0; 10]);
    data.pop();
    assert!(is_unexpected_end(Mp4::parse("x", &data)));
}

#[test]
fn sample_table_that_declares_more_than_the_stream_holds_is_an_unexpected_end() {
    // stbl declares 24 bytes, the stream ends at byte 16, after its stsd child.
    let mut data = vec![0, 0, 0, 24];
    data.extend_from_slice(b"stbl");
    data.extend(boxed("stsd", &[]));
    assert_eq!(data.len(), 16);
    assert!(is_unexpected_end(Mp4::parse("x", &data)));
}

#[test]
fn movie_that_declares_more_than_the_file_holds_is_an_unexpected_end() {
    // A good ftyp, then a moov that declares 24 bytes of which 8 exist.
    let mut data = boxed("ftyp", &[]);
    data.extend_from_slice(&[0, 0, 0, 24]);
    data.extend_from_slice(b"moov");
    assert_eq!(data.len(), 16);
    assert!(is_unexpected_end(Mp4::parse("x", &data)));
}

#[test]
fn end_of_the_file_is_looked_at_before_the_end_of_the_container() {
    // The child ends after its parent and after the file: the file decides.
    let mut data = boxed("moov", &boxed("mvhd", &[]));
    data[8 + 3] = 12;
    assert!(is_unexpected_end(Mp4::parse("x", &data)));
    // With four more bytes in the file the child ends inside it: the parent decides.
    data.extend_from_slice(&[0; 4]);
    assert!(matches!(Mp4::parse("x", &data), Err(Error::TruncatedBody)));
}

#[test]
fn only_the_unexpected_end_is_an_unexpected_end() {
    assert!(Error::unexpected_end().is_unexpected_end());
    assert!(!Error::IO("short read".to_string()).is_unexpected_end());
    assert!(!Error::IO(String::new()).is_unexpected_end());
    assert!(!Error::TruncatedBody.is_unexpected_end());
    assert!(!Error::BoxNotFound("unexpected end of file".to_string()).is_unexpected_end());
}

#[test]
fn child_that_ends_after_its_parent_is_truncated() {
    // moov claims 16 bytes, its child claims 12: the child would end at 20.
    let mut data = boxed("moov", &boxed("mvhd", &[]));
    data[8 + 3] = 12;
    data.extend_from_slice(&[0; 4]);
    data.extend(boxed("free", &[]));
    assert!(matches!(Mp4::parse("x", &data), Err(Error::TruncatedBody)));
}

#[test]
fn declared_size_below_the_header_is_a_truncated_header() {
    for size in [0u8, 1, 7] {
        let data = [0, 0, 0, size, b'f', b'r', b'e', b'e', 0, 0, 0, 0];
        assert!(matches!(Mp4::parse("x", &data), Err(Error::TruncatedHeader)));
    }
}

#[test]
fn tag_that_is_not_text_is_invalid_wherever_it_is() {
    let data = [0, 0, 0, 8, 0xff, 0xff, 0xff, 0xff];
    assert!(matches!(Mp4::parse("x", &data), Err(Error::InvalidTag)));
    let mut inside = boxed("moov", &boxed("trak", &boxed("tkhd", &[])));
    inside[16 + 4] = 0x80;
    assert!(matches!(Mp4::parse("x", &inside), Err(Error::InvalidTag)));
}

#[test]
fn error_deep_in_the_tree_leaves_no_tree() {
    let stbl = boxed("stbl", &[0, 0, 0, 200, b's', b't', b's', b'd']);
    let moov = boxed("moov", &boxed("trak", &boxed("mdia", &boxed("minf", &stbl))));
    let data = [boxed("ftyp", &[]), moov.clone()].concat();
    assert!(is_unexpected_end(Mp4::parse("x", &data)));
    // The same tree in a file that goes on for long enough: the child ends
    // inside the file, but after the sample table that holds it.
    let longer = [boxed("ftyp", &[]), moov, boxed("mdat", &[0; 200])].concat();
    assert!(matches!(Mp4::parse("x", &longer), Err(Error::TruncatedBody)));
}

#[test]
fn first_error_in_file_order_wins() {
    let data = [
        boxed("ftyp", &[]),
        vec![0, 0, 0, 8, 0xff, 0xff, 0xff, 0xff],
        vec![0, 0, 0, 99, b'm', b'd', b'a', b't'],
    ]
    .concat();
    assert!(matches!(Mp4::parse("x", &data), Err(Error::InvalidTag)));
}

#[test]
fn chunk_offset_table_too_small_for_its_count_is_truncated() {
    let table = boxed("stco", &[0, 0, 0, 0, 0, 0, 0, 5, 0, 0, 0, 1, 0, 0, 0, 2, 0, 0, 0, 3]);
    let minf = boxed("minf", &boxed("stbl", &table));
    let data = boxed("moov", &boxed("trak", &boxed("mdia", &minf)));
    assert!(matches!(Mp4::parse("x", &data), Err(Error::TruncatedBody)));
    let no_count = boxed("stco", &[0, 0, 0, 0]);
    assert!(matches!(Mp4::parse("x", &no_count), Err(Error::TruncatedBody)));
    let header_only = boxed("co64", &[]);
    assert!(matches!(Mp4::parse("x", &header_only), Err(Error::TruncatedBody)));
}

#[test]
fn nesting_up_to_the_limit_is_decoded() {
    assert_eq!(MAX_DEPTH, 64);
    let data = nested("moov", MAX_DEPTH as usize);
    let mp4 = Mp4::parse("deep", &data).unwrap();
    assert_eq!(mp4.movie_box().unwrap().size(), 8 * 64);
}

#[test]
fn nesting_beyond_the_limit_fails() {
    let data = nested("moov", MAX_DEPTH as usize + 1);
    assert!(matches!(Mp4::parse("deep", &data), Err(Error::NestingTooDeep)));
    let leaf_too =
        [boxed("ftyp", &[]), boxed("trak", &nested("free", 1)), nested("edts", 70)].concat();
    assert!(matches!(Mp4::parse("deep", &leaf_too), Err(Error::NestingTooDeep)));
}

#[test]
fn leaves_are_never_looked_into() {
    // The body of an opaque leaf may hold anything, garbage headers included.
    let data =
        [boxed("mdat", &[0xff; 40]), boxed("uuid", &[0, 0, 0, 1, 0xff]), boxed("ftyp", &[0; 3])]
            .concat();
    let mp4 = Mp4::parse("x", &data).unwrap();
    assert_eq!(mp4.mdat_box().unwrap().size(), 48);
}

#[test]
fn error_constructors_fill_their_variants() {
    match Error::config("bad flag".to_string()) {
        Error::InvalidConfig(detail) => assert_eq!(detail, "bad flag"),
        other => panic!("unexpected {:?}", other),
    }
    match Error::format("mp4".to_string(), "no header".to_string()) {
        Error::FormatError { format_of, detail } => {
            assert_eq!(format_of, "mp4");
            assert_eq!(detail, "no header");
        }
        other => panic!("unexpected {:?}", other),
    }
    match Error::index("track".to_string(), 3, 2) {
        Error::InvalidIndex { kind, index, max } => {
            assert_eq!((kind.as_str(), index, max), ("track", 3, 2));
        }
        other => panic!("unexpected {:?}", other),
    }
    match Error::not_found("moov") {
        Error::BoxNotFound(tag) => assert_eq!(tag, "moov"),
        other => panic!("unexpected {:?}", other),
    }
}
