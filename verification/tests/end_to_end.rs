use fmvparse::boxes::Mp4Box;
use fmvparse::error::Error;
use fmvparse::mp4::Mp4;

fn boxed(tag: &str, body: &[u8]) -> Vec<u8> {
    let mut out = Vec::new();
    out.extend_from_slice(&((body.len() as u32 + 8).to_be_bytes()));
    out.extend_from_slice(tag.as_bytes());
    out.extend_from_slice(body);
    out
}

fn minimal_file() -> Vec<u8> {
    let mut file = boxed("ftyp", b"isom\0\0\x02\0mp41");
    file.extend(boxed("moov", &boxed("mvhd", &[])));
    file.extend(boxed("mdat", &[1, 2, 3, 4]));
    file
}

#[test]
fn minimal_file_has_three_named_boxes() {
    let data = minimal_file();
    assert_eq!(data.len(), 48);
    let mp4 = Mp4::parse("minimal.mp4", &data).unwrap();
    assert_eq!(mp4.size(), 48);
    assert_eq!(mp4.file(), "minimal.mp4");

    let ftyp = mp4.ftype_box().unwrap();
    assert_eq!((ftyp.name(), ftyp.start(), ftyp.size(), ftyp.end()), ("ftyp", 0, 20, 20));
    assert_eq!(ftyp.level(), 1);

    let moov = mp4.movie_box().unwrap();
    assert_eq!((moov.name(), moov.start(), moov.size(), moov.end()), ("moov", 20, 16, 36));
    assert_eq!(moov.level(), 1);
    assert_eq!(moov.tracks_num(), 0);
    let mvhd = moov.movie_header_box().unwrap();
    assert_eq!(mvhd.start(), moov.start() + 8);
    assert_eq!((mvhd.name(), mvhd.size(), mvhd.end()), ("mvhd", 8, 36));
    assert_eq!(mvhd.level(), 2);
    assert_eq!(moov.fields().unwrap().len(), 1);

    let mdat = mp4.mdat_box().unwrap();
    assert_eq!((mdat.name(), mdat.start(), mdat.size(), mdat.end()), ("mdat", 36, 12, 48));
    assert!(mdat.fields().is_none());

    assert!(matches!(mp4.wide_box(), Err(Error::BoxNotFound(tag)) if tag == "wide"));
    assert!(matches!(mp4.free_box(), Err(Error::BoxNotFound(tag)) if tag == "free"));
    assert_eq!(mp4.fields().len(), 3);
}

#[test]
fn movie_box_is_not_found_without_moov() {
    let mut data = boxed("ftyp", b"isom");
    data.extend(boxed("mdat", &[0; 16]));
    let mp4 = Mp4::parse("no-moov.mp4", &data).unwrap();
    match mp4.movie_box() {
        Err(Error::BoxNotFound(tag)) => assert_eq!(tag, "moov"),
        other => panic!("unexpected {:?}", other.map(|_| ())),
    }
}

#[test]
fn track_zero_is_not_found_in_a_movie_without_tracks() {
    let data = boxed("moov", &boxed("mvhd", &[0; 4]));
    let mp4 = Mp4::parse("m.mp4", &data).unwrap();
    let moov = mp4.movie_box().unwrap();
    assert_eq!(moov.tracks_num(), 0);
    match moov.track_box(0) {
        Err(Error::BoxNotFound(tag)) => assert_eq!(tag, "trak"),
        other => panic!("unexpected {:?}", other.map(|_| ())),
    }
}
