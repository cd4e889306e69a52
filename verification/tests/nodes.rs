use fmvparse::atom_name::{AtomName, Decoder};
use fmvparse::boxes::{BoxNode, BoxRef, Movie, Mp4Box, SampleTable, Track};
use fmvparse::error::Error;
use fmvparse::header::Header;
use fmvparse::mp4::Mp4;

fn header(tag: &str, size: u32, start: u64) -> Header {
    let mut bytes = size.to_be_bytes().to_vec();
    bytes.extend_from_slice(tag.as_bytes());
    Header::new(&bytes, start).unwrap()
}

fn fresh(tag: &str, size: u32, start: u64, level: u8) -> BoxNode {
    BoxNode::fresh(AtomName::lookup(tag).decoder(), header(tag, size, start), level)
}

#[test]
fn fresh_box_has_the_type_of_its_decoder() {
    assert!(matches!(fresh("zzzz", 8, 0, 1), BoxNode::Inner(_)));
    assert!(matches!(fresh("mvhd", 8, 0, 1), BoxNode::Inner(_)));
    assert!(matches!(fresh("ftyp", 8, 0, 1), BoxNode::FileType(_)));
    assert!(matches!(fresh("mdat", 8, 0, 1), BoxNode::MediaData(_)));
    assert!(matches!(fresh("free", 8, 0, 1), BoxNode::Free(_)));
    assert!(matches!(fresh("skip", 8, 0, 1), BoxNode::Free(_)));
    assert!(matches!(fresh("wide", 8, 0, 1), BoxNode::Wide(_)));
    assert!(matches!(fresh("stco", 16, 0, 1), BoxNode::ChunkOffset(_)));
    assert!(matches!(fresh("co64", 16, 0, 1), BoxNode::ChunkOffset(_)));
    assert!(matches!(fresh("moov", 8, 0, 1), BoxNode::Movie(_)));
    assert!(matches!(fresh("trak", 8, 0, 1), BoxNode::Track(_)));
    assert!(matches!(fresh("edts", 8, 0, 1), BoxNode::EditLists(_)));
    assert!(matches!(fresh("mdia", 8, 0, 1), BoxNode::Media(_)));
    assert!(matches!(fresh("minf", 8, 0, 1), BoxNode::MediaInfo(_)));
    assert!(matches!(fresh("stbl", 8, 0, 1), BoxNode::SampleTable(_)));
    let node = BoxNode::fresh(Decoder::Track, header("abcd", 24, 100), 9);
    assert_eq!((node.name(), node.start(), node.size()), ("abcd", 100, 24));
    assert_eq!((node.end(), node.level()), (124, 9));
}

#[test]
fn containers_are_told_from_leaves() {
    for tag in ["moov", "trak", "edts", "mdia", "minf", "stbl"] {
        let node = fresh(tag, 8, 0, 1);
        assert!(node.is_container(), "{}", tag);
        assert_eq!(node.fields().unwrap().len(), 0);
    }
    for tag in ["ftyp", "mdat", "free", "skip", "wide", "stco", "co64", "mvhd", "zzzz"] {
        let node = fresh(tag, 16, 0, 1);
        assert!(!node.is_container(), "{}", tag);
        assert!(node.fields().is_none());
    }
}

#[test]
fn movie_keeps_what_it_names() {
    let mut movie = Movie::new(header("moov", 100, 0), 1);
    movie.put(fresh("mvhd", 8, 8, 2));
    movie.put(fresh("zzzz", 8, 16, 2));
    movie.put(fresh("trak", 8, 24, 2));
    movie.put(fresh("tkhd", 8, 32, 2));
    movie.put(fresh("trak", 8, 40, 2));
    movie.put(fresh("udta", 8, 48, 2));
    movie.put(fresh("stbl", 8, 56, 2));
    movie.put(fresh("udta", 8, 64, 2));
    assert_eq!(movie.movie_header_box().unwrap().start(), 8);
    assert_eq!(movie.user_data_box().unwrap().start(), 64);
    assert_eq!(movie.tracks_num(), 2);
    assert_eq!(movie.track_box(0).unwrap().start(), 24);
    assert_eq!(movie.track_box(1).unwrap().start(), 40);
    let starts: Vec<u64> = movie.fields().unwrap().iter().map(|b| b.start()).collect();
    assert_eq!(starts, [8, 24, 40, 64]);
}

#[test]
fn track_keeps_what_it_names() {
    let mut track = Track::new(header("trak", 100, 0), 2);
    track.put(fresh("mdia", 8, 8, 3));
    track.put(fresh("edts", 8, 16, 3));
    track.put(fresh("tkhd", 8, 24, 3));
    track.put(fresh("minf", 8, 32, 3));
    track.put(fresh("mdia", 8, 40, 3));
    assert_eq!(track.track_header_box().unwrap().start(), 24);
    assert_eq!(track.edit_lists_box().unwrap().start(), 16);
    assert_eq!(track.media_box().unwrap().start(), 40);
    let names: Vec<String> = track.fields().unwrap().iter().map(|b| b.name().to_string()).collect();
    assert_eq!(names, ["tkhd", "edts", "mdia"]);
}

#[test]
fn sample_table_tells_its_leaves_apart_by_tag() {
    let mut table = SampleTable::new(header("stbl", 200, 0), 5);
    let tags = ["sbgp", "sgpd", "sdtp", "stss", "co64", "stsz", "stsc", "ctts", "stts", "stsd"];
    for (i, tag) in tags.iter().enumerate() {
        table.put(fresh(tag, 16, 8 + 16 * i as u64, 6));
    }
    assert_eq!(table.sample_to_group_box().unwrap().start(), 8);
    assert_eq!(table.sample_group_desc_box().unwrap().start(), 24);
    assert_eq!(table.ind_disp_samples_box().unwrap().start(), 40);
    assert_eq!(table.sync_sample_box().unwrap().start(), 56);
    assert_eq!(table.offset_info_box().unwrap().start(), 72);
    assert_eq!(table.sample_sizes_box().unwrap().start(), 88);
    assert_eq!(table.stsc_box().unwrap().start(), 104);
    assert_eq!(table.composition_time_to_sample_box().unwrap().start(), 120);
    assert_eq!(table.decoding_time_to_sample_box().unwrap().start(), 136);
    assert_eq!(table.sample_desc_header_box().unwrap().start(), 152);
    let names: Vec<String> = table.fields().unwrap().iter().map(|b| b.name().to_string()).collect();
    assert_eq!(
        names,
        ["stsd", "stts", "ctts", "stsc", "stsz", "co64", "stss", "sdtp", "sgpd", "sbgp"]
    );
}

#[test]
fn put_into_a_node_reaches_the_container_inside() {
    let mut node = fresh("edts", 24, 0, 3);
    node.put(fresh("elst", 16, 8, 4));
    node.put(fresh("free", 8, 24, 4));
    match &node {
        BoxNode::EditLists(lists) => assert_eq!(lists.list_box().unwrap().size(), 16),
        other => panic!("unexpected {:?}", other),
    }
    let mut leaf = fresh("mdat", 24, 0, 1);
    leaf.put(fresh("elst", 16, 8, 2));
    assert!(leaf.fields().is_none());
}

#[test]
fn borrowed_node_is_the_same_box() {
    let node = fresh("trak", 32, 64, 2);
    let borrowed = node.as_box();
    assert!(matches!(borrowed, BoxRef::Track(_)));
    assert_eq!(
        (borrowed.name(), borrowed.start(), borrowed.size(), borrowed.end(), borrowed.level()),
        (node.name(), node.start(), node.size(), node.end(), node.level())
    );
    assert_eq!(borrowed.render(), "trak: {size: 32, start address: 64, end address: 96}\n");
}

#[test]
fn root_keeps_what_it_names() {
    let mut root = Mp4::new("hand-made".to_string(), 1000);
    root.put(fresh("skip", 8, 0, 1));
    root.put(fresh("mdat", 8, 8, 1));
    root.put(fresh("trak", 8, 16, 1));
    root.put(fresh("moov", 8, 24, 1));
    root.put(fresh("wide", 8, 32, 1));
    root.put(fresh("ftyp", 8, 40, 1));
    root.put(fresh("free", 8, 48, 1));
    root.put(fresh("mvhd", 8, 56, 1));
    assert_eq!((root.file(), root.size()), ("hand-made", 1000));
    assert_eq!(root.ftype_box().unwrap().start(), 40);
    assert_eq!(root.wide_box().unwrap().start(), 32);
    assert_eq!(root.mdat_box().unwrap().start(), 8);
    assert_eq!(root.movie_box().unwrap().start(), 24);
    assert_eq!(root.free_box().unwrap().start(), 48);
    let starts: Vec<u64> = root.fields().iter().map(|b| b.start()).collect();
    assert_eq!(starts, [40, 32, 8, 24, 48, 0]);
    let empty = Mp4::new(String::new(), 0);
    assert!(matches!(empty.movie_box(), Err(Error::BoxNotFound(tag)) if tag == "moov"));
    assert!(empty.fields().is_empty());
}
