use fmvparse::boxes::{BoxRef, Mp4Box};
use fmvparse::error::Error;
use fmvparse::mp4::Mp4;

fn boxed(tag: &str, body: &[u8]) -> Vec<u8> {
    let mut out = ((body.len() as u32) + 8).to_be_bytes().to_vec();
    out.extend_from_slice(tag.as_bytes());
    out.extend_from_slice(body);
    out
}

fn join(parts: &[Vec<u8>]) -> Vec<u8> {
    parts.concat()
}

fn stco(offsets: &[u32]) -> Vec<u8> {
    let mut body = vec![0, 0, 0, 0];
    body.extend_from_slice(&(offsets.len() as u32).to_be_bytes());
    for offset in offsets {
        body.extend_from_slice(&offset.to_be_bytes());
    }
    boxed("stco", &body)
}

fn sample_table() -> Vec<u8> {
    boxed(
        "stbl",
        &join(&[
            boxed("stsd", &[0; 4]),
            boxed("stts", &[0; 8]),
            boxed("ctts", &[]),
            boxed("stss", &[1]),
            boxed("sdtp", &[2, 2]),
            boxed("stsc", &[3; 3]),
            boxed("stsz", &[4; 4]),
            stco(&[100, 4096, 8192]),
            boxed("sgpd", &[5; 5]),
            boxed("sbgp", &[6; 6]),
        ]),
    )
}

fn track() -> Vec<u8> {
    let minf =
        boxed("minf", &join(&[boxed("vmhd", &[0; 12]), boxed("dinf", &[0; 4]), sample_table()]));
    let mdia = boxed("mdia", &join(&[boxed("mdhd", &[0; 24]), boxed("hdlr", &[0; 8]), minf]));
    let edts = boxed("edts", &boxed("elst", &[0; 20]));
    boxed("trak", &join(&[boxed("tkhd", &[0; 84]), edts, mdia]))
}

fn full_file() -> Vec<u8> {
    let moov = boxed(
        "moov",
        &join(&[boxed("mvhd", &[0; 100]), track(), track(), boxed("udta", &[7; 7])]),
    );
    join(&[
        boxed("ftyp", b"isomiso2"),
        boxed("free", &[]),
        boxed("wide", &[]),
        boxed("mdat", &[0xaa; 64]),
        moov,
        boxed("skip", &[0; 3]),
    ])
}

#[test]
fn full_tree_is_reached_through_the_accessors() {
    let data = full_file();
    let mp4 = Mp4::parse("full.mp4", &data).unwrap();
    assert_eq!(mp4.size(), data.len() as u64);
    assert_eq!(mp4.ftype_box().unwrap().name(), "ftyp");
    assert_eq!(mp4.free_box().unwrap().name(), "free");
    assert_eq!(mp4.wide_box().unwrap().name(), "wide");
    assert_eq!(mp4.mdat_box().unwrap().size(), 72);

    let moov = mp4.movie_box().unwrap();
    assert_eq!(moov.level(), 1);
    assert_eq!(moov.movie_header_box().unwrap().size(), 108);
    assert_eq!(moov.user_data_box().unwrap().size(), 15);
    assert_eq!(moov.tracks_num(), 2);

    let first = moov.track_box(0).unwrap();
    let second = moov.track_box(1).unwrap();
    assert!(first.start() < second.start());
    assert_eq!(first.end(), second.start());
    assert!(matches!(moov.track_box(2), Err(Error::BoxNotFound(tag)) if tag == "trak"));
    assert!(matches!(moov.track_box(usize::MAX), Err(Error::BoxNotFound(tag)) if tag == "trak"));

    assert_eq!(first.level(), 2);
    assert_eq!(first.track_header_box().unwrap().name(), "tkhd");
    let edts = first.edit_lists_box().unwrap();
    assert_eq!(edts.name(), "edts");
    assert_eq!(edts.list_box().unwrap().name(), "elst");
    assert_eq!(edts.list_box().unwrap().level(), 4);

    let mdia = first.media_box().unwrap();
    assert_eq!((mdia.name(), mdia.level()), ("mdia", 3));
    assert_eq!(mdia.media_header_box().unwrap().name(), "mdhd");
    assert_eq!(mdia.media_handler_box().unwrap().name(), "hdlr");

    let minf = mdia.media_info_box().unwrap();
    assert_eq!((minf.name(), minf.level()), ("minf", 4));
    assert_eq!(minf.video_media_header_box().unwrap().name(), "vmhd");
    assert_eq!(minf.data_info_box().unwrap().name(), "dinf");

    let stbl = minf.sample_table_box().unwrap();
    assert_eq!((stbl.name(), stbl.level()), ("stbl", 5));
    assert_eq!(stbl.sample_desc_header_box().unwrap().name(), "stsd");
    assert_eq!(stbl.decoding_time_to_sample_box().unwrap().name(), "stts");
    assert_eq!(stbl.composition_time_to_sample_box().unwrap().name(), "ctts");
    assert_eq!(stbl.sync_sample_box().unwrap().name(), "stss");
    assert_eq!(stbl.ind_disp_samples_box().unwrap().name(), "sdtp");
    assert_eq!(stbl.stsc_box().unwrap().name(), "stsc");
    assert_eq!(stbl.sample_sizes_box().unwrap().name(), "stsz");
    assert_eq!(stbl.sample_group_desc_box().unwrap().name(), "sgpd");
    assert_eq!(stbl.sample_to_group_box().unwrap().name(), "sbgp");
    let table = stbl.offset_info_box().unwrap();
    assert_eq!((table.name(), table.level()), ("stco", 6));
    assert_eq!(table.chunk_offsets(), &vec![100, 4096, 8192]);
}

#[test]
fn children_are_listed_in_slot_order() {
    let data = full_file();
    let mp4 = Mp4::parse("full.mp4", &data).unwrap();
    let top: Vec<String> = mp4.fields().iter().map(|b| b.name().to_string()).collect();
    assert_eq!(top, ["ftyp", "wide", "mdat", "moov", "free", "skip"]);

    let moov = mp4.movie_box().unwrap();
    let names: Vec<String> =
        moov.fields().unwrap().iter().map(|b| b.name().to_string()).collect();
    assert_eq!(names, ["mvhd", "trak", "trak", "udta"]);

    let track = moov.track_box(0).unwrap();
    let names: Vec<String> =
        track.fields().unwrap().iter().map(|b| b.name().to_string()).collect();
    assert_eq!(names, ["tkhd", "edts", "mdia"]);

    let stbl = track
        .media_box()
        .unwrap()
        .media_info_box()
        .unwrap()
        .sample_table_box()
        .unwrap();
    let names: Vec<String> =
        stbl.fields().unwrap().iter().map(|b| b.name().to_string()).collect();
    assert_eq!(
        names,
        ["stsd", "stts", "ctts", "stsc", "stsz", "stco", "stss", "sdtp", "sgpd", "sbgp"]
    );
    assert!(stbl.sample_desc_header_box().unwrap().fields().is_none());
}

fn check_nesting(parent: &BoxRef<'_>) {
    assert_eq!(parent.end(), parent.start() + parent.size() as u64);
    if let Some(children) = parent.fields() {
        let mut spans: Vec<(u64, u64)> = Vec::new();
        for child in children.iter() {
            assert!(child.start() >= parent.start() + 8, "{} starts in the header", child.name());
            assert!(child.end() <= parent.end(), "{} ends after {}", child.name(), parent.name());
            assert_eq!(child.level(), parent.level() + 1);
            for (start, end) in spans.iter() {
                assert!(child.end() <= *start || *end <= child.start());
            }
            spans.push((child.start(), child.end()));
            check_nesting(child);
        }
    }
}

#[test]
fn every_child_lies_inside_its_parent_apart_from_its_siblings() {
    let data = full_file();
    let mp4 = Mp4::parse("full.mp4", &data).unwrap();
    let top = mp4.fields();
    let mut spans: Vec<(u64, u64)> = Vec::new();
    for node in top.iter() {
        assert!(node.end() <= mp4.size());
        assert_eq!(node.level(), 1);
        for (start, end) in spans.iter() {
            assert!(node.end() <= *start || *end <= node.start());
        }
        spans.push((node.start(), node.end()));
        check_nesting(node);
    }
}

#[test]
fn sizes_add_up_where_every_child_is_kept() {
    let data = full_file();
    let mp4 = Mp4::parse("full.mp4", &data).unwrap();
    let total: u64 = mp4.fields().iter().map(|b| b.size() as u64).sum();
    assert_eq!(total, mp4.size());
    let moov = mp4.movie_box().unwrap();
    let inner: usize = moov.fields().unwrap().iter().map(|b| b.size()).sum();
    assert_eq!(inner + 8, moov.size());
    let stbl = moov
        .track_box(1)
        .unwrap()
        .media_box()
        .unwrap()
        .media_info_box()
        .unwrap()
        .sample_table_box()
        .unwrap();
    let inner: usize = stbl.fields().unwrap().iter().map(|b| b.size()).sum();
    assert_eq!(inner + 8, stbl.size());
}

#[test]
fn sizes_add_up_whatever_the_order_in_the_file() {
    let tags = ["sbgp", "stco", "stsd", "sgpd", "stsz", "stts", "sdtp", "ctts", "stss", "stsc"];
    let mut body = Vec::new();
    for (i, tag) in tags.iter().enumerate() {
        if *tag == "stco" {
            body.extend(stco(&[7, 8, 9]));
        } else {
            body.extend(boxed(tag, &vec![0; 3 * i]));
        }
    }
    let stbl = boxed("stbl", &body);
    let udta = boxed("udta", &[1; 5]);
    let trak = boxed("trak", &boxed("mdia", &boxed("minf", &stbl)));
    let mvhd = boxed("mvhd", &[0; 9]);
    let moov = boxed("moov", &join(&[udta, trak.clone(), mvhd, trak]));
    let data = join(&[boxed("skip", &[]), boxed("mdat", &[0; 30]), moov, boxed("ftyp", &[0; 4])]);
    let mp4 = Mp4::parse("any-order.mp4", &data).unwrap();
    let total: u64 = mp4.fields().iter().map(|b| b.size() as u64).sum();
    assert_eq!(total, mp4.size());
    let moov = mp4.movie_box().unwrap();
    let inner: usize = moov.fields().unwrap().iter().map(|b| b.size()).sum();
    assert_eq!(8 + inner, moov.size());
    for id in 0..2 {
        let table = moov
            .track_box(id)
            .unwrap()
            .media_box()
            .unwrap()
            .media_info_box()
            .unwrap()
            .sample_table_box()
            .unwrap();
        let kept = table.fields().unwrap();
        assert_eq!(kept.len(), 10);
        let inner: usize = kept.iter().map(|b| b.size()).sum();
        assert_eq!(8 + inner, table.size());
    }
}

#[test]
fn sizes_fall_short_where_a_child_is_dropped_or_replaced() {
    let dropped = boxed("moov", &join(&[boxed("mvhd", &[]), boxed("zzzz", &[0; 4])]));
    let mp4 = Mp4::parse("d.mp4", &dropped).unwrap();
    let moov = mp4.movie_box().unwrap();
    let inner: usize = moov.fields().unwrap().iter().map(|b| b.size()).sum();
    assert_eq!(8 + inner + 12, moov.size());
    let replaced = boxed("moov", &join(&[boxed("mvhd", &[0; 2]), boxed("mvhd", &[])]));
    let mp4 = Mp4::parse("r.mp4", &replaced).unwrap();
    let moov = mp4.movie_box().unwrap();
    let inner: usize = moov.fields().unwrap().iter().map(|b| b.size()).sum();
    assert_eq!(8 + inner + 10, moov.size());
}

#[test]
fn unknown_sibling_is_parsed_and_dropped() {
    let moov = boxed("moov", &join(&[boxed("mvhd", &[0; 4]), boxed("zzzz", &[1, 2, 3])]));
    let mp4 = Mp4::parse("u.mp4", &moov).unwrap();
    let moov = mp4.movie_box().unwrap();
    assert_eq!(moov.size(), 31);
    assert_eq!(moov.movie_header_box().unwrap().size(), 12);
    let names: Vec<String> =
        moov.fields().unwrap().iter().map(|b| b.name().to_string()).collect();
    assert_eq!(names, ["mvhd"]);
    assert!(matches!(moov.user_data_box(), Err(Error::BoxNotFound(tag)) if tag == "udta"));
}

#[test]
fn unknown_top_level_box_is_parsed_and_dropped() {
    let data = join(&[boxed("uuid", &[0; 16]), boxed("ftyp", b"isom"), boxed("PNOT", &[])]);
    let mp4 = Mp4::parse("u.mp4", &data).unwrap();
    assert_eq!(mp4.fields().len(), 1);
    assert_eq!(mp4.ftype_box().unwrap().start(), 24);
}

#[test]
fn known_box_in_the_wrong_container_is_decoded_and_dropped() {
    // A track at the top level is walked as a track, and an error in it counts.
    let data = join(&[boxed("trak", &boxed("tkhd", &[])), boxed("ftyp", &[])]);
    let mp4 = Mp4::parse("w.mp4", &data).unwrap();
    assert_eq!(mp4.fields().len(), 1);
    let broken = join(&[boxed("trak", &[0, 0, 0]), boxed("ftyp", &[])]);
    assert!(matches!(Mp4::parse("w.mp4", &broken), Err(Error::TruncatedHeader)));
    // A movie header inside a sample table is a leaf that the table does not name.
    let stbl = boxed("stbl", &join(&[boxed("mvhd", &[]), boxed("stsd", &[])]));
    let file = boxed("moov", &boxed("trak", &boxed("mdia", &boxed("minf", &stbl))));
    let mp4 = Mp4::parse("w.mp4", &file).unwrap();
    let table = mp4
        .movie_box()
        .unwrap()
        .track_box(0)
        .unwrap()
        .media_box()
        .unwrap()
        .media_info_box()
        .unwrap()
        .sample_table_box()
        .unwrap();
    assert_eq!(table.fields().unwrap().len(), 1);
    assert_eq!(table.sample_desc_header_box().unwrap().start(), table.start() + 16);
}

#[test]
fn later_box_of_the_same_name_replaces_the_earlier_one() {
    let moov = boxed("moov", &join(&[boxed("mvhd", &[0; 4]), boxed("mvhd", &[0; 20])]));
    let data = join(&[boxed("ftyp", &[1]), moov, boxed("ftyp", &[1, 2, 3])]);
    let mp4 = Mp4::parse("twice.mp4", &data).unwrap();
    let ftyp = mp4.ftype_box().unwrap();
    assert_eq!((ftyp.start(), ftyp.size()), (57, 11));
    let mvhd = mp4.movie_box().unwrap().movie_header_box().unwrap();
    assert_eq!((mvhd.start(), mvhd.size()), (9 + 8 + 12, 28));
    assert_eq!(mp4.movie_box().unwrap().fields().unwrap().len(), 1);
}

#[test]
fn free_and_skip_have_slots_of_their_own() {
    let data = join(&[boxed("skip", &[0; 2]), boxed("free", &[0; 1])]);
    let mp4 = Mp4::parse("f.mp4", &data).unwrap();
    assert_eq!(mp4.free_box().unwrap().name(), "free");
    let names: Vec<String> = mp4.fields().iter().map(|b| b.name().to_string()).collect();
    assert_eq!(names, ["free", "skip"]);
    let only_skip = boxed("skip", &[]);
    let mp4 = Mp4::parse("f.mp4", &only_skip).unwrap();
    assert!(matches!(mp4.free_box(), Err(Error::BoxNotFound(tag)) if tag == "free"));
    assert_eq!(mp4.fields().len(), 1);
}

#[test]
fn wide_chunk_offsets_take_the_chunk_offset_slot() {
    let mut body = vec![0, 0, 0, 0, 0, 0, 0, 1];
    body.extend_from_slice(&0x1_0000_0000u64.to_be_bytes());
    let stbl = boxed("stbl", &join(&[stco(&[5]), boxed("co64", &body)]));
    let file = boxed("moov", &boxed("trak", &boxed("mdia", &boxed("minf", &stbl))));
    let mp4 = Mp4::parse("c.mp4", &file).unwrap();
    let table = mp4
        .movie_box()
        .unwrap()
        .track_box(0)
        .unwrap()
        .media_box()
        .unwrap()
        .media_info_box()
        .unwrap()
        .sample_table_box()
        .unwrap()
        .offset_info_box()
        .unwrap();
    assert_eq!(table.name(), "co64");
    assert_eq!(table.chunk_offsets(), &vec![0x1_0000_0000]);
}

#[test]
fn absent_children_are_not_found_by_their_tags() {
    let file = boxed("moov", &boxed("trak", &boxed("mdia", &boxed("minf", &boxed("stbl", &[])))));
    let mp4 = Mp4::parse("e.mp4", &file).unwrap();
    let moov = mp4.movie_box().unwrap();
    assert!(matches!(moov.movie_header_box(), Err(Error::BoxNotFound(t)) if t == "mvhd"));
    assert!(matches!(moov.user_data_box(), Err(Error::BoxNotFound(t)) if t == "udta"));
    let track = moov.track_box(0).unwrap();
    assert!(matches!(track.track_header_box(), Err(Error::BoxNotFound(t)) if t == "tkhd"));
    assert!(matches!(track.edit_lists_box(), Err(Error::BoxNotFound(t)) if t == "edts"));
    let mdia = track.media_box().unwrap();
    assert!(matches!(mdia.media_header_box(), Err(Error::BoxNotFound(t)) if t == "mdhd"));
    assert!(matches!(mdia.media_handler_box(), Err(Error::BoxNotFound(t)) if t == "hdlr"));
    let minf = mdia.media_info_box().unwrap();
    assert!(matches!(minf.video_media_header_box(), Err(Error::BoxNotFound(t)) if t == "vmhd"));
    assert!(matches!(minf.data_info_box(), Err(Error::BoxNotFound(t)) if t == "dinf"));
    let stbl = minf.sample_table_box().unwrap();
    assert!(matches!(stbl.sample_desc_header_box(), Err(Error::BoxNotFound(t)) if t == "stsd"));
    let stts = stbl.decoding_time_to_sample_box();
    assert!(matches!(stts, Err(Error::BoxNotFound(t)) if t == "stts"));
    let ctts = stbl.composition_time_to_sample_box();
    assert!(matches!(ctts, Err(Error::BoxNotFound(t)) if t == "ctts"));
    assert!(matches!(stbl.sync_sample_box(), Err(Error::BoxNotFound(t)) if t == "stss"));
    assert!(matches!(stbl.ind_disp_samples_box(), Err(Error::BoxNotFound(t)) if t == "sdtp"));
    assert!(matches!(stbl.stsc_box(), Err(Error::BoxNotFound(t)) if t == "stsc"));
    assert!(matches!(stbl.sample_sizes_box(), Err(Error::BoxNotFound(t)) if t == "stsz"));
    assert!(matches!(stbl.offset_info_box(), Err(Error::BoxNotFound(t)) if t == "stco"));
    assert!(matches!(stbl.sample_group_desc_box(), Err(Error::BoxNotFound(t)) if t == "sgpd"));
    assert!(matches!(stbl.sample_to_group_box(), Err(Error::BoxNotFound(t)) if t == "sbgp"));
    assert_eq!(stbl.fields().unwrap().len(), 0);
    let empty_lists = boxed("moov", &boxed("trak", &boxed("edts", &[])));
    let mp4 = Mp4::parse("e.mp4", &empty_lists).unwrap();
    let lists = mp4.movie_box().unwrap().track_box(0).unwrap().edit_lists_box().unwrap();
    assert!(matches!(lists.list_box(), Err(Error::BoxNotFound(t)) if t == "elst"));
    assert!(matches!(
        mp4.movie_box().unwrap().track_box(0).unwrap().media_box(),
        Err(Error::BoxNotFound(t)) if t == "mdia"
    ));
    assert!(matches!(
        Mp4::parse("e.mp4", &boxed("moov", &boxed("trak", &boxed("mdia", &[]))))
            .unwrap()
            .movie_box()
            .unwrap()
            .track_box(0)
            .unwrap()
            .media_box()
            .unwrap()
            .media_info_box(),
        Err(Error::BoxNotFound(t)) if t == "minf"
    ));
    assert!(matches!(
        Mp4::parse("e.mp4", &boxed("moov", &boxed("trak", &boxed("mdia", &boxed("minf", &[])))))
            .unwrap()
            .movie_box()
            .unwrap()
            .track_box(0)
            .unwrap()
            .media_box()
            .unwrap()
            .media_info_box()
            .unwrap()
            .sample_table_box(),
        Err(Error::BoxNotFound(t)) if t == "stbl"
    ));
    let bare = Mp4::parse("e.mp4", &boxed("uuid", &[])).unwrap();
    assert!(matches!(bare.ftype_box(), Err(Error::BoxNotFound(t)) if t == "ftyp"));
    assert!(matches!(bare.wide_box(), Err(Error::BoxNotFound(t)) if t == "wide"));
    assert!(matches!(bare.mdat_box(), Err(Error::BoxNotFound(t)) if t == "mdat"));
    assert!(matches!(bare.movie_box(), Err(Error::BoxNotFound(t)) if t == "moov"));
    assert!(matches!(bare.free_box(), Err(Error::BoxNotFound(t)) if t == "free"));
}
