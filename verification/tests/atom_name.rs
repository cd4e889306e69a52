use fmvparse::atom_name::{four_chars, is_tag, AtomName, Decoder};

#[test]
fn every_known_tag_has_its_name() {
    let table = [
        ("ftyp", AtomName::FileType),
        ("wide", AtomName::Wide),
        ("moov", AtomName::Movie),
        ("mdat", AtomName::MediaData),
        ("free", AtomName::Free),
        ("skip", AtomName::Skip),
        ("mvhd", AtomName::MovieHeader),
        ("trak", AtomName::Track),
        ("udta", AtomName::Userdata),
        ("tkhd", AtomName::TrackHeader),
        ("edts", AtomName::EditLists),
        ("elst", AtomName::EditList),
        ("mdia", AtomName::Media),
        ("mdhd", AtomName::MediaHeader),
        ("hdlr", AtomName::MediaHandler),
        ("minf", AtomName::MediaInfo),
        ("vmhd", AtomName::VideoMediaHeader),
        ("dinf", AtomName::DataInfo),
        ("stbl", AtomName::SampleTable),
        ("stsd", AtomName::SampleDesc),
        ("stts", AtomName::TimeToSample),
        ("ctts", AtomName::CompositionOffset),
        ("stss", AtomName::SyncSample),
        ("sdtp", AtomName::SampleDependency),
        ("stsc", AtomName::SampleToChunk),
        ("stsz", AtomName::SampleSize),
        ("stco", AtomName::ChunkOffset),
        ("co64", AtomName::ChunkOffset64),
        ("sgpd", AtomName::SampleGroupDesc),
        ("sbgp", AtomName::SampleToGroup),
    ];
    for (tag, name) in table {
        assert_eq!(AtomName::lookup(tag), name, "{}", tag);
        assert_eq!(AtomName::from(tag), name, "{}", tag);
    }
}

#[test]
fn any_other_tag_is_other() {
    for tag in ["", "m", "moo", "moovv", "MOOV", "uuid", "zzzz", "moo\u{e9}", "\u{e9}\u{e9}"] {
        assert_eq!(AtomName::lookup(tag), AtomName::Other, "{:?}", tag);
    }
}

#[test]
fn labels_are_the_reported_names() {
    assert_eq!(AtomName::FileType.label(), "ftyp");
    assert_eq!(AtomName::Movie.label(), "moov");
    assert_eq!(AtomName::Track.label(), "trak");
    assert_eq!(AtomName::SampleTable.label(), "stbl");
    assert_eq!(AtomName::ChunkOffset.label(), "stco");
    assert_eq!(AtomName::Userdata.label(), "udata");
    assert_eq!(AtomName::EditLists.label(), "rdts");
    assert_eq!(AtomName::Other.label(), "other");
    let text: &str = AtomName::MediaData.into();
    assert_eq!(text, "mdat");
}

#[test]
fn dispatch_is_total() {
    assert_eq!(AtomName::Movie.decoder(), Decoder::Movie);
    assert_eq!(AtomName::Track.decoder(), Decoder::Track);
    assert_eq!(AtomName::EditLists.decoder(), Decoder::EditLists);
    assert_eq!(AtomName::Media.decoder(), Decoder::Media);
    assert_eq!(AtomName::MediaInfo.decoder(), Decoder::MediaInfo);
    assert_eq!(AtomName::SampleTable.decoder(), Decoder::SampleTable);
    assert_eq!(AtomName::FileType.decoder(), Decoder::FileType);
    assert_eq!(AtomName::MediaData.decoder(), Decoder::MediaData);
    assert_eq!(AtomName::Free.decoder(), Decoder::Free);
    assert_eq!(AtomName::Skip.decoder(), Decoder::Free);
    assert_eq!(AtomName::Wide.decoder(), Decoder::Wide);
    assert_eq!(AtomName::ChunkOffset.decoder(), Decoder::ChunkOffsets { wide: false });
    assert_eq!(AtomName::ChunkOffset64.decoder(), Decoder::ChunkOffsets { wide: true });
    for name in [
        AtomName::MovieHeader,
        AtomName::Userdata,
        AtomName::TrackHeader,
        AtomName::EditList,
        AtomName::MediaHeader,
        AtomName::MediaHandler,
        AtomName::VideoMediaHeader,
        AtomName::DataInfo,
        AtomName::SampleDesc,
        AtomName::TimeToSample,
        AtomName::CompositionOffset,
        AtomName::SyncSample,
        AtomName::SampleDependency,
        AtomName::SampleToChunk,
        AtomName::SampleSize,
        AtomName::SampleGroupDesc,
        AtomName::SampleToGroup,
        AtomName::Other,
    ] {
        assert_eq!(name.decoder(), Decoder::Opaque, "{:?}", name);
    }
}

#[test]
fn four_chars_counts_characters_not_bytes() {
    assert_eq!(four_chars("moov"), Some(('m', 'o', 'o', 'v')));
    assert_eq!(four_chars("moo"), None);
    assert_eq!(four_chars("moovv"), None);
    assert_eq!(four_chars("\u{e9}\u{e9}\u{e9}\u{e9}"), Some(('é', 'é', 'é', 'é')));
    assert!(is_tag("stco", 's', 't', 'c', 'o'));
    assert!(!is_tag("stco", 's', 't', 'c', '0'));
    assert!(!is_tag("stc", 's', 't', 'c', 'o'));
}
