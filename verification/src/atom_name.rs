//! The closed set of box tags that the decoder knows by name, and the
//! table that says how a box of each tag is decoded.

use vstd::prelude::*;
use vstd::string::StrSliceExecFns;

verus! {

/// The text of a four-character tag.
pub open spec fn tag(a: char, b: char, c: char, d: char) -> Seq<char> {
    seq![a, b, c, d]
}

/// The four characters of `name`, or `None` where it does not have exactly four.
pub fn four_chars(name: &str) -> (r: Option<(char, char, char, char)>)
    ensures
        r is Some <==> name@.len() == 4,
        r matches Some(c) ==> name@ == tag(c.0, c.1, c.2, c.3),
{
    if name.unicode_len() != 4 {
        return None;
    }
    let a = name.get_char(0);
    let b = name.get_char(1);
    let c = name.get_char(2);
    let d = name.get_char(3);
    assert(name@ =~= tag(a, b, c, d));
    Some((a, b, c, d))
}

/// A tag is made of the four characters it was spelled with.
pub proof fn lemma_tag_chars(a: char, b: char, c: char, d: char)
    ensures
        tag(a, b, c, d).len() == 4,
        tag(a, b, c, d)[0] == a,
        tag(a, b, c, d)[1] == b,
        tag(a, b, c, d)[2] == c,
        tag(a, b, c, d)[3] == d,
{
}

/// Whether `name` is the tag spelled by the four given characters.
pub fn is_tag(name: &str, a: char, b: char, c: char, d: char) -> (r: bool)
    ensures
        r == (name@ == tag(a, b, c, d)),
{
    proof {
        lemma_tag_chars(a, b, c, d);
    }
    match four_chars(name) {
        None => false,
        Some(t) => {
            proof {
                lemma_tag_chars(t.0, t.1, t.2, t.3);
            }
            t.0 == a && t.1 == b && t.2 == c && t.3 == d
        },
    }
}

/// The boxes that the decoder knows by name. Every other tag is `Other`.
#[derive(Debug, Clone, Copy, PartialEq, Eq, Structural)]
pub enum AtomName {
    /// `ftyp`: file type and compatibility.
    FileType,
    /// `wide`: reserved space for a 64-bit size.
    Wide,
    /// `moov`: container for all the metadata.
    Movie,
    /// `mdat`: media data container.
    MediaData,
    /// `free`: free space.
    Free,
    /// `skip`: unused space available in the file.
    Skip,
    /// `mvhd`: movie header.
    MovieHeader,
    /// `trak`: one track of the movie.
    Track,
    /// `udta`: user data.
    Userdata,
    /// `tkhd`: track header.
    TrackHeader,
    /// `edts`: edit lists.
    EditLists,
    /// `elst`: one edit list.
    EditList,
    /// `mdia`: media metadata of a track.
    Media,
    /// `mdhd`: media header.
    MediaHeader,
    /// `hdlr`: media handler.
    MediaHandler,
    /// `minf`: media information.
    MediaInfo,
    /// `vmhd`: video media header.
    VideoMediaHeader,
    /// `dinf`: data information.
    DataInfo,
    /// `stbl`: sample table.
    SampleTable,
    /// `stsd`: sample description.
    SampleDesc,
    /// `stts`: decoding time to sample.
    TimeToSample,
    /// `ctts`: composition time to sample.
    CompositionOffset,
    /// `stss`: sync sample table.
    SyncSample,
    /// `sdtp`: independent and disposable samples.
    SampleDependency,
    /// `stsc`: sample to chunk.
    SampleToChunk,
    /// `stsz`: sample sizes.
    SampleSize,
    /// `stco`: chunk offsets, 32 bits each.
    ChunkOffset,
    /// `co64`: chunk offsets, 64 bits each.
    ChunkOffset64,
    /// `sgpd`: sample group description.
    SampleGroupDesc,
    /// `sbgp`: sample to group.
    SampleToGroup,
    /// Any tag that is not listed above.
    Other,
}

/// How a box is decoded once its header has been read.
#[derive(Debug, Clone, Copy, PartialEq, Eq, Structural)]
pub enum Decoder {
    /// A leaf of which only the header is kept.
    Opaque,
    /// The file type leaf.
    FileType,
    /// The media data leaf; its payload is never read.
    MediaData,
    /// A free-space leaf.
    Free,
    /// The reserved-space leaf.
    Wide,
    /// A table of chunk offsets: eight bytes each where `wide`, else four.
    ChunkOffsets { wide: bool },
    /// The movie container.
    Movie,
    /// A track container.
    Track,
    /// The edit lists container.
    EditLists,
    /// The media container.
    Media,
    /// The media information container.
    MediaInfo,
    /// The sample table container.
    SampleTable,
}

impl Decoder {
    /// Whether the body of such a box is itself a sequence of boxes.
    pub open spec fn is_container(self) -> bool {
        self is Movie || self is Track || self is EditLists || self is Media || self is MediaInfo
            || self is SampleTable
    }
}

impl AtomName {
    /// The name that the tag `name` stands for.
    pub open spec fn of(name: Seq<char>) -> AtomName {
        if name == tag('f', 't', 'y', 'p') {
            AtomName::FileType
        } else if name == tag('w', 'i', 'd', 'e') {
            AtomName::Wide
        } else if name == tag('m', 'o', 'o', 'v') {
            AtomName::Movie
        } else if name == tag('m', 'd', 'a', 't') {
            AtomName::MediaData
        } else if name == tag('f', 'r', 'e', 'e') {
            AtomName::Free
        } else if name == tag('s', 'k', 'i', 'p') {
            AtomName::Skip
        } else if name == tag('m', 'v', 'h', 'd') {
            AtomName::MovieHeader
        } else if name == tag('t', 'r', 'a', 'k') {
            AtomName::Track
        } else if name == tag('u', 'd', 't', 'a') {
            AtomName::Userdata
        } else if name == tag('t', 'k', 'h', 'd') {
            AtomName::TrackHeader
        } else if name == tag('e', 'd', 't', 's') {
            AtomName::EditLists
        } else if name == tag('e', 'l', 's', 't') {
            AtomName::EditList
        } else if name == tag('m', 'd', 'i', 'a') {
            AtomName::Media
        } else if name == tag('m', 'd', 'h', 'd') {
            AtomName::MediaHeader
        } else if name == tag('h', 'd', 'l', 'r') {
            AtomName::MediaHandler
        } else if name == tag('m', 'i', 'n', 'f') {
            AtomName::MediaInfo
        } else if name == tag('v', 'm', 'h', 'd') {
            AtomName::VideoMediaHeader
        } else if name == tag('d', 'i', 'n', 'f') {
            AtomName::DataInfo
        } else if name == tag('s', 't', 'b', 'l') {
            AtomName::SampleTable
        } else if name == tag('s', 't', 's', 'd') {
            AtomName::SampleDesc
        } else if name == tag('s', 't', 't', 's') {
            AtomName::TimeToSample
        } else if name == tag('c', 't', 't', 's') {
            AtomName::CompositionOffset
        } else if name == tag('s', 't', 's', 's') {
            AtomName::SyncSample
        } else if name == tag('s', 'd', 't', 'p') {
            AtomName::SampleDependency
        } else if name == tag('s', 't', 's', 'c') {
            AtomName::SampleToChunk
        } else if name == tag('s', 't', 's', 'z') {
            AtomName::SampleSize
        } else if name == tag('s', 't', 'c', 'o') {
            AtomName::ChunkOffset
        } else if name == tag('c', 'o', '6', '4') {
            AtomName::ChunkOffset64
        } else if name == tag('s', 'g', 'p', 'd') {
            AtomName::SampleGroupDesc
        } else if name == tag('s', 'b', 'g', 'p') {
            AtomName::SampleToGroup
        } else {
            AtomName::Other
        }
    }

    /// Looks the tag `name` up. The lookup is total: a tag outside the known
    /// set is `Other`.
    pub fn lookup(name: &str) -> (r: AtomName)
        ensures
            r == AtomName::of(name@),
    {
        if is_tag(name, 'f', 't', 'y', 'p') {
            AtomName::FileType
        } else if is_tag(name, 'w', 'i', 'd', 'e') {
            AtomName::Wide
        } else if is_tag(name, 'm', 'o', 'o', 'v') {
            AtomName::Movie
        } else if is_tag(name, 'm', 'd', 'a', 't') {
            AtomName::MediaData
        } else if is_tag(name, 'f', 'r', 'e', 'e') {
            AtomName::Free
        } else if is_tag(name, 's', 'k', 'i', 'p') {
            AtomName::Skip
        } else if is_tag(name, 'm', 'v', 'h', 'd') {
            AtomName::MovieHeader
        } else if is_tag(name, 't', 'r', 'a', 'k') {
            AtomName::Track
        } else if is_tag(name, 'u', 'd', 't', 'a') {
            AtomName::Userdata
        } else if is_tag(name, 't', 'k', 'h', 'd') {
            AtomName::TrackHeader
        } else if is_tag(name, 'e', 'd', 't', 's') {
            AtomName::EditLists
        } else if is_tag(name, 'e', 'l', 's', 't') {
            AtomName::EditList
        } else if is_tag(name, 'm', 'd', 'i', 'a') {
            AtomName::Media
        } else if is_tag(name, 'm', 'd', 'h', 'd') {
            AtomName::MediaHeader
        } else if is_tag(name, 'h', 'd', 'l', 'r') {
            AtomName::MediaHandler
        } else if is_tag(name, 'm', 'i', 'n', 'f') {
            AtomName::MediaInfo
        } else if is_tag(name, 'v', 'm', 'h', 'd') {
            AtomName::VideoMediaHeader
        } else if is_tag(name, 'd', 'i', 'n', 'f') {
            AtomName::DataInfo
        } else if is_tag(name, 's', 't', 'b', 'l') {
            AtomName::SampleTable
        } else if is_tag(name, 's', 't', 's', 'd') {
            AtomName::SampleDesc
        } else if is_tag(name, 's', 't', 't', 's') {
            AtomName::TimeToSample
        } else if is_tag(name, 'c', 't', 't', 's') {
            AtomName::CompositionOffset
        } else if is_tag(name, 's', 't', 's', 's') {
            AtomName::SyncSample
        } else if is_tag(name, 's', 'd', 't', 'p') {
            AtomName::SampleDependency
        } else if is_tag(name, 's', 't', 's', 'c') {
            AtomName::SampleToChunk
        } else if is_tag(name, 's', 't', 's', 'z') {
            AtomName::SampleSize
        } else if is_tag(name, 's', 't', 'c', 'o') {
            AtomName::ChunkOffset
        } else if is_tag(name, 'c', 'o', '6', '4') {
            AtomName::ChunkOffset64
        } else if is_tag(name, 's', 'g', 'p', 'd') {
            AtomName::SampleGroupDesc
        } else if is_tag(name, 's', 'b', 'g', 'p') {
            AtomName::SampleToGroup
        } else {
            AtomName::Other
        }
    }

    /// The label under which this name is reported: the tag of the box,
    /// except that user data is `udata`, edit lists are `rdts`, and a tag
    /// outside the known set is `other`.
    pub fn label(self) -> (r: &'static str)
        ensures
            r == self.label_of(),
    {
        match self {
            AtomName::FileType => "ftyp",
            AtomName::Wide => "wide",
            AtomName::Movie => "moov",
            AtomName::MediaData => "mdat",
            AtomName::Free => "free",
            AtomName::Skip => "skip",
            AtomName::MovieHeader => "mvhd",
            AtomName::Track => "trak",
            AtomName::Userdata => "udata",
            AtomName::TrackHeader => "tkhd",
            AtomName::EditLists => "rdts",
            AtomName::EditList => "elst",
            AtomName::Media => "mdia",
            AtomName::MediaHeader => "mdhd",
            AtomName::MediaHandler => "hdlr",
            AtomName::MediaInfo => "minf",
            AtomName::VideoMediaHeader => "vmhd",
            AtomName::DataInfo => "dinf",
            AtomName::SampleTable => "stbl",
            AtomName::SampleDesc => "stsd",
            AtomName::TimeToSample => "stts",
            AtomName::CompositionOffset => "ctts",
            AtomName::SyncSample => "stss",
            AtomName::SampleDependency => "sdtp",
            AtomName::SampleToChunk => "stsc",
            AtomName::SampleSize => "stsz",
            AtomName::ChunkOffset => "stco",
            AtomName::ChunkOffset64 => "co64",
            AtomName::SampleGroupDesc => "sgpd",
            AtomName::SampleToGroup => "sbgp",
            AtomName::Other => "other",
        }
    }

    /// The label as a value, for use in contracts.
    pub open spec fn label_of(self) -> &'static str {
        match self {
            AtomName::FileType => "ftyp",
            AtomName::Wide => "wide",
            AtomName::Movie => "moov",
            AtomName::MediaData => "mdat",
            AtomName::Free => "free",
            AtomName::Skip => "skip",
            AtomName::MovieHeader => "mvhd",
            AtomName::Track => "trak",
            AtomName::Userdata => "udata",
            AtomName::TrackHeader => "tkhd",
            AtomName::EditLists => "rdts",
            AtomName::EditList => "elst",
            AtomName::Media => "mdia",
            AtomName::MediaHeader => "mdhd",
            AtomName::MediaHandler => "hdlr",
            AtomName::MediaInfo => "minf",
            AtomName::VideoMediaHeader => "vmhd",
            AtomName::DataInfo => "dinf",
            AtomName::SampleTable => "stbl",
            AtomName::SampleDesc => "stsd",
            AtomName::TimeToSample => "stts",
            AtomName::CompositionOffset => "ctts",
            AtomName::SyncSample => "stss",
            AtomName::SampleDependency => "sdtp",
            AtomName::SampleToChunk => "stsc",
            AtomName::SampleSize => "stsz",
            AtomName::ChunkOffset => "stco",
            AtomName::ChunkOffset64 => "co64",
            AtomName::SampleGroupDesc => "sgpd",
            AtomName::SampleToGroup => "sbgp",
            AtomName::Other => "other",
        }
    }

    /// The dispatch table: which decoder a box of this name is handed to.
    /// It is the same at every nesting level, and it never fails: a name
    /// without a decoder of its own is an opaque leaf.
    pub fn decoder(self) -> (d: Decoder)
        ensures
            d == self.decoder_of(),
    {
        match self {
            AtomName::FileType => Decoder::FileType,
            AtomName::MediaData => Decoder::MediaData,
            AtomName::Free => Decoder::Free,
            AtomName::Skip => Decoder::Free,
            AtomName::Wide => Decoder::Wide,
            AtomName::ChunkOffset => Decoder::ChunkOffsets { wide: false },
            AtomName::ChunkOffset64 => Decoder::ChunkOffsets { wide: true },
            AtomName::Movie => Decoder::Movie,
            AtomName::Track => Decoder::Track,
            AtomName::EditLists => Decoder::EditLists,
            AtomName::Media => Decoder::Media,
            AtomName::MediaInfo => Decoder::MediaInfo,
            AtomName::SampleTable => Decoder::SampleTable,
            _ => Decoder::Opaque,
        }
    }

    /// The dispatch table as a mathematical function.
    pub open spec fn decoder_of(self) -> Decoder {
        match self {
            AtomName::FileType => Decoder::FileType,
            AtomName::MediaData => Decoder::MediaData,
            AtomName::Free => Decoder::Free,
            AtomName::Skip => Decoder::Free,
            AtomName::Wide => Decoder::Wide,
            AtomName::ChunkOffset => Decoder::ChunkOffsets { wide: false },
            AtomName::ChunkOffset64 => Decoder::ChunkOffsets { wide: true },
            AtomName::Movie => Decoder::Movie,
            AtomName::Track => Decoder::Track,
            AtomName::EditLists => Decoder::EditLists,
            AtomName::Media => Decoder::Media,
            AtomName::MediaInfo => Decoder::MediaInfo,
            AtomName::SampleTable => Decoder::SampleTable,
            _ => Decoder::Opaque,
        }
    }
}

impl<'a> From<&'a str> for AtomName {
    /// The same lookup as [`AtomName::lookup`].
    fn from(name: &'a str) -> (r: AtomName) {
        AtomName::lookup(name)
    }
}

impl<'a> vstd::std_specs::convert::FromSpecImpl<&'a str> for AtomName {
    open spec fn obeys_from_spec() -> bool {
        true
    }

    open spec fn from_spec(name: &'a str) -> AtomName {
        AtomName::of(name@)
    }
}

impl From<AtomName> for &'static str {
    /// The same text as [`AtomName::label`].
    fn from(name: AtomName) -> (r: &'static str) {
        name.label()
    }
}

impl vstd::std_specs::convert::FromSpecImpl<AtomName> for &'static str {
    open spec fn obeys_from_spec() -> bool {
        true
    }

    open spec fn from_spec(name: AtomName) -> &'static str {
        name.label_of()
    }
}

} // verus!
