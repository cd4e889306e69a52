//! The mathematical model of a decoded tree.
//!
//! Every executable box type has a view in this module. The contracts of the
//! decoders, of the accessors and of the renderer are stated over these views.

use crate::atom_name::{AtomName, Decoder};
use crate::header::HeaderView;
use vstd::prelude::*;

verus! {

/// A leaf box: a header, and the nesting depth at which it was found.
pub struct LeafView {
    pub header: HeaderView,
    pub level: int,
}

/// A chunk offset table: a leaf with its decoded offsets, in file order.
pub struct ChunkOffsetView {
    pub header: HeaderView,
    pub level: int,
    pub offsets: Seq<u64>,
}

/// The sample table container (`stbl`).
pub struct SampleTableView {
    pub header: HeaderView,
    pub level: int,
    pub stsd: Option<LeafView>,
    pub stts: Option<LeafView>,
    pub ctts: Option<LeafView>,
    pub stss: Option<LeafView>,
    pub sdtp: Option<LeafView>,
    pub stsc: Option<LeafView>,
    pub stsz: Option<LeafView>,
    pub stco: Option<ChunkOffsetView>,
    pub sgpd: Option<LeafView>,
    pub sbgp: Option<LeafView>,
}

/// The media information container (`minf`).
pub struct MediaInfoView {
    pub header: HeaderView,
    pub level: int,
    pub vmhd: Option<LeafView>,
    pub dinf: Option<LeafView>,
    pub stbl: Option<SampleTableView>,
}

/// The media container (`mdia`).
pub struct MediaView {
    pub header: HeaderView,
    pub level: int,
    pub mdhd: Option<LeafView>,
    pub hdlr: Option<LeafView>,
    pub minf: Option<MediaInfoView>,
}

/// The edit lists container (`edts`).
pub struct EditListsView {
    pub header: HeaderView,
    pub level: int,
    pub elst: Option<LeafView>,
}

/// A track container (`trak`).
pub struct TrackView {
    pub header: HeaderView,
    pub level: int,
    pub tkhd: Option<LeafView>,
    pub edts: Option<EditListsView>,
    pub mdia: Option<MediaView>,
}

/// The movie container (`moov`).
pub struct MovieView {
    pub header: HeaderView,
    pub level: int,
    pub mvhd: Option<LeafView>,
    pub tracks: Seq<TrackView>,
    pub udta: Option<LeafView>,
}

/// The root of a file: its conventional top-level boxes and its length.
pub struct Mp4View {
    pub ftyp: Option<LeafView>,
    pub wide: Option<LeafView>,
    pub mdat: Option<LeafView>,
    pub moov: Option<MovieView>,
    pub free: Option<LeafView>,
    pub skip: Option<LeafView>,
    pub size: int,
    pub file: Seq<char>,
}

/// Any decoded box: one variant for each decoder of the dispatch table.
pub enum NodeView {
    Inner(LeafView),
    FileType(LeafView),
    MediaData(LeafView),
    Free(LeafView),
    Wide(LeafView),
    ChunkOffset(ChunkOffsetView),
    Movie(MovieView),
    Track(TrackView),
    EditLists(EditListsView),
    Media(MediaView),
    MediaInfo(MediaInfoView),
    SampleTable(SampleTableView),
}

/// The mathematical value of an optional box.
pub open spec fn opt_view<T: View>(slot: Option<T>) -> Option<T::V> {
    match slot {
        Some(b) => Some(b@),
        None => None,
    }
}

/// The zero or one children that an optional opaque leaf contributes.
pub open spec fn inner_child(slot: Option<LeafView>) -> Seq<NodeView> {
    match slot {
        Some(leaf) => seq![NodeView::Inner(leaf)],
        None => seq![],
    }
}

/// The zero or one children that an optional chunk offset table contributes.
pub open spec fn chunk_offset_child(slot: Option<ChunkOffsetView>) -> Seq<NodeView> {
    match slot {
        Some(table) => seq![NodeView::ChunkOffset(table)],
        None => seq![],
    }
}

/// The zero or one children that an optional sample table contributes.
pub open spec fn sample_table_child(slot: Option<SampleTableView>) -> Seq<NodeView> {
    match slot {
        Some(table) => seq![NodeView::SampleTable(table)],
        None => seq![],
    }
}

/// The zero or one children that an optional media information box contributes.
pub open spec fn media_info_child(slot: Option<MediaInfoView>) -> Seq<NodeView> {
    match slot {
        Some(info) => seq![NodeView::MediaInfo(info)],
        None => seq![],
    }
}

/// The zero or one children that an optional media box contributes.
pub open spec fn media_child(slot: Option<MediaView>) -> Seq<NodeView> {
    match slot {
        Some(media) => seq![NodeView::Media(media)],
        None => seq![],
    }
}

/// The zero or one children that an optional edit lists box contributes.
pub open spec fn edit_lists_child(slot: Option<EditListsView>) -> Seq<NodeView> {
    match slot {
        Some(lists) => seq![NodeView::EditLists(lists)],
        None => seq![],
    }
}

/// The zero or one children that an optional movie contributes.
pub open spec fn movie_child(slot: Option<MovieView>) -> Seq<NodeView> {
    match slot {
        Some(movie) => seq![NodeView::Movie(movie)],
        None => seq![],
    }
}

/// The zero or one children that an optional file type leaf contributes.
pub open spec fn file_type_child(slot: Option<LeafView>) -> Seq<NodeView> {
    match slot {
        Some(leaf) => seq![NodeView::FileType(leaf)],
        None => seq![],
    }
}

/// The zero or one children that an optional reserved-space leaf contributes.
pub open spec fn wide_child(slot: Option<LeafView>) -> Seq<NodeView> {
    match slot {
        Some(leaf) => seq![NodeView::Wide(leaf)],
        None => seq![],
    }
}

/// The zero or one children that an optional media data leaf contributes.
pub open spec fn media_data_child(slot: Option<LeafView>) -> Seq<NodeView> {
    match slot {
        Some(leaf) => seq![NodeView::MediaData(leaf)],
        None => seq![],
    }
}

/// The zero or one children that an optional free-space leaf contributes.
pub open spec fn free_child(slot: Option<LeafView>) -> Seq<NodeView> {
    match slot {
        Some(leaf) => seq![NodeView::Free(leaf)],
        None => seq![],
    }
}

/// The boxes of `parts`, joined in order.
pub open spec fn join(parts: Seq<Seq<NodeView>>) -> Seq<NodeView>
    decreases parts.len(),
{
    if parts.len() == 0 {
        Seq::empty()
    } else {
        join(parts.drop_last()) + parts.last()
    }
}

/// Joining one more part is joining its boxes to the end.
pub proof fn lemma_join_push(parts: Seq<Seq<NodeView>>, part: Seq<NodeView>)
    ensures
        join(parts.push(part)) == join(parts) + part,
{
    assert(parts.push(part).drop_last() =~= parts);
}

impl SampleTableView {
    /// The sample table with header `header` and no child yet.
    pub open spec fn empty(header: HeaderView, level: int) -> SampleTableView {
        SampleTableView {
            header,
            level,
            stsd: None,
            stts: None,
            ctts: None,
            stss: None,
            sdtp: None,
            stsc: None,
            stsz: None,
            stco: None,
            sgpd: None,
            sbgp: None,
        }
    }

    /// The table after `child` was found in its body: a child that the
    /// table names takes its slot, replacing an earlier one; any other
    /// child leaves the table as it is.
    pub open spec fn put(self, child: NodeView) -> SampleTableView {
        match child {
            NodeView::Inner(leaf) => match AtomName::of(leaf.header.name) {
                AtomName::SampleDesc => SampleTableView { stsd: Some(leaf), ..self },
                AtomName::TimeToSample => SampleTableView { stts: Some(leaf), ..self },
                AtomName::CompositionOffset => SampleTableView { ctts: Some(leaf), ..self },
                AtomName::SyncSample => SampleTableView { stss: Some(leaf), ..self },
                AtomName::SampleDependency => SampleTableView { sdtp: Some(leaf), ..self },
                AtomName::SampleToChunk => SampleTableView { stsc: Some(leaf), ..self },
                AtomName::SampleSize => SampleTableView { stsz: Some(leaf), ..self },
                AtomName::SampleGroupDesc => SampleTableView { sgpd: Some(leaf), ..self },
                AtomName::SampleToGroup => SampleTableView { sbgp: Some(leaf), ..self },
                _ => self,
            },
            NodeView::ChunkOffset(table) => SampleTableView { stco: Some(table), ..self },
            _ => self,
        }
    }

    /// The slot that takes `child` in: the place in [`Self::parts`] of the
    /// part that it goes to. `None` for a child that the table does not
    /// name.
    pub open spec fn slot_of(child: NodeView) -> Option<int> {
        match child {
            NodeView::Inner(leaf) => match AtomName::of(leaf.header.name) {
                AtomName::SampleDesc => Some(0),
                AtomName::TimeToSample => Some(1),
                AtomName::CompositionOffset => Some(2),
                AtomName::SampleToChunk => Some(3),
                AtomName::SampleSize => Some(4),
                AtomName::SyncSample => Some(6),
                AtomName::SampleDependency => Some(7),
                AtomName::SampleGroupDesc => Some(8),
                AtomName::SampleToGroup => Some(9),
                _ => None,
            },
            NodeView::ChunkOffset(_) => Some(5),
            _ => None,
        }
    }

    /// What each slot of the table contributes to its children, in the order
    /// in which they are listed.
    pub open spec fn parts(self) -> Seq<Seq<NodeView>> {
        Seq::empty()
            .push(inner_child(self.stsd))
            .push(inner_child(self.stts))
            .push(inner_child(self.ctts))
            .push(inner_child(self.stsc))
            .push(inner_child(self.stsz))
            .push(chunk_offset_child(self.stco))
            .push(inner_child(self.stss))
            .push(inner_child(self.sdtp))
            .push(inner_child(self.sgpd))
            .push(inner_child(self.sbgp))
    }

    /// The children that the table kept, in the order in which they are listed.
    pub open spec fn children(self) -> Seq<NodeView> {
        join(self.parts())
    }
}

impl MediaInfoView {
    /// The media information box with header `header` and no child yet.
    pub open spec fn empty(header: HeaderView, level: int) -> MediaInfoView {
        MediaInfoView { header, level, vmhd: None, dinf: None, stbl: None }
    }

    /// The box after `child` was found in its body.
    pub open spec fn put(self, child: NodeView) -> MediaInfoView {
        match child {
            NodeView::Inner(leaf) => match AtomName::of(leaf.header.name) {
                AtomName::VideoMediaHeader => MediaInfoView { vmhd: Some(leaf), ..self },
                AtomName::DataInfo => MediaInfoView { dinf: Some(leaf), ..self },
                _ => self,
            },
            NodeView::SampleTable(table) => MediaInfoView { stbl: Some(table), ..self },
            _ => self,
        }
    }

    /// The slot that takes `child` in: the place in [`Self::parts`] of the
    /// part that it goes to. `None` for a child that the box does not
    /// name.
    pub open spec fn slot_of(child: NodeView) -> Option<int> {
        match child {
            NodeView::Inner(leaf) => match AtomName::of(leaf.header.name) {
                AtomName::VideoMediaHeader => Some(0),
                AtomName::DataInfo => Some(1),
                _ => None,
            },
            NodeView::SampleTable(_) => Some(2),
            _ => None,
        }
    }

    /// What each slot of the box contributes to its children, in listing order.
    pub open spec fn parts(self) -> Seq<Seq<NodeView>> {
        Seq::empty()
            .push(inner_child(self.vmhd))
            .push(inner_child(self.dinf))
            .push(sample_table_child(self.stbl))
    }

    /// The children that the box kept, in the order in which they are listed.
    pub open spec fn children(self) -> Seq<NodeView> {
        join(self.parts())
    }
}

impl MediaView {
    /// The media box with header `header` and no child yet.
    pub open spec fn empty(header: HeaderView, level: int) -> MediaView {
        MediaView { header, level, mdhd: None, hdlr: None, minf: None }
    }

    /// The box after `child` was found in its body.
    pub open spec fn put(self, child: NodeView) -> MediaView {
        match child {
            NodeView::Inner(leaf) => match AtomName::of(leaf.header.name) {
                AtomName::MediaHeader => MediaView { mdhd: Some(leaf), ..self },
                AtomName::MediaHandler => MediaView { hdlr: Some(leaf), ..self },
                _ => self,
            },
            NodeView::MediaInfo(info) => MediaView { minf: Some(info), ..self },
            _ => self,
        }
    }

    /// The slot that takes `child` in: the place in [`Self::parts`] of the
    /// part that it goes to. `None` for a child that the box does not
    /// name.
    pub open spec fn slot_of(child: NodeView) -> Option<int> {
        match child {
            NodeView::Inner(leaf) => match AtomName::of(leaf.header.name) {
                AtomName::MediaHeader => Some(0),
                AtomName::MediaHandler => Some(1),
                _ => None,
            },
            NodeView::MediaInfo(_) => Some(2),
            _ => None,
        }
    }

    /// What each slot of the box contributes to its children, in listing order.
    pub open spec fn parts(self) -> Seq<Seq<NodeView>> {
        Seq::empty()
            .push(inner_child(self.mdhd))
            .push(inner_child(self.hdlr))
            .push(media_info_child(self.minf))
    }

    /// The children that the box kept, in the order in which they are listed.
    pub open spec fn children(self) -> Seq<NodeView> {
        join(self.parts())
    }
}

impl EditListsView {
    /// The edit lists box with header `header` and no child yet.
    pub open spec fn empty(header: HeaderView, level: int) -> EditListsView {
        EditListsView { header, level, elst: None }
    }

    /// The box after `child` was found in its body.
    pub open spec fn put(self, child: NodeView) -> EditListsView {
        match child {
            NodeView::Inner(leaf) => match AtomName::of(leaf.header.name) {
                AtomName::EditList => EditListsView { elst: Some(leaf), ..self },
                _ => self,
            },
            _ => self,
        }
    }

    /// The slot that takes `child` in: the place in [`Self::parts`] of the
    /// part that it goes to. `None` for a child that the box does not
    /// name.
    pub open spec fn slot_of(child: NodeView) -> Option<int> {
        match child {
            NodeView::Inner(leaf) => match AtomName::of(leaf.header.name) {
                AtomName::EditList => Some(0),
                _ => None,
            },
            _ => None,
        }
    }

    /// What each slot of the box contributes to its children.
    pub open spec fn parts(self) -> Seq<Seq<NodeView>> {
        Seq::empty().push(inner_child(self.elst))
    }

    /// The children that the box kept.
    pub open spec fn children(self) -> Seq<NodeView> {
        join(self.parts())
    }
}

impl TrackView {
    /// The track with header `header` and no child yet.
    pub open spec fn empty(header: HeaderView, level: int) -> TrackView {
        TrackView { header, level, tkhd: None, edts: None, mdia: None }
    }

    /// The track after `child` was found in its body.
    pub open spec fn put(self, child: NodeView) -> TrackView {
        match child {
            NodeView::Inner(leaf) => match AtomName::of(leaf.header.name) {
                AtomName::TrackHeader => TrackView { tkhd: Some(leaf), ..self },
                _ => self,
            },
            NodeView::EditLists(lists) => TrackView { edts: Some(lists), ..self },
            NodeView::Media(media) => TrackView { mdia: Some(media), ..self },
            _ => self,
        }
    }

    /// The slot that takes `child` in: the place in [`Self::parts`] of the
    /// part that it goes to. `None` for a child that the track does not
    /// name.
    pub open spec fn slot_of(child: NodeView) -> Option<int> {
        match child {
            NodeView::Inner(leaf) => match AtomName::of(leaf.header.name) {
                AtomName::TrackHeader => Some(0),
                _ => None,
            },
            NodeView::EditLists(_) => Some(1),
            NodeView::Media(_) => Some(2),
            _ => None,
        }
    }

    /// What each slot of the track contributes to its children, in listing order.
    pub open spec fn parts(self) -> Seq<Seq<NodeView>> {
        Seq::empty()
            .push(inner_child(self.tkhd))
            .push(edit_lists_child(self.edts))
            .push(media_child(self.mdia))
    }

    /// The children that the track kept, in the order in which they are listed.
    pub open spec fn children(self) -> Seq<NodeView> {
        join(self.parts())
    }
}

impl MovieView {
    /// The movie with header `header` and no child yet.
    pub open spec fn empty(header: HeaderView, level: int) -> MovieView {
        MovieView { header, level, mvhd: None, tracks: Seq::empty(), udta: None }
    }

    /// The movie after `child` was found in its body: a track joins the end
    /// of the track list, a movie header or user data box takes its slot.
    pub open spec fn put(self, child: NodeView) -> MovieView {
        match child {
            NodeView::Inner(leaf) => match AtomName::of(leaf.header.name) {
                AtomName::MovieHeader => MovieView { mvhd: Some(leaf), ..self },
                AtomName::Userdata => MovieView { udta: Some(leaf), ..self },
                _ => self,
            },
            NodeView::Track(track) => MovieView { tracks: self.tracks.push(track), ..self },
            _ => self,
        }
    }

    /// The tracks of the movie as boxes.
    pub open spec fn track_children(self) -> Seq<NodeView> {
        Seq::new(self.tracks.len(), |i: int| NodeView::Track(self.tracks[i]))
    }

    /// The slot that takes `child` in: the place in [`Self::parts`] of the
    /// part that it goes to. `None` for a child that the movie does not
    /// name.
    pub open spec fn slot_of(child: NodeView) -> Option<int> {
        match child {
            NodeView::Inner(leaf) => match AtomName::of(leaf.header.name) {
                AtomName::MovieHeader => Some(0),
                AtomName::Userdata => Some(2),
                _ => None,
            },
            NodeView::Track(_) => Some(1),
            _ => None,
        }
    }

    /// What each slot of the movie contributes to its children: the movie
    /// header, then the tracks in file order, then the user data.
    pub open spec fn parts(self) -> Seq<Seq<NodeView>> {
        Seq::empty()
            .push(inner_child(self.mvhd))
            .push(self.track_children())
            .push(inner_child(self.udta))
    }

    /// The children that the movie kept, in the order in which they are listed.
    pub open spec fn children(self) -> Seq<NodeView> {
        join(self.parts())
    }
}

impl Mp4View {
    /// The root of the file named `file`, of `size` bytes, in which no box
    /// was found yet.
    pub open spec fn empty(file: Seq<char>, size: int) -> Mp4View {
        Mp4View {
            ftyp: None,
            wide: None,
            mdat: None,
            moov: None,
            free: None,
            skip: None,
            size,
            file,
        }
    }

    /// The root after the top-level box `child` was found.
    pub open spec fn put(self, child: NodeView) -> Mp4View {
        match child {
            NodeView::FileType(leaf) => Mp4View { ftyp: Some(leaf), ..self },
            NodeView::Wide(leaf) => Mp4View { wide: Some(leaf), ..self },
            NodeView::MediaData(leaf) => Mp4View { mdat: Some(leaf), ..self },
            NodeView::Movie(movie) => Mp4View { moov: Some(movie), ..self },
            NodeView::Free(leaf) => if AtomName::of(leaf.header.name) == AtomName::Skip {
                Mp4View { skip: Some(leaf), ..self }
            } else {
                Mp4View { free: Some(leaf), ..self }
            },
            _ => self,
        }
    }

    /// The root after the top-level boxes `found` were put into it in order.
    pub open spec fn fill(self, found: Seq<NodeView>) -> Mp4View
        decreases found.len(),
    {
        if found.len() == 0 {
            self
        } else {
            self.fill(found.drop_last()).put(found.last())
        }
    }

    /// The slot that takes `child` in: the place in [`Self::parts`] of the
    /// part that it goes to. `None` for a box that the root does not name.
    pub open spec fn slot_of(child: NodeView) -> Option<int> {
        match child {
            NodeView::FileType(_) => Some(0),
            NodeView::Wide(_) => Some(1),
            NodeView::MediaData(_) => Some(2),
            NodeView::Movie(_) => Some(3),
            NodeView::Free(leaf) => if AtomName::of(leaf.header.name) == AtomName::Skip {
                Some(5)
            } else {
                Some(4)
            },
            _ => None,
        }
    }

    /// What each slot of the root contributes to its children, in listing order.
    pub open spec fn parts(self) -> Seq<Seq<NodeView>> {
        Seq::empty()
            .push(file_type_child(self.ftyp))
            .push(wide_child(self.wide))
            .push(media_data_child(self.mdat))
            .push(movie_child(self.moov))
            .push(free_child(self.free))
            .push(free_child(self.skip))
    }

    /// The top-level boxes that the root kept, in the order in which they are
    /// listed.
    pub open spec fn children(self) -> Seq<NodeView> {
        join(self.parts())
    }
}

impl NodeView {
    /// The header of the box.
    pub open spec fn header(self) -> HeaderView {
        match self {
            NodeView::Inner(b) => b.header,
            NodeView::FileType(b) => b.header,
            NodeView::MediaData(b) => b.header,
            NodeView::Free(b) => b.header,
            NodeView::Wide(b) => b.header,
            NodeView::ChunkOffset(b) => b.header,
            NodeView::Movie(b) => b.header,
            NodeView::Track(b) => b.header,
            NodeView::EditLists(b) => b.header,
            NodeView::Media(b) => b.header,
            NodeView::MediaInfo(b) => b.header,
            NodeView::SampleTable(b) => b.header,
        }
    }

    /// The nesting depth of the box.
    pub open spec fn level(self) -> int {
        match self {
            NodeView::Inner(b) => b.level,
            NodeView::FileType(b) => b.level,
            NodeView::MediaData(b) => b.level,
            NodeView::Free(b) => b.level,
            NodeView::Wide(b) => b.level,
            NodeView::ChunkOffset(b) => b.level,
            NodeView::Movie(b) => b.level,
            NodeView::Track(b) => b.level,
            NodeView::EditLists(b) => b.level,
            NodeView::Media(b) => b.level,
            NodeView::MediaInfo(b) => b.level,
            NodeView::SampleTable(b) => b.level,
        }
    }

    /// Whether the box is a container.
    pub open spec fn is_container(self) -> bool {
        self is Movie || self is Track || self is EditLists || self is Media || self is MediaInfo
            || self is SampleTable
    }

    /// The children that a container kept; `None` for a leaf.
    pub open spec fn children(self) -> Option<Seq<NodeView>> {
        match self {
            NodeView::Movie(b) => Some(b.children()),
            NodeView::Track(b) => Some(b.children()),
            NodeView::EditLists(b) => Some(b.children()),
            NodeView::Media(b) => Some(b.children()),
            NodeView::MediaInfo(b) => Some(b.children()),
            NodeView::SampleTable(b) => Some(b.children()),
            _ => None,
        }
    }

    /// What each slot of a container contributes to its children, in listing
    /// order; no parts for a leaf.
    pub open spec fn parts(self) -> Seq<Seq<NodeView>> {
        match self {
            NodeView::Movie(b) => b.parts(),
            NodeView::Track(b) => b.parts(),
            NodeView::EditLists(b) => b.parts(),
            NodeView::Media(b) => b.parts(),
            NodeView::MediaInfo(b) => b.parts(),
            NodeView::SampleTable(b) => b.parts(),
            _ => Seq::empty(),
        }
    }

    /// The slot of this box that takes `child` in; `None` for a child that
    /// the box does not name, and for every child of a leaf.
    pub open spec fn slot_of(self, child: NodeView) -> Option<int> {
        match self {
            NodeView::Movie(_) => MovieView::slot_of(child),
            NodeView::Track(_) => TrackView::slot_of(child),
            NodeView::EditLists(_) => EditListsView::slot_of(child),
            NodeView::Media(_) => MediaView::slot_of(child),
            NodeView::MediaInfo(_) => MediaInfoView::slot_of(child),
            NodeView::SampleTable(_) => SampleTableView::slot_of(child),
            _ => None,
        }
    }

    /// Whether slot `slot` of this box is a list, which takes in every box
    /// that goes to it; any other slot holds the last one only. The tracks
    /// of a movie are the one list there is.
    pub open spec fn repeats(self, slot: int) -> bool {
        self is Movie && slot == 1
    }

    /// The box that the decoder `decoder` starts from once it has read
    /// `header`: a leaf as it will stay, or a container without children.
    /// A chunk offset table starts without offsets.
    pub open spec fn fresh(decoder: Decoder, header: HeaderView, level: int) -> NodeView {
        match decoder {
            Decoder::Opaque => NodeView::Inner(LeafView { header, level }),
            Decoder::FileType => NodeView::FileType(LeafView { header, level }),
            Decoder::MediaData => NodeView::MediaData(LeafView { header, level }),
            Decoder::Free => NodeView::Free(LeafView { header, level }),
            Decoder::Wide => NodeView::Wide(LeafView { header, level }),
            Decoder::ChunkOffsets { wide } => NodeView::ChunkOffset(
                ChunkOffsetView { header, level, offsets: Seq::empty() },
            ),
            Decoder::Movie => NodeView::Movie(MovieView::empty(header, level)),
            Decoder::Track => NodeView::Track(TrackView::empty(header, level)),
            Decoder::EditLists => NodeView::EditLists(EditListsView::empty(header, level)),
            Decoder::Media => NodeView::Media(MediaView::empty(header, level)),
            Decoder::MediaInfo => NodeView::MediaInfo(MediaInfoView::empty(header, level)),
            Decoder::SampleTable => NodeView::SampleTable(SampleTableView::empty(header, level)),
        }
    }

    /// The box after `child` was found in its body. A leaf has no body to
    /// find boxes in and stays as it is.
    pub open spec fn put(self, child: NodeView) -> NodeView {
        match self {
            NodeView::Movie(b) => NodeView::Movie(b.put(child)),
            NodeView::Track(b) => NodeView::Track(b.put(child)),
            NodeView::EditLists(b) => NodeView::EditLists(b.put(child)),
            NodeView::Media(b) => NodeView::Media(b.put(child)),
            NodeView::MediaInfo(b) => NodeView::MediaInfo(b.put(child)),
            NodeView::SampleTable(b) => NodeView::SampleTable(b.put(child)),
            _ => self,
        }
    }

    /// The box after the boxes `found` were put into it in order.
    pub open spec fn fill(self, found: Seq<NodeView>) -> NodeView
        decreases found.len(),
    {
        if found.len() == 0 {
            self
        } else {
            self.fill(found.drop_last()).put(found.last())
        }
    }
}

/// Putting a child into a box changes neither its header, nor its depth,
/// nor whether it is a container.
pub proof fn lemma_put_keeps(node: NodeView, child: NodeView)
    ensures
        node.put(child).header() == node.header(),
        node.put(child).level() == node.level(),
        node.put(child).is_container() == node.is_container(),
{
}

/// Putting a top-level box into the root changes neither the length nor
/// the name of the file.
pub proof fn lemma_root_put_keeps(root: Mp4View, child: NodeView)
    ensures
        root.put(child).size == root.size,
        root.put(child).file == root.file,
{
}

/// A box fresh from the dispatch table has the header and the depth it was
/// made with, and is a container exactly where its decoder says so.
pub proof fn lemma_fresh(decoder: Decoder, header: HeaderView, level: int)
    ensures
        NodeView::fresh(decoder, header, level).header() == header,
        NodeView::fresh(decoder, header, level).level() == level,
        NodeView::fresh(decoder, header, level).is_container() == decoder.is_container(),
{
}

} // verus!
