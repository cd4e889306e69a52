//! A decoded box of any type, as the dispatch table hands it out.

use crate::atom_name::Decoder;
use crate::boxes::mp4_box::{BoxRef, Mp4Box};
use crate::boxes::{
    ChunkOffsetBox, EditLists, FileType, Free, InnerAtom, Media,
    MediaData, MediaInfo, Movie, SampleTable, Track, Wide,
};
use crate::header::Header;
use crate::model::NodeView;
use vstd::prelude::*;

verus! {

/// A decoded box of any type: one variant for each decoder of the dispatch
/// table, so that the type of a box and the way it was decoded cannot
/// disagree.
#[derive(Debug)]
pub enum BoxNode {
    Inner(InnerAtom),
    FileType(FileType),
    MediaData(MediaData),
    Free(Free),
    Wide(Wide),
    ChunkOffset(ChunkOffsetBox),
    Movie(Movie),
    Track(Track),
    EditLists(EditLists),
    Media(Media),
    MediaInfo(MediaInfo),
    SampleTable(SampleTable),
}

impl View for BoxNode {
    type V = NodeView;

    open spec fn view(&self) -> NodeView {
        match *self {
            BoxNode::Inner(b) => NodeView::Inner(b@),
            BoxNode::FileType(b) => NodeView::FileType(b@),
            BoxNode::MediaData(b) => NodeView::MediaData(b@),
            BoxNode::Free(b) => NodeView::Free(b@),
            BoxNode::Wide(b) => NodeView::Wide(b@),
            BoxNode::ChunkOffset(b) => NodeView::ChunkOffset(b@),
            BoxNode::Movie(b) => NodeView::Movie(b@),
            BoxNode::Track(b) => NodeView::Track(b@),
            BoxNode::EditLists(b) => NodeView::EditLists(b@),
            BoxNode::Media(b) => NodeView::Media(b@),
            BoxNode::MediaInfo(b) => NodeView::MediaInfo(b@),
            BoxNode::SampleTable(b) => NodeView::SampleTable(b@),
        }
    }
}

impl BoxNode {
    /// The box that `decoder` starts from once `header` was read: a leaf as
    /// it will stay, or a container that has no child yet. For a chunk
    /// offset table this is the table without entries;
    /// [`ChunkOffsetBox::parse`] decodes one with its entries.
    pub fn fresh(decoder: Decoder, header: Header, level: u8) -> (r: BoxNode)
        ensures
            r@ == NodeView::fresh(decoder, header@, level as int),
    {
        match decoder {
            Decoder::Opaque => BoxNode::Inner(InnerAtom::parse(header, level)),
            Decoder::FileType => BoxNode::FileType(FileType::parse(header, level)),
            Decoder::MediaData => BoxNode::MediaData(MediaData::parse(header, level)),
            Decoder::Free => BoxNode::Free(Free::parse(header, level)),
            Decoder::Wide => BoxNode::Wide(Wide::parse(header, level)),
            Decoder::ChunkOffsets { wide } => BoxNode::ChunkOffset(
                ChunkOffsetBox::empty(header, level),
            ),
            Decoder::Movie => BoxNode::Movie(Movie::new(header, level)),
            Decoder::Track => BoxNode::Track(Track::new(header, level)),
            Decoder::EditLists => BoxNode::EditLists(EditLists::new(header, level)),
            Decoder::Media => BoxNode::Media(Media::new(header, level)),
            Decoder::MediaInfo => BoxNode::MediaInfo(MediaInfo::new(header, level)),
            Decoder::SampleTable => BoxNode::SampleTable(SampleTable::new(header, level)),
        }
    }

    /// Takes in `child`, a box that was found in the body of this one. A
    /// leaf has no body to find boxes in and stays as it is.
    pub fn put(&mut self, child: BoxNode)
        ensures
            final(self)@ == old(self)@.put(child@),
    {
        match self {
            BoxNode::Movie(b) => b.put(child),
            BoxNode::Track(b) => b.put(child),
            BoxNode::EditLists(b) => b.put(child),
            BoxNode::Media(b) => b.put(child),
            BoxNode::MediaInfo(b) => b.put(child),
            BoxNode::SampleTable(b) => b.put(child),
            _ => {},
        }
    }

    /// Whether the box is a container.
    pub fn is_container(&self) -> (r: bool)
        ensures
            r == self@.is_container(),
    {
        match self {
            BoxNode::Movie(_) => true,
            BoxNode::Track(_) => true,
            BoxNode::EditLists(_) => true,
            BoxNode::Media(_) => true,
            BoxNode::MediaInfo(_) => true,
            BoxNode::SampleTable(_) => true,
            _ => false,
        }
    }

    /// The box, borrowed.
    pub fn as_box(&self) -> (r: BoxRef<'_>)
        ensures
            r@ == self@,
    {
        match self {
            BoxNode::Inner(b) => BoxRef::Inner(b),
            BoxNode::FileType(b) => BoxRef::FileType(b),
            BoxNode::MediaData(b) => BoxRef::MediaData(b),
            BoxNode::Free(b) => BoxRef::Free(b),
            BoxNode::Wide(b) => BoxRef::Wide(b),
            BoxNode::ChunkOffset(b) => BoxRef::ChunkOffset(b),
            BoxNode::Movie(b) => BoxRef::Movie(b),
            BoxNode::Track(b) => BoxRef::Track(b),
            BoxNode::EditLists(b) => BoxRef::EditLists(b),
            BoxNode::Media(b) => BoxRef::Media(b),
            BoxNode::MediaInfo(b) => BoxRef::MediaInfo(b),
            BoxNode::SampleTable(b) => BoxRef::SampleTable(b),
        }
    }
}

impl Mp4Box for BoxNode {
    open spec fn node(&self) -> NodeView {
        self@
    }

    fn start(&self) -> (start: u64) {
        match self {
            BoxNode::Inner(b) => b.start(),
            BoxNode::FileType(b) => b.start(),
            BoxNode::MediaData(b) => b.start(),
            BoxNode::Free(b) => b.start(),
            BoxNode::Wide(b) => b.start(),
            BoxNode::ChunkOffset(b) => b.start(),
            BoxNode::Movie(b) => b.start(),
            BoxNode::Track(b) => b.start(),
            BoxNode::EditLists(b) => b.start(),
            BoxNode::Media(b) => b.start(),
            BoxNode::MediaInfo(b) => b.start(),
            BoxNode::SampleTable(b) => b.start(),
        }
    }

    fn end(&self) -> (end: u64) {
        match self {
            BoxNode::Inner(b) => b.end(),
            BoxNode::FileType(b) => b.end(),
            BoxNode::MediaData(b) => b.end(),
            BoxNode::Free(b) => b.end(),
            BoxNode::Wide(b) => b.end(),
            BoxNode::ChunkOffset(b) => b.end(),
            BoxNode::Movie(b) => b.end(),
            BoxNode::Track(b) => b.end(),
            BoxNode::EditLists(b) => b.end(),
            BoxNode::Media(b) => b.end(),
            BoxNode::MediaInfo(b) => b.end(),
            BoxNode::SampleTable(b) => b.end(),
        }
    }

    fn size(&self) -> (size: usize) {
        match self {
            BoxNode::Inner(b) => b.size(),
            BoxNode::FileType(b) => b.size(),
            BoxNode::MediaData(b) => b.size(),
            BoxNode::Free(b) => b.size(),
            BoxNode::Wide(b) => b.size(),
            BoxNode::ChunkOffset(b) => b.size(),
            BoxNode::Movie(b) => b.size(),
            BoxNode::Track(b) => b.size(),
            BoxNode::EditLists(b) => b.size(),
            BoxNode::Media(b) => b.size(),
            BoxNode::MediaInfo(b) => b.size(),
            BoxNode::SampleTable(b) => b.size(),
        }
    }

    fn name(&self) -> (name: &str) {
        match self {
            BoxNode::Inner(b) => b.name(),
            BoxNode::FileType(b) => b.name(),
            BoxNode::MediaData(b) => b.name(),
            BoxNode::Free(b) => b.name(),
            BoxNode::Wide(b) => b.name(),
            BoxNode::ChunkOffset(b) => b.name(),
            BoxNode::Movie(b) => b.name(),
            BoxNode::Track(b) => b.name(),
            BoxNode::EditLists(b) => b.name(),
            BoxNode::Media(b) => b.name(),
            BoxNode::MediaInfo(b) => b.name(),
            BoxNode::SampleTable(b) => b.name(),
        }
    }

    fn fields(&self) -> (fields: Option<Vec<BoxRef<'_>>>) {
        match self {
            BoxNode::Inner(b) => b.fields(),
            BoxNode::FileType(b) => b.fields(),
            BoxNode::MediaData(b) => b.fields(),
            BoxNode::Free(b) => b.fields(),
            BoxNode::Wide(b) => b.fields(),
            BoxNode::ChunkOffset(b) => b.fields(),
            BoxNode::Movie(b) => b.fields(),
            BoxNode::Track(b) => b.fields(),
            BoxNode::EditLists(b) => b.fields(),
            BoxNode::Media(b) => b.fields(),
            BoxNode::MediaInfo(b) => b.fields(),
            BoxNode::SampleTable(b) => b.fields(),
        }
    }

    fn level(&self) -> (level: u8) {
        match self {
            BoxNode::Inner(b) => b.level(),
            BoxNode::FileType(b) => b.level(),
            BoxNode::MediaData(b) => b.level(),
            BoxNode::Free(b) => b.level(),
            BoxNode::Wide(b) => b.level(),
            BoxNode::ChunkOffset(b) => b.level(),
            BoxNode::Movie(b) => b.level(),
            BoxNode::Track(b) => b.level(),
            BoxNode::EditLists(b) => b.level(),
            BoxNode::Media(b) => b.level(),
            BoxNode::MediaInfo(b) => b.level(),
            BoxNode::SampleTable(b) => b.level(),
        }
    }
}

} // verus!
