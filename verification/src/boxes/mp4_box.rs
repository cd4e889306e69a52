//! What every box of the tree offers, whatever its type.

use crate::boxes::{
    ChunkOffsetBox, EditLists, FileType, Free, InnerAtom, Media,
    MediaData, MediaInfo, Movie, SampleTable, Track, Wide,
};
use crate::model::{join, lemma_join_push, NodeView};
use vstd::prelude::*;

verus! {

/// The common interface of all boxes: where the box lies in the file, its
/// tag, its nesting depth and the children it kept.
pub trait Mp4Box {
    /// The box as a mathematical value.
    spec fn node(&self) -> NodeView;

    /// The absolute offset of the first byte of the box.
    fn start(&self) -> (start: u64)
        ensures
            start == self.node().header().start,
    ;

    /// The absolute offset just past the last byte of the box.
    fn end(&self) -> (end: u64)
        ensures
            end == self.node().header().end(),
            self.node().header().wf(),
    ;

    /// The number of bytes the box spans, header included.
    fn size(&self) -> (size: usize)
        ensures
            size == self.node().header().size,
            self.node().header().wf(),
    ;

    /// The four-character tag of the box.
    fn name(&self) -> (name: &str)
        ensures
            name@ == self.node().header().name,
    ;

    /// The children that the box kept, in listing order; `None` for a leaf.
    fn fields(&self) -> (fields: Option<Vec<BoxRef<'_>>>)
        ensures
            refs_view(fields) == self.node().children(),
    ;

    /// The nesting depth of the box: 1 for a top-level box.
    fn level(&self) -> (level: u8)
        ensures
            level == self.node().level(),
    ;
}

/// A borrowed box of any type.
#[derive(Debug, Clone, Copy)]
pub enum BoxRef<'a> {
    Inner(&'a InnerAtom),
    FileType(&'a FileType),
    MediaData(&'a MediaData),
    Free(&'a Free),
    Wide(&'a Wide),
    ChunkOffset(&'a ChunkOffsetBox),
    Movie(&'a Movie),
    Track(&'a Track),
    EditLists(&'a EditLists),
    Media(&'a Media),
    MediaInfo(&'a MediaInfo),
    SampleTable(&'a SampleTable),
}

impl<'a> View for BoxRef<'a> {
    type V = NodeView;

    open spec fn view(&self) -> NodeView {
        match *self {
            BoxRef::Inner(b) => NodeView::Inner(b@),
            BoxRef::FileType(b) => NodeView::FileType(b@),
            BoxRef::MediaData(b) => NodeView::MediaData(b@),
            BoxRef::Free(b) => NodeView::Free(b@),
            BoxRef::Wide(b) => NodeView::Wide(b@),
            BoxRef::ChunkOffset(b) => NodeView::ChunkOffset(b@),
            BoxRef::Movie(b) => NodeView::Movie(b@),
            BoxRef::Track(b) => NodeView::Track(b@),
            BoxRef::EditLists(b) => NodeView::EditLists(b@),
            BoxRef::Media(b) => NodeView::Media(b@),
            BoxRef::MediaInfo(b) => NodeView::MediaInfo(b@),
            BoxRef::SampleTable(b) => NodeView::SampleTable(b@),
        }
    }
}

/// The mathematical values of a list of borrowed boxes.
pub open spec fn refs_seq(list: Seq<BoxRef<'_>>) -> Seq<NodeView> {
    Seq::new(list.len(), |i: int| list[i]@)
}

/// The mathematical value of a list of children as [`Mp4Box::fields`] returns it.
pub open spec fn refs_view(fields: Option<Vec<BoxRef<'_>>>) -> Option<Seq<NodeView>> {
    match fields {
        Some(list) => Some(refs_seq(list@)),
        None => None,
    }
}

/// The zero or one mathematical values of an optional borrowed box.
pub open spec fn opt_ref_seq(slot: Option<BoxRef<'_>>) -> Seq<NodeView> {
    match slot {
        Some(b) => seq![b@],
        None => seq![],
    }
}

/// Appends `slot` to `fields` where it holds a box.
pub(crate) fn push_ref<'a>(fields: &mut Vec<BoxRef<'a>>, slot: Option<BoxRef<'a>>)
    ensures
        refs_seq(final(fields)@) == refs_seq(old(fields)@) + opt_ref_seq(slot),
{
    match slot {
        Some(b) => {
            fields.push(b);
            assert(refs_seq(fields@) =~= refs_seq(old(fields)@) + opt_ref_seq(slot));
        },
        None => {
            assert(refs_seq(fields@) =~= refs_seq(old(fields)@) + opt_ref_seq(slot));
        },
    }
}

/// Appends `slot` to `fields`, which so far lists the boxes of the parts
/// `done`, as one more part.
pub(crate) fn push_part<'a>(
    fields: &mut Vec<BoxRef<'a>>,
    slot: Option<BoxRef<'a>>,
    Ghost(done): Ghost<Seq<Seq<NodeView>>>,
)
    requires
        refs_seq(old(fields)@) == join(done),
    ensures
        refs_seq(final(fields)@) == join(done.push(opt_ref_seq(slot))),
{
    push_ref(fields, slot);
    proof {
        lemma_join_push(done, opt_ref_seq(slot));
    }
}

impl<'a> Mp4Box for BoxRef<'a> {
    open spec fn node(&self) -> NodeView {
        self@
    }

    fn start(&self) -> (start: u64) {
        match self {
            BoxRef::Inner(b) => b.start(),
            BoxRef::FileType(b) => b.start(),
            BoxRef::MediaData(b) => b.start(),
            BoxRef::Free(b) => b.start(),
            BoxRef::Wide(b) => b.start(),
            BoxRef::ChunkOffset(b) => b.start(),
            BoxRef::Movie(b) => b.start(),
            BoxRef::Track(b) => b.start(),
            BoxRef::EditLists(b) => b.start(),
            BoxRef::Media(b) => b.start(),
            BoxRef::MediaInfo(b) => b.start(),
            BoxRef::SampleTable(b) => b.start(),
        }
    }

    fn end(&self) -> (end: u64) {
        match self {
            BoxRef::Inner(b) => b.end(),
            BoxRef::FileType(b) => b.end(),
            BoxRef::MediaData(b) => b.end(),
            BoxRef::Free(b) => b.end(),
            BoxRef::Wide(b) => b.end(),
            BoxRef::ChunkOffset(b) => b.end(),
            BoxRef::Movie(b) => b.end(),
            BoxRef::Track(b) => b.end(),
            BoxRef::EditLists(b) => b.end(),
            BoxRef::Media(b) => b.end(),
            BoxRef::MediaInfo(b) => b.end(),
            BoxRef::SampleTable(b) => b.end(),
        }
    }

    fn size(&self) -> (size: usize) {
        match self {
            BoxRef::Inner(b) => b.size(),
            BoxRef::FileType(b) => b.size(),
            BoxRef::MediaData(b) => b.size(),
            BoxRef::Free(b) => b.size(),
            BoxRef::Wide(b) => b.size(),
            BoxRef::ChunkOffset(b) => b.size(),
            BoxRef::Movie(b) => b.size(),
            BoxRef::Track(b) => b.size(),
            BoxRef::EditLists(b) => b.size(),
            BoxRef::Media(b) => b.size(),
            BoxRef::MediaInfo(b) => b.size(),
            BoxRef::SampleTable(b) => b.size(),
        }
    }

    fn name(&self) -> (name: &str) {
        match self {
            BoxRef::Inner(b) => b.name(),
            BoxRef::FileType(b) => b.name(),
            BoxRef::MediaData(b) => b.name(),
            BoxRef::Free(b) => b.name(),
            BoxRef::Wide(b) => b.name(),
            BoxRef::ChunkOffset(b) => b.name(),
            BoxRef::Movie(b) => b.name(),
            BoxRef::Track(b) => b.name(),
            BoxRef::EditLists(b) => b.name(),
            BoxRef::Media(b) => b.name(),
            BoxRef::MediaInfo(b) => b.name(),
            BoxRef::SampleTable(b) => b.name(),
        }
    }

    fn fields(&self) -> (fields: Option<Vec<BoxRef<'_>>>) {
        match self {
            BoxRef::Inner(b) => b.fields(),
            BoxRef::FileType(b) => b.fields(),
            BoxRef::MediaData(b) => b.fields(),
            BoxRef::Free(b) => b.fields(),
            BoxRef::Wide(b) => b.fields(),
            BoxRef::ChunkOffset(b) => b.fields(),
            BoxRef::Movie(b) => b.fields(),
            BoxRef::Track(b) => b.fields(),
            BoxRef::EditLists(b) => b.fields(),
            BoxRef::Media(b) => b.fields(),
            BoxRef::MediaInfo(b) => b.fields(),
            BoxRef::SampleTable(b) => b.fields(),
        }
    }

    fn level(&self) -> (level: u8) {
        match self {
            BoxRef::Inner(b) => b.level(),
            BoxRef::FileType(b) => b.level(),
            BoxRef::MediaData(b) => b.level(),
            BoxRef::Free(b) => b.level(),
            BoxRef::Wide(b) => b.level(),
            BoxRef::ChunkOffset(b) => b.level(),
            BoxRef::Movie(b) => b.level(),
            BoxRef::Track(b) => b.level(),
            BoxRef::EditLists(b) => b.level(),
            BoxRef::Media(b) => b.level(),
            BoxRef::MediaInfo(b) => b.level(),
            BoxRef::SampleTable(b) => b.level(),
        }
    }
}

} // verus!
