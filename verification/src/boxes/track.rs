//! The track container and the edit lists it may hold.

use crate::atom_name::AtomName;
use crate::boxes::mp4_box::{opt_ref_seq, push_part, refs_seq, BoxRef, Mp4Box};
use crate::boxes::node::BoxNode;
use crate::boxes::{InnerAtom, Media};
use crate::error::{Error, ErrorView};
use crate::header::Header;
use crate::model::{
    edit_lists_child, inner_child, join, media_child, opt_view, EditListsView, NodeView,
    TrackView,
};
use vstd::prelude::*;

verus! {

/// A track container (`trak`).
#[derive(Debug)]
pub struct Track {
    tkhd: Option<InnerAtom>,
    edts: Option<EditLists>,
    mdia: Option<Media>,
    header: Header,
    level: u8,
}

impl View for Track {
    type V = TrackView;

    closed spec fn view(&self) -> TrackView {
        TrackView {
            header: self.header@,
            level: self.level as int,
            tkhd: opt_view(self.tkhd),
            edts: opt_view(self.edts),
            mdia: opt_view(self.mdia),
        }
    }
}

impl Track {
    /// The box with header `header` at nesting depth `level`, before any
    /// child was found in its body.
    pub fn new(header: Header, level: u8) -> (r: Track)
        ensures
            r@ == TrackView::empty(header@, level as int),
    {
        let r = Track {
            tkhd: None,
            edts: None,
            mdia: None,
            header,
            level,
        };
        r
    }

    /// Takes in `child`, a box that was found in the body of this one. A
    /// child that this box names is kept, in place of an earlier one of the
    /// same name; any other child is dropped.
    pub fn put(&mut self, child: BoxNode)
        ensures
            final(self)@ == old(self)@.put(child@),
    {
        match child {
            BoxNode::Inner(leaf) => match AtomName::lookup(leaf.name()) {
                AtomName::TrackHeader => {
                    self.tkhd = Some(leaf);
                },
                _ => {},
            },
            BoxNode::EditLists(b) => {
                self.edts = Some(b);
            },
            BoxNode::Media(b) => {
                self.mdia = Some(b);
            },
            _ => {},
        }
    }

    /// The track header box (`tkhd`); `BoxNotFound("tkhd")`
    /// where the file held none.
    pub fn track_header_box(&self) -> (r: Result<&InnerAtom, Error>)
        ensures
            match self@.tkhd {
                Some(b) => r matches Ok(found) && found@ == b,
                None => r matches Err(e) && e@ == ErrorView::BoxNotFound("tkhd"@),
            },
    {
        match &self.tkhd {
            Some(b) => Ok(b),
            None => Err(Error::not_found("tkhd")),
        }
    }

    /// The edit lists box (`edts`); `BoxNotFound("edts")`
    /// where the file held none.
    pub fn edit_lists_box(&self) -> (r: Result<&EditLists, Error>)
        ensures
            match self@.edts {
                Some(b) => r matches Ok(found) && found@ == b,
                None => r matches Err(e) && e@ == ErrorView::BoxNotFound("edts"@),
            },
    {
        match &self.edts {
            Some(b) => Ok(b),
            None => Err(Error::not_found("edts")),
        }
    }

    /// The media box (`mdia`); `BoxNotFound("mdia")`
    /// where the file held none.
    pub fn media_box(&self) -> (r: Result<&Media, Error>)
        ensures
            match self@.mdia {
                Some(b) => r matches Ok(found) && found@ == b,
                None => r matches Err(e) && e@ == ErrorView::BoxNotFound("mdia"@),
            },
    {
        match &self.mdia {
            Some(b) => Ok(b),
            None => Err(Error::not_found("mdia")),
        }
    }
}

impl Mp4Box for Track {
    open spec fn node(&self) -> NodeView {
        NodeView::Track(self@)
    }

    fn start(&self) -> (start: u64) {
        self.header.start()
    }

    fn end(&self) -> (end: u64) {
        self.header.end()
    }

    fn size(&self) -> (size: usize) {
        self.header.size()
    }

    fn name(&self) -> (name: &str) {
        self.header.name()
    }

    fn fields(&self) -> (fields: Option<Vec<BoxRef<'_>>>) {
        let mut fields: Vec<BoxRef<'_>> = Vec::new();
        let ghost mut done: Seq<Seq<NodeView>> = Seq::empty();
        assert(refs_seq(fields@) =~= join(done));
        let tkhd = match &self.tkhd {
            Some(b) => Some(BoxRef::Inner(b)),
            None => None,
        };
        assert(opt_ref_seq(tkhd) == inner_child(self@.tkhd));
        push_part(&mut fields, tkhd, Ghost(done));
        proof {
            done = done.push(inner_child(self@.tkhd));
        }
        let edts = match &self.edts {
            Some(b) => Some(BoxRef::EditLists(b)),
            None => None,
        };
        assert(opt_ref_seq(edts) == edit_lists_child(self@.edts));
        push_part(&mut fields, edts, Ghost(done));
        proof {
            done = done.push(edit_lists_child(self@.edts));
        }
        let mdia = match &self.mdia {
            Some(b) => Some(BoxRef::Media(b)),
            None => None,
        };
        assert(opt_ref_seq(mdia) == media_child(self@.mdia));
        push_part(&mut fields, mdia, Ghost(done));
        proof {
            done = done.push(media_child(self@.mdia));
        }
        assert(done == self@.parts());
        Some(fields)
    }

    fn level(&self) -> (level: u8) {
        self.level
    }
}

/// The edit lists container (`edts`).
#[derive(Debug)]
pub struct EditLists {
    elst: Option<InnerAtom>,
    header: Header,
    level: u8,
}

impl View for EditLists {
    type V = EditListsView;

    closed spec fn view(&self) -> EditListsView {
        EditListsView {
            header: self.header@,
            level: self.level as int,
            elst: opt_view(self.elst),
        }
    }
}

impl EditLists {
    /// The box with header `header` at nesting depth `level`, before any
    /// child was found in its body.
    pub fn new(header: Header, level: u8) -> (r: EditLists)
        ensures
            r@ == EditListsView::empty(header@, level as int),
    {
        let r = EditLists {
            elst: None,
            header,
            level,
        };
        r
    }

    /// Takes in `child`, a box that was found in the body of this one. A
    /// child that this box names is kept, in place of an earlier one of the
    /// same name; any other child is dropped.
    pub fn put(&mut self, child: BoxNode)
        ensures
            final(self)@ == old(self)@.put(child@),
    {
        match child {
            BoxNode::Inner(leaf) => match AtomName::lookup(leaf.name()) {
                AtomName::EditList => {
                    self.elst = Some(leaf);
                },
                _ => {},
            },
            _ => {},
        }
    }

    /// The edit list box (`elst`); `BoxNotFound("elst")`
    /// where the file held none.
    pub fn list_box(&self) -> (r: Result<&InnerAtom, Error>)
        ensures
            match self@.elst {
                Some(b) => r matches Ok(found) && found@ == b,
                None => r matches Err(e) && e@ == ErrorView::BoxNotFound("elst"@),
            },
    {
        match &self.elst {
            Some(b) => Ok(b),
            None => Err(Error::not_found("elst")),
        }
    }
}

impl Mp4Box for EditLists {
    open spec fn node(&self) -> NodeView {
        NodeView::EditLists(self@)
    }

    fn start(&self) -> (start: u64) {
        self.header.start()
    }

    fn end(&self) -> (end: u64) {
        self.header.end()
    }

    fn size(&self) -> (size: usize) {
        self.header.size()
    }

    fn name(&self) -> (name: &str) {
        self.header.name()
    }

    fn fields(&self) -> (fields: Option<Vec<BoxRef<'_>>>) {
        let mut fields: Vec<BoxRef<'_>> = Vec::new();
        let ghost mut done: Seq<Seq<NodeView>> = Seq::empty();
        assert(refs_seq(fields@) =~= join(done));
        let elst = match &self.elst {
            Some(b) => Some(BoxRef::Inner(b)),
            None => None,
        };
        assert(opt_ref_seq(elst) == inner_child(self@.elst));
        push_part(&mut fields, elst, Ghost(done));
        proof {
            done = done.push(inner_child(self@.elst));
        }
        assert(done == self@.parts());
        Some(fields)
    }

    fn level(&self) -> (level: u8) {
        self.level
    }
}

} // verus!
