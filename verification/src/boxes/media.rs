//! The media container.

use crate::atom_name::AtomName;
use crate::boxes::mp4_box::{opt_ref_seq, push_part, refs_seq, BoxRef, Mp4Box};
use crate::boxes::node::BoxNode;
use crate::boxes::{InnerAtom, MediaInfo};
use crate::error::{Error, ErrorView};
use crate::header::Header;
use crate::model::{inner_child, join, media_info_child, opt_view, MediaView, NodeView};
use vstd::prelude::*;

verus! {

/// The media container (`mdia`): what one track is made of.
#[derive(Debug)]
pub struct Media {
    mdhd: Option<InnerAtom>,
    hdlr: Option<InnerAtom>,
    minf: Option<MediaInfo>,
    header: Header,
    level: u8,
}

impl View for Media {
    type V = MediaView;

    closed spec fn view(&self) -> MediaView {
        MediaView {
            header: self.header@,
            level: self.level as int,
            mdhd: opt_view(self.mdhd),
            hdlr: opt_view(self.hdlr),
            minf: opt_view(self.minf),
        }
    }
}

impl Media {
    /// The box with header `header` at nesting depth `level`, before any
    /// child was found in its body.
    pub fn new(header: Header, level: u8) -> (r: Media)
        ensures
            r@ == MediaView::empty(header@, level as int),
    {
        let r = Media {
            mdhd: None,
            hdlr: None,
            minf: None,
            header,
            level,
        };
        r
    }

    /// Takes in `child`, a box that was found in the body of this one. A
    /// child that this box names is kept, in place of an earlier one of the
    /// same name; any other child is dropped.
    pub fn put(&mut self, child: BoxNode)
        ensures
            final(self)@ == old(self)@.put(child@),
    {
        match child {
            BoxNode::Inner(leaf) => match AtomName::lookup(leaf.name()) {
                AtomName::MediaHeader => {
                    self.mdhd = Some(leaf);
                },
                AtomName::MediaHandler => {
                    self.hdlr = Some(leaf);
                },
                _ => {},
            },
            BoxNode::MediaInfo(b) => {
                self.minf = Some(b);
            },
            _ => {},
        }
    }

    /// The media header box (`mdhd`); `BoxNotFound("mdhd")`
    /// where the file held none.
    pub fn media_header_box(&self) -> (r: Result<&InnerAtom, Error>)
        ensures
            match self@.mdhd {
                Some(b) => r matches Ok(found) && found@ == b,
                None => r matches Err(e) && e@ == ErrorView::BoxNotFound("mdhd"@),
            },
    {
        match &self.mdhd {
            Some(b) => Ok(b),
            None => Err(Error::not_found("mdhd")),
        }
    }

    /// The media handler box (`hdlr`); `BoxNotFound("hdlr")`
    /// where the file held none.
    pub fn media_handler_box(&self) -> (r: Result<&InnerAtom, Error>)
        ensures
            match self@.hdlr {
                Some(b) => r matches Ok(found) && found@ == b,
                None => r matches Err(e) && e@ == ErrorView::BoxNotFound("hdlr"@),
            },
    {
        match &self.hdlr {
            Some(b) => Ok(b),
            None => Err(Error::not_found("hdlr")),
        }
    }

    /// The media information box (`minf`); `BoxNotFound("minf")`
    /// where the file held none.
    pub fn media_info_box(&self) -> (r: Result<&MediaInfo, Error>)
        ensures
            match self@.minf {
                Some(b) => r matches Ok(found) && found@ == b,
                None => r matches Err(e) && e@ == ErrorView::BoxNotFound("minf"@),
            },
    {
        match &self.minf {
            Some(b) => Ok(b),
            None => Err(Error::not_found("minf")),
        }
    }
}

impl Mp4Box for Media {
    open spec fn node(&self) -> NodeView {
        NodeView::Media(self@)
    }

    fn start(&self) -> (start: u64) {
        self.header.start()
    }

    fn end(&self) -> (end: u64) {
        self.header.end()
    }

    fn size(&self) -> (size: usize) {
        self.header.size()
    }

    fn name(&self) -> (name: &str) {
        self.header.name()
    }

    fn fields(&self) -> (fields: Option<Vec<BoxRef<'_>>>) {
        let mut fields: Vec<BoxRef<'_>> = Vec::new();
        let ghost mut done: Seq<Seq<NodeView>> = Seq::empty();
        assert(refs_seq(fields@) =~= join(done));
        let mdhd = match &self.mdhd {
            Some(b) => Some(BoxRef::Inner(b)),
            None => None,
        };
        assert(opt_ref_seq(mdhd) == inner_child(self@.mdhd));
        push_part(&mut fields, mdhd, Ghost(done));
        proof {
            done = done.push(inner_child(self@.mdhd));
        }
        let hdlr = match &self.hdlr {
            Some(b) => Some(BoxRef::Inner(b)),
            None => None,
        };
        assert(opt_ref_seq(hdlr) == inner_child(self@.hdlr));
        push_part(&mut fields, hdlr, Ghost(done));
        proof {
            done = done.push(inner_child(self@.hdlr));
        }
        let minf = match &self.minf {
            Some(b) => Some(BoxRef::MediaInfo(b)),
            None => None,
        };
        assert(opt_ref_seq(minf) == media_info_child(self@.minf));
        push_part(&mut fields, minf, Ghost(done));
        proof {
            done = done.push(media_info_child(self@.minf));
        }
        assert(done == self@.parts());
        Some(fields)
    }

    fn level(&self) -> (level: u8) {
        self.level
    }
}

} // verus!
