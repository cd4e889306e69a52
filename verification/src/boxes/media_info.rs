//! The media information container.

use crate::atom_name::AtomName;
use crate::boxes::mp4_box::{opt_ref_seq, push_part, refs_seq, BoxRef, Mp4Box};
use crate::boxes::node::BoxNode;
use crate::boxes::{InnerAtom, SampleTable};
use crate::error::{Error, ErrorView};
use crate::header::Header;
use crate::model::{inner_child, join, opt_view, sample_table_child, MediaInfoView, NodeView};
use vstd::prelude::*;

verus! {

/// The media information container (`minf`).
#[derive(Debug)]
pub struct MediaInfo {
    vmhd: Option<InnerAtom>,
    dinf: Option<InnerAtom>,
    stbl: Option<SampleTable>,
    header: Header,
    level: u8,
}

impl View for MediaInfo {
    type V = MediaInfoView;

    closed spec fn view(&self) -> MediaInfoView {
        MediaInfoView {
            header: self.header@,
            level: self.level as int,
            vmhd: opt_view(self.vmhd),
            dinf: opt_view(self.dinf),
            stbl: opt_view(self.stbl),
        }
    }
}

impl MediaInfo {
    /// The box with header `header` at nesting depth `level`, before any
    /// child was found in its body.
    pub fn new(header: Header, level: u8) -> (r: MediaInfo)
        ensures
            r@ == MediaInfoView::empty(header@, level as int),
    {
        let r = MediaInfo {
            vmhd: None,
            dinf: None,
            stbl: None,
            header,
            level,
        };
        r
    }

    /// Takes in `child`, a box that was found in the body of this one. A
    /// child that this box names is kept, in place of an earlier one of the
    /// same name; any other child is dropped.
    pub fn put(&mut self, child: BoxNode)
        ensures
            final(self)@ == old(self)@.put(child@),
    {
        match child {
            BoxNode::Inner(leaf) => match AtomName::lookup(leaf.name()) {
                AtomName::VideoMediaHeader => {
                    self.vmhd = Some(leaf);
                },
                AtomName::DataInfo => {
                    self.dinf = Some(leaf);
                },
                _ => {},
            },
            BoxNode::SampleTable(b) => {
                self.stbl = Some(b);
            },
            _ => {},
        }
    }

    /// The video media header box (`vmhd`); `BoxNotFound("vmhd")`
    /// where the file held none.
    pub fn video_media_header_box(&self) -> (r: Result<&InnerAtom, Error>)
        ensures
            match self@.vmhd {
                Some(b) => r matches Ok(found) && found@ == b,
                None => r matches Err(e) && e@ == ErrorView::BoxNotFound("vmhd"@),
            },
    {
        match &self.vmhd {
            Some(b) => Ok(b),
            None => Err(Error::not_found("vmhd")),
        }
    }

    /// The data information box (`dinf`); `BoxNotFound("dinf")`
    /// where the file held none.
    pub fn data_info_box(&self) -> (r: Result<&InnerAtom, Error>)
        ensures
            match self@.dinf {
                Some(b) => r matches Ok(found) && found@ == b,
                None => r matches Err(e) && e@ == ErrorView::BoxNotFound("dinf"@),
            },
    {
        match &self.dinf {
            Some(b) => Ok(b),
            None => Err(Error::not_found("dinf")),
        }
    }

    /// The sample table box (`stbl`); `BoxNotFound("stbl")`
    /// where the file held none.
    pub fn sample_table_box(&self) -> (r: Result<&SampleTable, Error>)
        ensures
            match self@.stbl {
                Some(b) => r matches Ok(found) && found@ == b,
                None => r matches Err(e) && e@ == ErrorView::BoxNotFound("stbl"@),
            },
    {
        match &self.stbl {
            Some(b) => Ok(b),
            None => Err(Error::not_found("stbl")),
        }
    }
}

impl Mp4Box for MediaInfo {
    open spec fn node(&self) -> NodeView {
        NodeView::MediaInfo(self@)
    }

    fn start(&self) -> (start: u64) {
        self.header.start()
    }

    fn end(&self) -> (end: u64) {
        self.header.end()
    }

    fn size(&self) -> (size: usize) {
        self.header.size()
    }

    fn name(&self) -> (name: &str) {
        self.header.name()
    }

    fn fields(&self) -> (fields: Option<Vec<BoxRef<'_>>>) {
        let mut fields: Vec<BoxRef<'_>> = Vec::new();
        let ghost mut done: Seq<Seq<NodeView>> = Seq::empty();
        assert(refs_seq(fields@) =~= join(done));
        let vmhd = match &self.vmhd {
            Some(b) => Some(BoxRef::Inner(b)),
            None => None,
        };
        assert(opt_ref_seq(vmhd) == inner_child(self@.vmhd));
        push_part(&mut fields, vmhd, Ghost(done));
        proof {
            done = done.push(inner_child(self@.vmhd));
        }
        let dinf = match &self.dinf {
            Some(b) => Some(BoxRef::Inner(b)),
            None => None,
        };
        assert(opt_ref_seq(dinf) == inner_child(self@.dinf));
        push_part(&mut fields, dinf, Ghost(done));
        proof {
            done = done.push(inner_child(self@.dinf));
        }
        let stbl = match &self.stbl {
            Some(b) => Some(BoxRef::SampleTable(b)),
            None => None,
        };
        assert(opt_ref_seq(stbl) == sample_table_child(self@.stbl));
        push_part(&mut fields, stbl, Ghost(done));
        proof {
            done = done.push(sample_table_child(self@.stbl));
        }
        assert(done == self@.parts());
        Some(fields)
    }

    fn level(&self) -> (level: u8) {
        self.level
    }
}

} // verus!
