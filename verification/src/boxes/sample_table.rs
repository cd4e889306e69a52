//! The sample table container.

use crate::atom_name::AtomName;
use crate::boxes::mp4_box::{opt_ref_seq, push_part, refs_seq, BoxRef, Mp4Box};
use crate::boxes::node::BoxNode;
use crate::boxes::{ChunkOffsetBox, InnerAtom};
use crate::error::{Error, ErrorView};
use crate::header::Header;
use crate::model::{chunk_offset_child, inner_child, join, opt_view, NodeView, SampleTableView};
use vstd::prelude::*;

verus! {

/// The sample table container (`stbl`): the tables that locate and time
/// the samples of a track.
#[derive(Debug)]
pub struct SampleTable {
    stsd: Option<InnerAtom>,
    stts: Option<InnerAtom>,
    ctts: Option<InnerAtom>,
    stss: Option<InnerAtom>,
    sdtp: Option<InnerAtom>,
    stsc: Option<InnerAtom>,
    stsz: Option<InnerAtom>,
    stco: Option<ChunkOffsetBox>,
    sgpd: Option<InnerAtom>,
    sbgp: Option<InnerAtom>,
    header: Header,
    level: u8,
}

impl View for SampleTable {
    type V = SampleTableView;

    closed spec fn view(&self) -> SampleTableView {
        SampleTableView {
            header: self.header@,
            level: self.level as int,
            stsd: opt_view(self.stsd),
            stts: opt_view(self.stts),
            ctts: opt_view(self.ctts),
            stss: opt_view(self.stss),
            sdtp: opt_view(self.sdtp),
            stsc: opt_view(self.stsc),
            stsz: opt_view(self.stsz),
            stco: opt_view(self.stco),
            sgpd: opt_view(self.sgpd),
            sbgp: opt_view(self.sbgp),
        }
    }
}

impl SampleTable {
    /// The box with header `header` at nesting depth `level`, before any
    /// child was found in its body.
    pub fn new(header: Header, level: u8) -> (r: SampleTable)
        ensures
            r@ == SampleTableView::empty(header@, level as int),
    {
        let r = SampleTable {
            stsd: None,
            stts: None,
            ctts: None,
            stss: None,
            sdtp: None,
            stsc: None,
            stsz: None,
            stco: None,
            sgpd: None,
            sbgp: None,
            header,
            level,
        };
        r
    }

    /// Takes in `child`, a box that was found in the body of this one. A
    /// child that this box names is kept, in place of an earlier one of the
    /// same name; any other child is dropped.
    pub fn put(&mut self, child: BoxNode)
        ensures
            final(self)@ == old(self)@.put(child@),
    {
        match child {
            BoxNode::Inner(leaf) => match AtomName::lookup(leaf.name()) {
                AtomName::SampleDesc => {
                    self.stsd = Some(leaf);
                },
                AtomName::TimeToSample => {
                    self.stts = Some(leaf);
                },
                AtomName::CompositionOffset => {
                    self.ctts = Some(leaf);
                },
                AtomName::SyncSample => {
                    self.stss = Some(leaf);
                },
                AtomName::SampleDependency => {
                    self.sdtp = Some(leaf);
                },
                AtomName::SampleToChunk => {
                    self.stsc = Some(leaf);
                },
                AtomName::SampleSize => {
                    self.stsz = Some(leaf);
                },
                AtomName::SampleGroupDesc => {
                    self.sgpd = Some(leaf);
                },
                AtomName::SampleToGroup => {
                    self.sbgp = Some(leaf);
                },
                _ => {},
            },
            BoxNode::ChunkOffset(b) => {
                self.stco = Some(b);
            },
            _ => {},
        }
    }

    /// The sample description box (`stsd`); `BoxNotFound("stsd")`
    /// where the file held none.
    pub fn sample_desc_header_box(&self) -> (r: Result<&InnerAtom, Error>)
        ensures
            match self@.stsd {
                Some(b) => r matches Ok(found) && found@ == b,
                None => r matches Err(e) && e@ == ErrorView::BoxNotFound("stsd"@),
            },
    {
        match &self.stsd {
            Some(b) => Ok(b),
            None => Err(Error::not_found("stsd")),
        }
    }

    /// The decoding time-to-sample box (`stts`); `BoxNotFound("stts")`
    /// where the file held none.
    pub fn decoding_time_to_sample_box(&self) -> (r: Result<&InnerAtom, Error>)
        ensures
            match self@.stts {
                Some(b) => r matches Ok(found) && found@ == b,
                None => r matches Err(e) && e@ == ErrorView::BoxNotFound("stts"@),
            },
    {
        match &self.stts {
            Some(b) => Ok(b),
            None => Err(Error::not_found("stts")),
        }
    }

    /// The composition time-to-sample box (`ctts`); `BoxNotFound("ctts")`
    /// where the file held none.
    pub fn composition_time_to_sample_box(&self) -> (r: Result<&InnerAtom, Error>)
        ensures
            match self@.ctts {
                Some(b) => r matches Ok(found) && found@ == b,
                None => r matches Err(e) && e@ == ErrorView::BoxNotFound("ctts"@),
            },
    {
        match &self.ctts {
            Some(b) => Ok(b),
            None => Err(Error::not_found("ctts")),
        }
    }

    /// The sync sample table box (`stss`); `BoxNotFound("stss")`
    /// where the file held none.
    pub fn sync_sample_box(&self) -> (r: Result<&InnerAtom, Error>)
        ensures
            match self@.stss {
                Some(b) => r matches Ok(found) && found@ == b,
                None => r matches Err(e) && e@ == ErrorView::BoxNotFound("stss"@),
            },
    {
        match &self.stss {
            Some(b) => Ok(b),
            None => Err(Error::not_found("stss")),
        }
    }

    /// The independent and disposable samples box (`sdtp`); `BoxNotFound("sdtp")`
    /// where the file held none.
    pub fn ind_disp_samples_box(&self) -> (r: Result<&InnerAtom, Error>)
        ensures
            match self@.sdtp {
                Some(b) => r matches Ok(found) && found@ == b,
                None => r matches Err(e) && e@ == ErrorView::BoxNotFound("sdtp"@),
            },
    {
        match &self.sdtp {
            Some(b) => Ok(b),
            None => Err(Error::not_found("sdtp")),
        }
    }

    /// The sample-to-chunk box (`stsc`); `BoxNotFound("stsc")`
    /// where the file held none.
    pub fn stsc_box(&self) -> (r: Result<&InnerAtom, Error>)
        ensures
            match self@.stsc {
                Some(b) => r matches Ok(found) && found@ == b,
                None => r matches Err(e) && e@ == ErrorView::BoxNotFound("stsc"@),
            },
    {
        match &self.stsc {
            Some(b) => Ok(b),
            None => Err(Error::not_found("stsc")),
        }
    }

    /// The sample sizes box (`stsz`); `BoxNotFound("stsz")`
    /// where the file held none.
    pub fn sample_sizes_box(&self) -> (r: Result<&InnerAtom, Error>)
        ensures
            match self@.stsz {
                Some(b) => r matches Ok(found) && found@ == b,
                None => r matches Err(e) && e@ == ErrorView::BoxNotFound("stsz"@),
            },
    {
        match &self.stsz {
            Some(b) => Ok(b),
            None => Err(Error::not_found("stsz")),
        }
    }

    /// The chunk offset box (`stco`); `BoxNotFound("stco")`
    /// where the file held none.
    pub fn offset_info_box(&self) -> (r: Result<&ChunkOffsetBox, Error>)
        ensures
            match self@.stco {
                Some(b) => r matches Ok(found) && found@ == b,
                None => r matches Err(e) && e@ == ErrorView::BoxNotFound("stco"@),
            },
    {
        match &self.stco {
            Some(b) => Ok(b),
            None => Err(Error::not_found("stco")),
        }
    }

    /// The sample group description box (`sgpd`); `BoxNotFound("sgpd")`
    /// where the file held none.
    pub fn sample_group_desc_box(&self) -> (r: Result<&InnerAtom, Error>)
        ensures
            match self@.sgpd {
                Some(b) => r matches Ok(found) && found@ == b,
                None => r matches Err(e) && e@ == ErrorView::BoxNotFound("sgpd"@),
            },
    {
        match &self.sgpd {
            Some(b) => Ok(b),
            None => Err(Error::not_found("sgpd")),
        }
    }

    /// The sample-to-group box (`sbgp`); `BoxNotFound("sbgp")`
    /// where the file held none.
    pub fn sample_to_group_box(&self) -> (r: Result<&InnerAtom, Error>)
        ensures
            match self@.sbgp {
                Some(b) => r matches Ok(found) && found@ == b,
                None => r matches Err(e) && e@ == ErrorView::BoxNotFound("sbgp"@),
            },
    {
        match &self.sbgp {
            Some(b) => Ok(b),
            None => Err(Error::not_found("sbgp")),
        }
    }
}

impl Mp4Box for SampleTable {
    open spec fn node(&self) -> NodeView {
        NodeView::SampleTable(self@)
    }

    fn start(&self) -> (start: u64) {
        self.header.start()
    }

    fn end(&self) -> (end: u64) {
        self.header.end()
    }

    fn size(&self) -> (size: usize) {
        self.header.size()
    }

    fn name(&self) -> (name: &str) {
        self.header.name()
    }

    fn fields(&self) -> (fields: Option<Vec<BoxRef<'_>>>) {
        let mut fields: Vec<BoxRef<'_>> = Vec::new();
        let ghost mut done: Seq<Seq<NodeView>> = Seq::empty();
        assert(refs_seq(fields@) =~= join(done));
        let stsd = match &self.stsd {
            Some(b) => Some(BoxRef::Inner(b)),
            None => None,
        };
        assert(opt_ref_seq(stsd) == inner_child(self@.stsd));
        push_part(&mut fields, stsd, Ghost(done));
        proof {
            done = done.push(inner_child(self@.stsd));
        }
        let stts = match &self.stts {
            Some(b) => Some(BoxRef::Inner(b)),
            None => None,
        };
        assert(opt_ref_seq(stts) == inner_child(self@.stts));
        push_part(&mut fields, stts, Ghost(done));
        proof {
            done = done.push(inner_child(self@.stts));
        }
        let ctts = match &self.ctts {
            Some(b) => Some(BoxRef::Inner(b)),
            None => None,
        };
        assert(opt_ref_seq(ctts) == inner_child(self@.ctts));
        push_part(&mut fields, ctts, Ghost(done));
        proof {
            done = done.push(inner_child(self@.ctts));
        }
        let stsc = match &self.stsc {
            Some(b) => Some(BoxRef::Inner(b)),
            None => None,
        };
        assert(opt_ref_seq(stsc) == inner_child(self@.stsc));
        push_part(&mut fields, stsc, Ghost(done));
        proof {
            done = done.push(inner_child(self@.stsc));
        }
        let stsz = match &self.stsz {
            Some(b) => Some(BoxRef::Inner(b)),
            None => None,
        };
        assert(opt_ref_seq(stsz) == inner_child(self@.stsz));
        push_part(&mut fields, stsz, Ghost(done));
        proof {
            done = done.push(inner_child(self@.stsz));
        }
        let stco = match &self.stco {
            Some(b) => Some(BoxRef::ChunkOffset(b)),
            None => None,
        };
        assert(opt_ref_seq(stco) == chunk_offset_child(self@.stco));
        push_part(&mut fields, stco, Ghost(done));
        proof {
            done = done.push(chunk_offset_child(self@.stco));
        }
        let stss = match &self.stss {
            Some(b) => Some(BoxRef::Inner(b)),
            None => None,
        };
        assert(opt_ref_seq(stss) == inner_child(self@.stss));
        push_part(&mut fields, stss, Ghost(done));
        proof {
            done = done.push(inner_child(self@.stss));
        }
        let sdtp = match &self.sdtp {
            Some(b) => Some(BoxRef::Inner(b)),
            None => None,
        };
        assert(opt_ref_seq(sdtp) == inner_child(self@.sdtp));
        push_part(&mut fields, sdtp, Ghost(done));
        proof {
            done = done.push(inner_child(self@.sdtp));
        }
        let sgpd = match &self.sgpd {
            Some(b) => Some(BoxRef::Inner(b)),
            None => None,
        };
        assert(opt_ref_seq(sgpd) == inner_child(self@.sgpd));
        push_part(&mut fields, sgpd, Ghost(done));
        proof {
            done = done.push(inner_child(self@.sgpd));
        }
        let sbgp = match &self.sbgp {
            Some(b) => Some(BoxRef::Inner(b)),
            None => None,
        };
        assert(opt_ref_seq(sbgp) == inner_child(self@.sbgp));
        push_part(&mut fields, sbgp, Ghost(done));
        proof {
            done = done.push(inner_child(self@.sbgp));
        }
        assert(done == self@.parts());
        Some(fields)
    }

    fn level(&self) -> (level: u8) {
        self.level
    }
}

} // verus!
