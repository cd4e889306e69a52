//! The root of a decoded file.

use crate::atom_name::AtomName;
use crate::boxes::mp4_box::{opt_ref_seq, push_part, refs_seq, BoxRef, Mp4Box};
use crate::boxes::{BoxNode, FileType, Free, MediaData, Movie, Wide};
use crate::conformance::{
    lemma_fed_follows, lemma_outcome, lemma_request_in_file, lemma_start_follows,
};
use crate::error::{Error, ErrorView};
use crate::header::result_view;
use crate::layout::parse_file;
use crate::model::{
    file_type_child, free_child, join, media_data_child, movie_child, opt_view, wide_child,
    Mp4View, NodeView,
};
use crate::parser::{Parser, RequestView};
use crate::spans::lemma_parse_file_wf;

use vstd::prelude::*;
use vstd::slice::slice_subrange;

verus! {

/// A decoded file: the conventional top-level boxes that were found in it.
/// A file need not hold all of them.
#[derive(Debug)]
pub struct Mp4 {
    ftyp: Option<FileType>,
    wide: Option<Wide>,
    mdat: Option<MediaData>,
    moov: Option<Movie>,
    free: Option<Free>,
    skip: Option<Free>,
    size: u64,
    file: String,
}

impl View for Mp4 {
    type V = Mp4View;

    closed spec fn view(&self) -> Mp4View {
        Mp4View {
            ftyp: opt_view(self.ftyp),
            wide: opt_view(self.wide),
            mdat: opt_view(self.mdat),
            moov: opt_view(self.moov),
            free: opt_view(self.free),
            skip: opt_view(self.skip),
            size: self.size as int,
            file: self.file@,
        }
    }
}

impl Mp4 {
    /// The root of the file named `file`, of `size` bytes, before any box
    /// was found in it.
    pub fn new(file: String, size: u64) -> (r: Mp4)
        ensures
            r@ == Mp4View::empty(file@, size as int),
    {
        Mp4 {
            ftyp: None,
            wide: None,
            mdat: None,
            moov: None,
            free: None,
            skip: None,
            size,
            file,
        }
    }

    /// Decodes the file named `file` from its bytes `data`.
    ///
    /// The result is the tree that the layout of `data` describes, or the
    /// first error that the layout runs into; there is no partial tree. A
    /// box that declares bytes past the end of `data` is the `IO` error of
    /// [`Error::unexpected_end`].
    /// Only the headers and the chunk offset tables are looked at.
    pub fn parse(file: &str, data: &[u8]) -> (r: Result<Mp4, Error>)
        ensures
            result_view(r) == parse_file(file@, data@),
            r matches Ok(mp4) ==> mp4@.wf() && mp4@.size == data@.len() && mp4@.file == file@,
    {
        let mut parser = Parser::new(String::from_str(file), data.len() as u64);
        proof {
            lemma_start_follows(file@, data@);
        }
        loop
            invariant
                parser@.follows(data@),
                parser@.root.file == file@,
                data@.len() <= usize::MAX,
            decreases parser@.remaining(),
        {
            match parser.request() {
                None => {
                    let r = parser.finish();
                    proof {
                        lemma_outcome(parser@, data@);
                        if r is Ok {
                            lemma_parse_file_wf(file@, data@);
                        }
                    }
                    return r;
                },
                Some(q) => {
                    proof {
                        lemma_request_in_file(parser@, data@);
                        lemma_fed_follows(parser@, data@);
                    }
                    assert(parser@.request() == Some(
                        RequestView { offset: q.offset as int, len: q.len as int },
                    ));
                    let from = q.offset as usize;
                    let bytes = slice_subrange(data, from, from + q.len);
                    assert(bytes@ == parser@.asked_of(data@));
                    parser = parser.feed(bytes);
                    proof {
                        if parser@.request() is Some {
                            lemma_request_in_file(parser@, data@);
                        }
                    }
                },
            }
        }
    }

    /// Takes in `child`, a box that was found at the top level of the file.
    /// A box that the root names is kept, in place of an earlier one of the
    /// same name; any other box is dropped.
    pub fn put(&mut self, child: BoxNode)
        ensures
            final(self)@ == old(self)@.put(child@),
    {
        match child {
            BoxNode::FileType(b) => {
                self.ftyp = Some(b);
            },
            BoxNode::Wide(b) => {
                self.wide = Some(b);
            },
            BoxNode::MediaData(b) => {
                self.mdat = Some(b);
            },
            BoxNode::Movie(b) => {
                self.moov = Some(b);
            },
            BoxNode::Free(b) => {
                match AtomName::lookup(b.name()) {
                    AtomName::Skip => {
                        self.skip = Some(b);
                    },
                    _ => {
                        self.free = Some(b);
                    },
                }
            },
            _ => {},
        }
    }

    /// The length of the file in bytes.
    pub fn size(&self) -> (size: u64)
        ensures
            size == self@.size,
    {
        self.size
    }

    /// The name of the file.
    pub fn file(&self) -> (file: &str)
        ensures
            file@ == self@.file,
    {
        self.file.as_str()
    }

    /// The top-level boxes that were kept, in listing order.
    pub fn fields(&self) -> (fields: Vec<BoxRef<'_>>)
        ensures
            refs_seq(fields@) == self@.children(),
    {
        let mut fields: Vec<BoxRef<'_>> = Vec::new();
        let ghost mut done: Seq<Seq<NodeView>> = Seq::empty();
        assert(refs_seq(fields@) =~= join(done));
        let ftyp = match &self.ftyp {
            Some(b) => Some(BoxRef::FileType(b)),
            None => None,
        };
        assert(opt_ref_seq(ftyp) == file_type_child(self@.ftyp));
        push_part(&mut fields, ftyp, Ghost(done));
        proof {
            done = done.push(file_type_child(self@.ftyp));
        }
        let wide = match &self.wide {
            Some(b) => Some(BoxRef::Wide(b)),
            None => None,
        };
        assert(opt_ref_seq(wide) == wide_child(self@.wide));
        push_part(&mut fields, wide, Ghost(done));
        proof {
            done = done.push(wide_child(self@.wide));
        }
        let mdat = match &self.mdat {
            Some(b) => Some(BoxRef::MediaData(b)),
            None => None,
        };
        assert(opt_ref_seq(mdat) == media_data_child(self@.mdat));
        push_part(&mut fields, mdat, Ghost(done));
        proof {
            done = done.push(media_data_child(self@.mdat));
        }
        let moov = match &self.moov {
            Some(b) => Some(BoxRef::Movie(b)),
            None => None,
        };
        assert(opt_ref_seq(moov) == movie_child(self@.moov));
        push_part(&mut fields, moov, Ghost(done));
        proof {
            done = done.push(movie_child(self@.moov));
        }
        let free = match &self.free {
            Some(b) => Some(BoxRef::Free(b)),
            None => None,
        };
        assert(opt_ref_seq(free) == free_child(self@.free));
        push_part(&mut fields, free, Ghost(done));
        proof {
            done = done.push(free_child(self@.free));
        }
        let skip = match &self.skip {
            Some(b) => Some(BoxRef::Free(b)),
            None => None,
        };
        assert(opt_ref_seq(skip) == free_child(self@.skip));
        push_part(&mut fields, skip, Ghost(done));
        proof {
            done = done.push(free_child(self@.skip));
        }
        assert(done == self@.parts());
        fields
    }

    /// The file type box (`ftyp`); `BoxNotFound("ftyp")`
    /// where the file held none.
    pub fn ftype_box(&self) -> (r: Result<&FileType, Error>)
        ensures
            match self@.ftyp {
                Some(b) => r matches Ok(found) && found@ == b,
                None => r matches Err(e) && e@ == ErrorView::BoxNotFound("ftyp"@),
            },
    {
        match &self.ftyp {
            Some(b) => Ok(b),
            None => Err(Error::not_found("ftyp")),
        }
    }

    /// The reserved space box (`wide`); `BoxNotFound("wide")`
    /// where the file held none.
    pub fn wide_box(&self) -> (r: Result<&Wide, Error>)
        ensures
            match self@.wide {
                Some(b) => r matches Ok(found) && found@ == b,
                None => r matches Err(e) && e@ == ErrorView::BoxNotFound("wide"@),
            },
    {
        match &self.wide {
            Some(b) => Ok(b),
            None => Err(Error::not_found("wide")),
        }
    }

    /// The media data box (`mdat`); `BoxNotFound("mdat")`
    /// where the file held none.
    pub fn mdat_box(&self) -> (r: Result<&MediaData, Error>)
        ensures
            match self@.mdat {
                Some(b) => r matches Ok(found) && found@ == b,
                None => r matches Err(e) && e@ == ErrorView::BoxNotFound("mdat"@),
            },
    {
        match &self.mdat {
            Some(b) => Ok(b),
            None => Err(Error::not_found("mdat")),
        }
    }

    /// The movie box (`moov`); `BoxNotFound("moov")`
    /// where the file held none.
    pub fn movie_box(&self) -> (r: Result<&Movie, Error>)
        ensures
            match self@.moov {
                Some(b) => r matches Ok(found) && found@ == b,
                None => r matches Err(e) && e@ == ErrorView::BoxNotFound("moov"@),
            },
    {
        match &self.moov {
            Some(b) => Ok(b),
            None => Err(Error::not_found("moov")),
        }
    }

    /// The free space box (`free`); `BoxNotFound("free")`
    /// where the file held none.
    pub fn free_box(&self) -> (r: Result<&Free, Error>)
        ensures
            match self@.free {
                Some(b) => r matches Ok(found) && found@ == b,
                None => r matches Err(e) && e@ == ErrorView::BoxNotFound("free"@),
            },
    {
        match &self.free {
            Some(b) => Ok(b),
            None => Err(Error::not_found("free")),
        }
    }
}

/// Decoding is a function of the name and the bytes of a file: whenever the
/// same input is decoded twice, the two results are the same tree, box for
/// box, or the same error.
pub proof fn lemma_parse_twice(
    first: Result<Mp4, Error>,
    second: Result<Mp4, Error>,
    file: Seq<char>,
    data: Seq<u8>,
)
    requires
        result_view(first) == parse_file(file, data),
        result_view(second) == parse_file(file, data),
    ensures
        result_view(first) == result_view(second),
        first matches Ok(a) ==> second matches Ok(b) && a@ == b@,
{
}

} // verus!
