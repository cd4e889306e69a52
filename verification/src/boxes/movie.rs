//! The movie container.

use crate::atom_name::AtomName;
use crate::boxes::mp4_box::{opt_ref_seq, push_part, push_ref, refs_seq, BoxRef, Mp4Box};
use crate::boxes::node::BoxNode;
use crate::boxes::{InnerAtom, Track};
use crate::error::{Error, ErrorView};
use crate::header::Header;
use crate::model::{inner_child, join, lemma_join_push, opt_view, MovieView, NodeView};
use vstd::prelude::*;

verus! {

/// The movie container (`moov`): the metadata of the whole presentation.
#[derive(Debug)]
pub struct Movie {
    mvhd: Option<InnerAtom>,
    tracks: Vec<Track>,
    udta: Option<InnerAtom>,
    header: Header,
    level: u8,
}

impl View for Movie {
    type V = MovieView;

    closed spec fn view(&self) -> MovieView {
        MovieView {
            header: self.header@,
            level: self.level as int,
            mvhd: opt_view(self.mvhd),
            tracks: Seq::new(self.tracks@.len(), |i: int| self.tracks@[i]@),
            udta: opt_view(self.udta),
        }
    }
}

impl Movie {
    /// The box with header `header` at nesting depth `level`, before any
    /// child was found in its body.
    pub fn new(header: Header, level: u8) -> (r: Movie)
        ensures
            r@ == MovieView::empty(header@, level as int),
    {
        let r = Movie {
            mvhd: None,
            tracks: Vec::new(),
            udta: None,
            header,
            level,
        };
        assert(r@.tracks =~= Seq::empty());
        r
    }

    /// Takes in `child`, a box that was found in the body of this one. A
    /// child that this box names is kept, in place of an earlier one of the
    /// same name; any other child is dropped.
    pub fn put(&mut self, child: BoxNode)
        ensures
            final(self)@ == old(self)@.put(child@),
    {
        match child {
            BoxNode::Inner(leaf) => match AtomName::lookup(leaf.name()) {
                AtomName::MovieHeader => {
                    self.mvhd = Some(leaf);
                },
                AtomName::Userdata => {
                    self.udta = Some(leaf);
                },
                _ => {},
            },
            BoxNode::Track(b) => {
                self.tracks.push(b);
                assert(self@.tracks =~= old(self)@.tracks.push(b@));
            },
            _ => {},
        }
    }

    /// The movie header box (`mvhd`); `BoxNotFound("mvhd")`
    /// where the file held none.
    pub fn movie_header_box(&self) -> (r: Result<&InnerAtom, Error>)
        ensures
            match self@.mvhd {
                Some(b) => r matches Ok(found) && found@ == b,
                None => r matches Err(e) && e@ == ErrorView::BoxNotFound("mvhd"@),
            },
    {
        match &self.mvhd {
            Some(b) => Ok(b),
            None => Err(Error::not_found("mvhd")),
        }
    }

    /// The number of tracks in the movie.
    pub fn tracks_num(&self) -> (n: usize)
        ensures
            n == self@.tracks.len(),
    {
        self.tracks.len()
    }

    /// Track number `id`, counting from zero in file order, or
    /// `BoxNotFound("trak")` where the movie has no such track.
    pub fn track_box(&self, id: usize) -> (r: Result<&Track, Error>)
        ensures
            if id < self@.tracks.len() {
                r matches Ok(found) && found@ == self@.tracks[id as int]
            } else {
                r matches Err(e) && e@ == ErrorView::BoxNotFound("trak"@)
            },
    {
        if id < self.tracks.len() {
            Ok(&self.tracks[id])
        } else {
            Err(Error::not_found("trak"))
        }
    }

    /// The user data box (`udta`); `BoxNotFound("udta")`
    /// where the file held none.
    pub fn user_data_box(&self) -> (r: Result<&InnerAtom, Error>)
        ensures
            match self@.udta {
                Some(b) => r matches Ok(found) && found@ == b,
                None => r matches Err(e) && e@ == ErrorView::BoxNotFound("udta"@),
            },
    {
        match &self.udta {
            Some(b) => Ok(b),
            None => Err(Error::not_found("udta")),
        }
    }
}

impl Mp4Box for Movie {
    open spec fn node(&self) -> NodeView {
        NodeView::Movie(self@)
    }

    fn start(&self) -> (start: u64) {
        self.header.start()
    }

    fn end(&self) -> (end: u64) {
        self.header.end()
    }

    fn size(&self) -> (size: usize) {
        self.header.size()
    }

    fn name(&self) -> (name: &str) {
        self.header.name()
    }

    fn fields(&self) -> (fields: Option<Vec<BoxRef<'_>>>) {
        let mut fields: Vec<BoxRef<'_>> = Vec::new();
        let ghost mut done: Seq<Seq<NodeView>> = Seq::empty();
        assert(refs_seq(fields@) =~= join(done));
        let mvhd = match &self.mvhd {
            Some(b) => Some(BoxRef::Inner(b)),
            None => None,
        };
        assert(opt_ref_seq(mvhd) == inner_child(self@.mvhd));
        push_part(&mut fields, mvhd, Ghost(done));
        proof {
            done = done.push(inner_child(self@.mvhd));
        }
        let ghost before = refs_seq(fields@);
        let mut i: usize = 0;
        assert(refs_seq(fields@) =~= before + self@.track_children().take(0));
        while i < self.tracks.len()
            invariant
                i <= self.tracks@.len(),
                refs_seq(fields@) == before + self@.track_children().take(i as int),
            decreases self.tracks@.len() - i,
        {
            push_ref(&mut fields, Some(BoxRef::Track(&self.tracks[i])));
            i += 1;
            assert(refs_seq(fields@) =~= before + self@.track_children().take(i as int));
        }
        proof {
            assert(self@.track_children().take(i as int) =~= self@.track_children());
            lemma_join_push(done, self@.track_children());
            done = done.push(self@.track_children());
        }
        let udta = match &self.udta {
            Some(b) => Some(BoxRef::Inner(b)),
            None => None,
        };
        assert(opt_ref_seq(udta) == inner_child(self@.udta));
        push_part(&mut fields, udta, Ghost(done));
        proof {
            done = done.push(inner_child(self@.udta));
        }
        assert(done == self@.parts());
        Some(fields)
    }

    fn level(&self) -> (level: u8) {
        self.level
    }
}

} // verus!
