//! Where the boxes of a decoded tree lie.
//!
//! A tree is well formed when every box spans at least its header, every
//! child that a container kept lies inside the body of that container, one
//! level deeper, and no two children of one container overlap. Every tree
//! that the layout of a file describes is well formed, and the boxes found
//! in a span fill it without gap: their sizes add up to the length of the
//! span, and so do the sizes of the children that a container kept, in
//! whatever order they lie in the file, where it kept them all.

use crate::atom_name::{AtomName, Decoder};
use crate::error::ErrorView;
use crate::header::{lemma_header_of_wf, HeaderView};
use crate::layout::{box_at, boxes_in, header_in, parse_file};
use crate::model::{
    join, lemma_fresh, lemma_join_push, lemma_put_keeps, lemma_root_put_keeps, EditListsView,
    MediaInfoView, MediaView, MovieView, Mp4View, NodeView, SampleTableView, TrackView,
};
use vstd::prelude::*;

verus! {

/// Every box of `boxes` is at depth `level`, spans at least its header and
/// lies between `lo` and `hi`.
pub open spec fn placed(boxes: Seq<NodeView>, lo: int, hi: int, level: int) -> bool {
    forall|i: int|
        0 <= i < boxes.len() ==> {
            &&& (#[trigger] boxes[i]).header().wf()
            &&& lo <= boxes[i].header().start
            &&& boxes[i].header().end() <= hi
            &&& boxes[i].level() == level
        }
}

/// No two boxes of `boxes` overlap.
pub open spec fn apart(boxes: Seq<NodeView>) -> bool {
    forall|i: int, j: int|
        0 <= i < j < boxes.len() ==> {
            ||| (#[trigger] boxes[i]).header().end() <= (#[trigger] boxes[j]).header().start
            ||| boxes[j].header().end() <= boxes[i].header().start
        }
}

/// The boxes of `boxes` fill the span from `from` to `to` in order and
/// without gap: the first starts at `from`, each next one starts where
/// the one before it ends, and the last ends at `to`.
pub open spec fn tiled(boxes: Seq<NodeView>, from: int, to: int) -> bool {
    if boxes.len() == 0 {
        from == to
    } else {
        &&& boxes[0].header().start == from
        &&& boxes.last().header().end() == to
        &&& forall|i: int|
            0 <= i < boxes.len() - 1 ==> (#[trigger] boxes[i]).header().end() == boxes[i
                + 1].header().start
    }
}

/// The sum of the declared sizes of `boxes`.
pub open spec fn total_size(boxes: Seq<NodeView>) -> int
    decreases boxes.len(),
{
    if boxes.len() == 0 {
        0
    } else {
        total_size(boxes.drop_last()) + boxes.last().header().size
    }
}

impl SampleTableView {
    /// The sample table is well formed as far as its body was walked, up to
    /// `cursor`: the children it kept lie between the end of its header and
    /// `cursor`, one level below it, apart from each other, and each is
    /// well formed itself.
    pub open spec fn wf_upto(self, cursor: int) -> bool {
        &&& self.header.wf()
        &&& placed(self.children(), self.header.body_start(), cursor, self.level + 1)
        &&& apart(self.children())
    }

    /// The sample table is well formed.
    pub open spec fn wf(self) -> bool {
        self.wf_upto(self.header.end())
    }
}

impl EditListsView {
    /// The edit lists box is well formed as far as its body was walked, up to
    /// `cursor`: the children it kept lie between the end of its header and
    /// `cursor`, one level below it, apart from each other, and each is
    /// well formed itself.
    pub open spec fn wf_upto(self, cursor: int) -> bool {
        &&& self.header.wf()
        &&& placed(self.children(), self.header.body_start(), cursor, self.level + 1)
        &&& apart(self.children())
    }

    /// The edit lists box is well formed.
    pub open spec fn wf(self) -> bool {
        self.wf_upto(self.header.end())
    }
}

impl MediaInfoView {
    /// The media information box is well formed as far as its body was walked, up to
    /// `cursor`: the children it kept lie between the end of its header and
    /// `cursor`, one level below it, apart from each other, and each is
    /// well formed itself.
    pub open spec fn wf_upto(self, cursor: int) -> bool {
        &&& self.header.wf()
        &&& placed(self.children(), self.header.body_start(), cursor, self.level + 1)
        &&& apart(self.children())
        &&& self.stbl matches Some(b) ==> b.wf()
    }

    /// The media information box is well formed.
    pub open spec fn wf(self) -> bool {
        self.wf_upto(self.header.end())
    }
}

impl MediaView {
    /// The media box is well formed as far as its body was walked, up to
    /// `cursor`: the children it kept lie between the end of its header and
    /// `cursor`, one level below it, apart from each other, and each is
    /// well formed itself.
    pub open spec fn wf_upto(self, cursor: int) -> bool {
        &&& self.header.wf()
        &&& placed(self.children(), self.header.body_start(), cursor, self.level + 1)
        &&& apart(self.children())
        &&& self.minf matches Some(b) ==> b.wf()
    }

    /// The media box is well formed.
    pub open spec fn wf(self) -> bool {
        self.wf_upto(self.header.end())
    }
}

impl TrackView {
    /// The track is well formed as far as its body was walked, up to
    /// `cursor`: the children it kept lie between the end of its header and
    /// `cursor`, one level below it, apart from each other, and each is
    /// well formed itself.
    pub open spec fn wf_upto(self, cursor: int) -> bool {
        &&& self.header.wf()
        &&& placed(self.children(), self.header.body_start(), cursor, self.level + 1)
        &&& apart(self.children())
        &&& self.edts matches Some(b) ==> b.wf()
        &&& self.mdia matches Some(b) ==> b.wf()
    }

    /// The track is well formed.
    pub open spec fn wf(self) -> bool {
        self.wf_upto(self.header.end())
    }
}

impl MovieView {
    /// The movie is well formed as far as its body was walked, up to
    /// `cursor`: the children it kept lie between the end of its header and
    /// `cursor`, one level below it, apart from each other, and each is
    /// well formed itself.
    pub open spec fn wf_upto(self, cursor: int) -> bool {
        &&& self.header.wf()
        &&& placed(self.children(), self.header.body_start(), cursor, self.level + 1)
        &&& apart(self.children())
        &&& forall|i: int| 0 <= i < self.tracks.len() ==> (#[trigger] self.tracks[i]).wf()
    }

    /// The movie is well formed.
    pub open spec fn wf(self) -> bool {
        self.wf_upto(self.header.end())
    }
}

impl Mp4View {
    /// The root is well formed as far as the file was walked, up to
    /// `cursor`: the top-level boxes it kept lie between the start of the
    /// file and `cursor`, at depth 1, apart from each other, and the movie
    /// is well formed itself.
    pub open spec fn wf_upto(self, cursor: int) -> bool {
        &&& placed(self.children(), 0, cursor, 1)
        &&& apart(self.children())
        &&& self.moov matches Some(b) ==> b.wf()
    }

    /// The root is well formed.
    pub open spec fn wf(self) -> bool {
        self.wf_upto(self.size)
    }
}

impl NodeView {
    /// The box is well formed as far as its body was walked, up to `cursor`.
    /// Of a leaf this asks only that it spans at least its header.
    pub open spec fn wf_upto(self, cursor: int) -> bool {
        match self {
            NodeView::Movie(b) => b.wf_upto(cursor),
            NodeView::Track(b) => b.wf_upto(cursor),
            NodeView::EditLists(b) => b.wf_upto(cursor),
            NodeView::Media(b) => b.wf_upto(cursor),
            NodeView::MediaInfo(b) => b.wf_upto(cursor),
            NodeView::SampleTable(b) => b.wf_upto(cursor),
            _ => self.header().wf(),
        }
    }

    /// The box is well formed: it spans at least its header, its end is
    /// its start plus its size, and, for a container, every child it kept
    /// lies inside its body, one level deeper, apart from the other
    /// children, and is well formed itself.
    pub open spec fn wf(self) -> bool {
        self.wf_upto(self.header().end())
    }
}

/// Boxes that lie before `cursor` also lie before any later offset.
pub proof fn lemma_placed_wider(boxes: Seq<NodeView>, lo: int, cursor: int, hi: int, level: int)
    requires
        placed(boxes, lo, cursor, level),
        cursor <= hi,
    ensures
        placed(boxes, lo, hi, level),
{
}

/// In a list of boxes that lie apart before `cursor`, the boxes `slot` in
/// the middle may give way to a box `child` that starts at or after
/// `cursor`, all of them or all but the first `keep`: the list still lies
/// apart.
pub proof fn lemma_swap(
    before: Seq<NodeView>,
    slot: Seq<NodeView>,
    after: Seq<NodeView>,
    keep: int,
    child: NodeView,
    lo: int,
    cursor: int,
    hi: int,
    level: int,
)
    requires
        placed(before + slot + after, lo, cursor, level),
        apart(before + slot + after),
        0 <= keep <= slot.len(),
        child.header().wf(),
        child.level() == level,
        lo <= cursor <= child.header().start,
        child.header().end() <= hi,
    ensures
        placed(before + slot.take(keep).push(child) + after, lo, hi, level),
        apart(before + slot.take(keep).push(child) + after),
{
    let old = before + slot + after;
    let new = before + slot.take(keep).push(child) + after;
    let at = before.len() + keep;
    let shift = slot.len() - keep - 1;
    assert forall|i: int| 0 <= i < new.len() implies (i < at ==> new[i] == old[i]) && (i == at
        ==> new[i] == child) && (i > at ==> new[i] == old[i + shift]) by {}
    assert forall|i: int| 0 <= i < new.len() implies {
        &&& (#[trigger] new[i]).header().wf()
        &&& lo <= new[i].header().start
        &&& new[i].header().end() <= hi
        &&& new[i].level() == level
    } by {
        if i < at {
            assert(new[i] == old[i]);
        } else if i > at {
            assert(new[i] == old[i + shift]);
        }
    }
    assert forall|i: int, j: int| 0 <= i < j < new.len() implies {
        ||| (#[trigger] new[i]).header().end() <= (#[trigger] new[j]).header().start
        ||| new[j].header().end() <= new[i].header().start
    } by {
        let oi = if i < at {
            i
        } else {
            i + shift
        };
        let oj = if j < at {
            j
        } else {
            j + shift
        };
        if i != at {
            assert(new[i] == old[oi]);
        }
        if j != at {
            assert(new[j] == old[oj]);
        }
    }
}

/// The boxes of joined parts are those of the parts before part `k`, then
/// those of part `k`, then those of the parts after it.
pub proof fn lemma_join_split(parts: Seq<Seq<NodeView>>, k: int)
    requires
        0 <= k < parts.len(),
    ensures
        join(parts) == join(parts.take(k)) + parts[k] + join(parts.skip(k + 1)),
    decreases parts.len(),
{
    let front = parts.drop_last();
    if k == parts.len() - 1 {
        assert(parts.take(k) =~= front);
        assert(parts.skip(k + 1) =~= Seq::<Seq<NodeView>>::empty());
        assert(join(front) + parts[k] + Seq::<NodeView>::empty() =~= join(front) + parts[k]);
    } else {
        lemma_join_split(front, k);
        assert(front.take(k) =~= parts.take(k));
        assert(parts.skip(k + 1) =~= front.skip(k + 1).push(parts.last()));
        lemma_join_push(front.skip(k + 1), parts.last());
        assert((join(parts.take(k)) + parts[k] + join(front.skip(k + 1))) + parts.last() =~= join(
            parts.take(k),
        ) + parts[k] + (join(front.skip(k + 1)) + parts.last()));
    }
}

/// The same as [`lemma_swap`], for boxes that are joined from parts: part
/// `k` of `old` gives way to `child`, and `new` is `old` with that part
/// changed.
pub proof fn lemma_part_swap(
    old: Seq<Seq<NodeView>>,
    new: Seq<Seq<NodeView>>,
    k: int,
    keep: int,
    child: NodeView,
    lo: int,
    cursor: int,
    hi: int,
    level: int,
)
    requires
        placed(join(old), lo, cursor, level),
        apart(join(old)),
        0 <= k < old.len(),
        new.len() == old.len(),
        forall|i: int| 0 <= i < old.len() && i != k ==> new[i] == old[i],
        0 <= keep <= old[k].len(),
        new[k] == old[k].take(keep).push(child),
        child.header().wf(),
        child.level() == level,
        lo <= cursor <= child.header().start,
        child.header().end() <= hi,
    ensures
        placed(join(new), lo, hi, level),
        apart(join(new)),
{
    lemma_join_split(old, k);
    lemma_join_split(new, k);
    assert(new.take(k) =~= old.take(k));
    assert(new.skip(k + 1) =~= old.skip(k + 1));
    lemma_swap(
        join(old.take(k)),
        old[k],
        join(old.skip(k + 1)),
        keep,
        child,
        lo,
        cursor,
        hi,
        level,
    );
}

/// Putting a well-formed box that starts at or after `cursor` into a
/// sample table that is well formed up to `cursor` leaves it well formed up to
/// the end of that box.
pub proof fn lemma_sample_table_put_wf(m: SampleTableView, child: NodeView, cursor: int, hi: int)
    requires
        m.wf_upto(cursor),
        child.wf(),
        child.level() == m.level + 1,
        m.header.body_start() <= cursor <= child.header().start,
        child.header().end() <= hi,
    ensures
        m.put(child).wf_upto(hi),
{
    let n = m.put(child);
    let lo = m.header.body_start();
    let level = m.level + 1;
    lemma_placed_wider(m.children(), lo, cursor, hi, level);
    match child {
        NodeView::Inner(leaf) => match AtomName::of(leaf.header.name) {
            AtomName::SampleDesc => {
                let keep: int = 0;
                assert(n.parts()[0] =~= m.parts()[0].take(keep).push(child));
                lemma_part_swap(m.parts(), n.parts(), 0, keep, child, lo, cursor, hi, level);
            },
            AtomName::TimeToSample => {
                let keep: int = 0;
                assert(n.parts()[1] =~= m.parts()[1].take(keep).push(child));
                lemma_part_swap(m.parts(), n.parts(), 1, keep, child, lo, cursor, hi, level);
            },
            AtomName::CompositionOffset => {
                let keep: int = 0;
                assert(n.parts()[2] =~= m.parts()[2].take(keep).push(child));
                lemma_part_swap(m.parts(), n.parts(), 2, keep, child, lo, cursor, hi, level);
            },
            AtomName::SampleToChunk => {
                let keep: int = 0;
                assert(n.parts()[3] =~= m.parts()[3].take(keep).push(child));
                lemma_part_swap(m.parts(), n.parts(), 3, keep, child, lo, cursor, hi, level);
            },
            AtomName::SampleSize => {
                let keep: int = 0;
                assert(n.parts()[4] =~= m.parts()[4].take(keep).push(child));
                lemma_part_swap(m.parts(), n.parts(), 4, keep, child, lo, cursor, hi, level);
            },
            AtomName::SyncSample => {
                let keep: int = 0;
                assert(n.parts()[6] =~= m.parts()[6].take(keep).push(child));
                lemma_part_swap(m.parts(), n.parts(), 6, keep, child, lo, cursor, hi, level);
            },
            AtomName::SampleDependency => {
                let keep: int = 0;
                assert(n.parts()[7] =~= m.parts()[7].take(keep).push(child));
                lemma_part_swap(m.parts(), n.parts(), 7, keep, child, lo, cursor, hi, level);
            },
            AtomName::SampleGroupDesc => {
                let keep: int = 0;
                assert(n.parts()[8] =~= m.parts()[8].take(keep).push(child));
                lemma_part_swap(m.parts(), n.parts(), 8, keep, child, lo, cursor, hi, level);
            },
            AtomName::SampleToGroup => {
                let keep: int = 0;
                assert(n.parts()[9] =~= m.parts()[9].take(keep).push(child));
                lemma_part_swap(m.parts(), n.parts(), 9, keep, child, lo, cursor, hi, level);
            },
            _ => {},
        },
        NodeView::ChunkOffset(b) => {
            let keep: int = 0;
            assert(n.parts()[5] =~= m.parts()[5].take(keep).push(child));
            lemma_part_swap(m.parts(), n.parts(), 5, keep, child, lo, cursor, hi, level);
        },
        _ => {},
    }
}

/// Putting a well-formed box that starts at or after `cursor` into a
/// edit lists box that is well formed up to `cursor` leaves it well formed up to
/// the end of that box.
pub proof fn lemma_edit_lists_put_wf(m: EditListsView, child: NodeView, cursor: int, hi: int)
    requires
        m.wf_upto(cursor),
        child.wf(),
        child.level() == m.level + 1,
        m.header.body_start() <= cursor <= child.header().start,
        child.header().end() <= hi,
    ensures
        m.put(child).wf_upto(hi),
{
    let n = m.put(child);
    let lo = m.header.body_start();
    let level = m.level + 1;
    lemma_placed_wider(m.children(), lo, cursor, hi, level);
    match child {
        NodeView::Inner(leaf) => match AtomName::of(leaf.header.name) {
            AtomName::EditList => {
                let keep: int = 0;
                assert(n.parts()[0] =~= m.parts()[0].take(keep).push(child));
                lemma_part_swap(m.parts(), n.parts(), 0, keep, child, lo, cursor, hi, level);
            },
            _ => {},
        },
        _ => {},
    }
}

/// Putting a well-formed box that starts at or after `cursor` into a
/// media information box that is well formed up to `cursor` leaves it well formed up to
/// the end of that box.
pub proof fn lemma_media_info_put_wf(m: MediaInfoView, child: NodeView, cursor: int, hi: int)
    requires
        m.wf_upto(cursor),
        child.wf(),
        child.level() == m.level + 1,
        m.header.body_start() <= cursor <= child.header().start,
        child.header().end() <= hi,
    ensures
        m.put(child).wf_upto(hi),
{
    let n = m.put(child);
    let lo = m.header.body_start();
    let level = m.level + 1;
    lemma_placed_wider(m.children(), lo, cursor, hi, level);
    match child {
        NodeView::Inner(leaf) => match AtomName::of(leaf.header.name) {
            AtomName::VideoMediaHeader => {
                let keep: int = 0;
                assert(n.parts()[0] =~= m.parts()[0].take(keep).push(child));
                lemma_part_swap(m.parts(), n.parts(), 0, keep, child, lo, cursor, hi, level);
            },
            AtomName::DataInfo => {
                let keep: int = 0;
                assert(n.parts()[1] =~= m.parts()[1].take(keep).push(child));
                lemma_part_swap(m.parts(), n.parts(), 1, keep, child, lo, cursor, hi, level);
            },
            _ => {},
        },
        NodeView::SampleTable(b) => {
            let keep: int = 0;
            assert(n.parts()[2] =~= m.parts()[2].take(keep).push(child));
            lemma_part_swap(m.parts(), n.parts(), 2, keep, child, lo, cursor, hi, level);
        },
        _ => {},
    }
}

/// Putting a well-formed box that starts at or after `cursor` into a
/// media box that is well formed up to `cursor` leaves it well formed up to
/// the end of that box.
pub proof fn lemma_media_put_wf(m: MediaView, child: NodeView, cursor: int, hi: int)
    requires
        m.wf_upto(cursor),
        child.wf(),
        child.level() == m.level + 1,
        m.header.body_start() <= cursor <= child.header().start,
        child.header().end() <= hi,
    ensures
        m.put(child).wf_upto(hi),
{
    let n = m.put(child);
    let lo = m.header.body_start();
    let level = m.level + 1;
    lemma_placed_wider(m.children(), lo, cursor, hi, level);
    match child {
        NodeView::Inner(leaf) => match AtomName::of(leaf.header.name) {
            AtomName::MediaHeader => {
                let keep: int = 0;
                assert(n.parts()[0] =~= m.parts()[0].take(keep).push(child));
                lemma_part_swap(m.parts(), n.parts(), 0, keep, child, lo, cursor, hi, level);
            },
            AtomName::MediaHandler => {
                let keep: int = 0;
                assert(n.parts()[1] =~= m.parts()[1].take(keep).push(child));
                lemma_part_swap(m.parts(), n.parts(), 1, keep, child, lo, cursor, hi, level);
            },
            _ => {},
        },
        NodeView::MediaInfo(b) => {
            let keep: int = 0;
            assert(n.parts()[2] =~= m.parts()[2].take(keep).push(child));
            lemma_part_swap(m.parts(), n.parts(), 2, keep, child, lo, cursor, hi, level);
        },
        _ => {},
    }
}

/// Putting a well-formed box that starts at or after `cursor` into a
/// track that is well formed up to `cursor` leaves it well formed up to
/// the end of that box.
pub proof fn lemma_track_put_wf(m: TrackView, child: NodeView, cursor: int, hi: int)
    requires
        m.wf_upto(cursor),
        child.wf(),
        child.level() == m.level + 1,
        m.header.body_start() <= cursor <= child.header().start,
        child.header().end() <= hi,
    ensures
        m.put(child).wf_upto(hi),
{
    let n = m.put(child);
    let lo = m.header.body_start();
    let level = m.level + 1;
    lemma_placed_wider(m.children(), lo, cursor, hi, level);
    match child {
        NodeView::Inner(leaf) => match AtomName::of(leaf.header.name) {
            AtomName::TrackHeader => {
                let keep: int = 0;
                assert(n.parts()[0] =~= m.parts()[0].take(keep).push(child));
                lemma_part_swap(m.parts(), n.parts(), 0, keep, child, lo, cursor, hi, level);
            },
            _ => {},
        },
        NodeView::EditLists(b) => {
            let keep: int = 0;
            assert(n.parts()[1] =~= m.parts()[1].take(keep).push(child));
            lemma_part_swap(m.parts(), n.parts(), 1, keep, child, lo, cursor, hi, level);
        },
        NodeView::Media(b) => {
            let keep: int = 0;
            assert(n.parts()[2] =~= m.parts()[2].take(keep).push(child));
            lemma_part_swap(m.parts(), n.parts(), 2, keep, child, lo, cursor, hi, level);
        },
        _ => {},
    }
}

/// Putting a well-formed box that starts at or after `cursor` into a
/// movie that is well formed up to `cursor` leaves it well formed up to
/// the end of that box.
pub proof fn lemma_movie_put_wf(m: MovieView, child: NodeView, cursor: int, hi: int)
    requires
        m.wf_upto(cursor),
        child.wf(),
        child.level() == m.level + 1,
        m.header.body_start() <= cursor <= child.header().start,
        child.header().end() <= hi,
    ensures
        m.put(child).wf_upto(hi),
{
    let n = m.put(child);
    let lo = m.header.body_start();
    let level = m.level + 1;
    lemma_placed_wider(m.children(), lo, cursor, hi, level);
    match child {
        NodeView::Inner(leaf) => match AtomName::of(leaf.header.name) {
            AtomName::MovieHeader => {
                let keep: int = 0;
                assert(n.parts()[0] =~= m.parts()[0].take(keep).push(child));
                lemma_part_swap(m.parts(), n.parts(), 0, keep, child, lo, cursor, hi, level);
            },
            AtomName::Userdata => {
                let keep: int = 0;
                assert(n.parts()[2] =~= m.parts()[2].take(keep).push(child));
                lemma_part_swap(m.parts(), n.parts(), 2, keep, child, lo, cursor, hi, level);
            },
            _ => {},
        },
        NodeView::Track(b) => {
            assert(n.track_children() =~= m.track_children().push(child));
            assert(m.track_children().take(m.track_children().len() as int)
                =~= m.track_children());
            let keep: int = m.parts()[1].len() as int;
            assert(n.parts()[1] =~= m.parts()[1].take(keep).push(child));
            lemma_part_swap(m.parts(), n.parts(), 1, keep, child, lo, cursor, hi, level);
        },
        _ => {},
    }
}

/// Putting a well-formed top-level box that starts at or after `cursor`
/// into a root that is well formed up to `cursor` leaves it well formed up
/// to the end of that box.
pub proof fn lemma_root_put_wf(m: Mp4View, child: NodeView, cursor: int, hi: int)
    requires
        m.wf_upto(cursor),
        child.wf(),
        child.level() == 1,
        0 <= cursor <= child.header().start,
        child.header().end() <= hi,
    ensures
        m.put(child).wf_upto(hi),
{
    let n = m.put(child);
    let lo: int = 0;
    let level: int = 1;
    lemma_placed_wider(m.children(), lo, cursor, hi, level);
    match child {
        NodeView::FileType(b) => {
            let keep: int = 0;
            assert(n.parts()[0] =~= m.parts()[0].take(keep).push(child));
            lemma_part_swap(m.parts(), n.parts(), 0, keep, child, lo, cursor, hi, level);
        },
        NodeView::Wide(b) => {
            let keep: int = 0;
            assert(n.parts()[1] =~= m.parts()[1].take(keep).push(child));
            lemma_part_swap(m.parts(), n.parts(), 1, keep, child, lo, cursor, hi, level);
        },
        NodeView::MediaData(b) => {
            let keep: int = 0;
            assert(n.parts()[2] =~= m.parts()[2].take(keep).push(child));
            lemma_part_swap(m.parts(), n.parts(), 2, keep, child, lo, cursor, hi, level);
        },
        NodeView::Movie(b) => {
            let keep: int = 0;
            assert(n.parts()[3] =~= m.parts()[3].take(keep).push(child));
            lemma_part_swap(m.parts(), n.parts(), 3, keep, child, lo, cursor, hi, level);
        },
        NodeView::Free(leaf) => {
            if AtomName::of(leaf.header.name) == AtomName::Skip {
                let keep: int = 0;
                assert(n.parts()[5] =~= m.parts()[5].take(keep).push(child));
                lemma_part_swap(m.parts(), n.parts(), 5, keep, child, lo, cursor, hi, level);
            } else {
                let keep: int = 0;
                assert(n.parts()[4] =~= m.parts()[4].take(keep).push(child));
                lemma_part_swap(m.parts(), n.parts(), 4, keep, child, lo, cursor, hi, level);
            }
        },
        _ => {},
    }
}

/// Putting a well-formed box that starts at or after `cursor` into a box
/// that is well formed up to `cursor` leaves it well formed up to the end
/// of that box.
pub proof fn lemma_put_wf(node: NodeView, child: NodeView, cursor: int, hi: int)
    requires
        node.wf_upto(cursor),
        child.wf(),
        child.level() == node.level() + 1,
        node.header().body_start() <= cursor <= child.header().start,
        child.header().end() <= hi,
    ensures
        node.put(child).wf_upto(hi),
{
    match node {
        NodeView::Movie(b) => lemma_movie_put_wf(b, child, cursor, hi),
        NodeView::Track(b) => lemma_track_put_wf(b, child, cursor, hi),
        NodeView::EditLists(b) => lemma_edit_lists_put_wf(b, child, cursor, hi),
        NodeView::Media(b) => lemma_media_put_wf(b, child, cursor, hi),
        NodeView::MediaInfo(b) => lemma_media_info_put_wf(b, child, cursor, hi),
        NodeView::SampleTable(b) => lemma_sample_table_put_wf(b, child, cursor, hi),
        _ => {},
    }
}

/// Filling a box changes neither its header nor its depth.
pub proof fn lemma_fill_keeps(node: NodeView, found: Seq<NodeView>)
    ensures
        node.fill(found).header() == node.header(),
        node.fill(found).level() == node.level(),
    decreases found.len(),
{
    if found.len() > 0 {
        lemma_fill_keeps(node, found.drop_last());
        lemma_put_keeps(node.fill(found.drop_last()), found.last());
    }
}

/// Filling the root changes neither the length nor the name of the file.
pub proof fn lemma_root_fill_keeps(root: Mp4View, found: Seq<NodeView>)
    ensures
        root.fill(found).size == root.size,
        root.fill(found).file == root.file,
    decreases found.len(),
{
    if found.len() > 0 {
        lemma_root_fill_keeps(root, found.drop_last());
        lemma_root_put_keeps(root.fill(found.drop_last()), found.last());
    }
}

/// All of `boxes` are well formed and at depth `level`.
pub open spec fn sound(boxes: Seq<NodeView>, level: int) -> bool {
    forall|i: int| 0 <= i < boxes.len() ==> (#[trigger] boxes[i]).wf() && boxes[i].level() == level
}

/// All but the last of a sequence of boxes that fills a span fill the span
/// up to the start of the last.
pub proof fn lemma_tiled_front(boxes: Seq<NodeView>, from: int, to: int)
    requires
        tiled(boxes, from, to),
        boxes.len() > 0,
    ensures
        tiled(boxes.drop_last(), from, boxes.last().header().start),
{
    let front = boxes.drop_last();
    if front.len() > 0 {
        assert(front[0] == boxes[0]);
        assert(front.last() == boxes[front.len() - 1]);
        assert(boxes[front.len() - 1].header().end() == boxes[front.len() - 1 + 1].header().start);
        assert forall|i: int| 0 <= i < front.len() - 1 implies (#[trigger] front[i]).header().end()
            == front[i + 1].header().start by {
            assert(front[i] == boxes[i]);
            assert(boxes[i].header().end() == boxes[i + 1].header().start);
        }
    }
}

/// Filling a box that is well formed up to `cursor` with well-formed boxes
/// that fill the span from `cursor` to `to` leaves it well formed up to `to`.
pub proof fn lemma_fill_wf(node: NodeView, found: Seq<NodeView>, cursor: int, to: int)
    requires
        node.wf_upto(cursor),
        node.header().body_start() <= cursor,
        tiled(found, cursor, to),
        sound(found, node.level() + 1),
    ensures
        node.fill(found).wf_upto(to),
        cursor <= to,
    decreases found.len(),
{
    if found.len() > 0 {
        let front = found.drop_last();
        let last = found.last();
        assert(last.wf());
        assert forall|i: int| 0 <= i < front.len() implies (#[trigger] front[i]).wf()
            && front[i].level() == node.level() + 1 by {
            assert(front[i] == found[i]);
        }
        lemma_tiled_front(found, cursor, to);
        lemma_fill_wf(node, front, cursor, last.header().start);
        lemma_fill_keeps(node, front);
        lemma_put_wf(node.fill(front), last, last.header().start, to);
    }
}

/// The same as [`lemma_fill_wf`], for the root of a file.
pub proof fn lemma_root_fill_wf(root: Mp4View, found: Seq<NodeView>, cursor: int, to: int)
    requires
        root.wf_upto(cursor),
        0 <= cursor,
        tiled(found, cursor, to),
        sound(found, 1),
    ensures
        root.fill(found).wf_upto(to),
        cursor <= to,
    decreases found.len(),
{
    if found.len() > 0 {
        let front = found.drop_last();
        let last = found.last();
        assert(last.wf());
        assert forall|i: int| 0 <= i < front.len() implies (#[trigger] front[i]).wf()
            && front[i].level() == 1 by {
            assert(front[i] == found[i]);
        }
        lemma_tiled_front(found, cursor, to);
        lemma_root_fill_wf(root, front, cursor, last.header().start);
        lemma_root_put_wf(root.fill(front), last, last.header().start, to);
    }
}

/// A container fresh from the dispatch table has no children.
pub proof fn lemma_fresh_is_empty(decoder: Decoder, header: HeaderView, level: int)
    requires
        decoder.is_container(),
    ensures
        NodeView::fresh(decoder, header, level).children() == Some(Seq::<NodeView>::empty()),
{
    reveal_with_fuel(join, 12);
    assert(NodeView::fresh(decoder, header, level).children()->0 =~= Seq::<NodeView>::empty());
}

/// The root of a file in which no box was found yet has no children.
pub proof fn lemma_blank_is_empty(file: Seq<char>, size: int)
    ensures
        Mp4View::empty(file, size).children() == Seq::<NodeView>::empty(),
{
    reveal_with_fuel(join, 8);
    assert(Mp4View::empty(file, size).children() =~= Seq::<NodeView>::empty());
}

/// The boxes that the layout finds in a span fill it without gap, and each
/// of them is well formed and at the depth of the span.
pub proof fn lemma_boxes_in_tiled(data: Seq<u8>, cursor: int, end: int, level: int)
    requires
        0 <= cursor <= end,
        boxes_in(data, cursor, end, level) is Ok,
    ensures
        tiled(boxes_in(data, cursor, end, level)->Ok_0, cursor, end),
        sound(boxes_in(data, cursor, end, level)->Ok_0, level),
    decreases end - cursor, 1int,
{
    if cursor < end {
        let header = header_in(data, cursor, end)->Ok_0;
        lemma_header_of_wf(data.subrange(cursor, cursor + 8), cursor);
        let first = box_at(data, header, level)->Ok_0;
        lemma_box_at_wf(data, header, level);
        let rest = boxes_in(data, header.end(), end, level)->Ok_0;
        lemma_boxes_in_tiled(data, header.end(), end, level);
        let found = seq![first] + rest;
        assert(found[0] == first);
        assert forall|i: int| 0 <= i < found.len() implies (#[trigger] found[i]).wf()
            && found[i].level() == level by {
            if i > 0 {
                assert(found[i] == rest[i - 1]);
            }
        }
        if rest.len() > 0 {
            assert(found.last() == rest.last());
            assert(found[1] == rest[0]);
        }
        assert forall|i: int| 0 <= i < found.len() - 1 implies (#[trigger] found[i]).header().end()
            == found[i + 1].header().start by {
            assert(found[i + 1] == rest[i]);
            if i > 0 {
                assert(found[i] == rest[i - 1]);
                assert(rest[i - 1].header().end() == rest[i - 1 + 1].header().start);
            }
        }
    }
}

/// The box that the layout decodes for a well-formed header has that
/// header, is at the depth asked for, and is well formed.
pub proof fn lemma_box_at_wf(data: Seq<u8>, header: HeaderView, level: int)
    requires
        header.wf(),
        box_at(data, header, level) is Ok,
    ensures
        box_at(data, header, level)->Ok_0.header() == header,
        box_at(data, header, level)->Ok_0.level() == level,
        box_at(data, header, level)->Ok_0.wf(),
    decreases header.size, 0int,
{
    let decoder = AtomName::of(header.name).decoder_of();
    lemma_fresh(decoder, header, level);
    if decoder.is_container() {
        let fresh = NodeView::fresh(decoder, header, level);
        let found = boxes_in(data, header.body_start(), header.end(), level + 1)->Ok_0;
        lemma_boxes_in_tiled(data, header.body_start(), header.end(), level + 1);
        lemma_fresh_is_empty(decoder, header, level);
        lemma_fill_wf(fresh, found, header.body_start(), header.end());
        lemma_fill_keeps(fresh, found);
    }
}

/// Boxes that fill a span have sizes that add up to the length of the span.
pub proof fn lemma_tiled_sizes(boxes: Seq<NodeView>, from: int, to: int)
    requires
        tiled(boxes, from, to),
    ensures
        total_size(boxes) == to - from,
    decreases boxes.len(),
{
    if boxes.len() > 0 {
        lemma_tiled_front(boxes, from, to);
        lemma_tiled_sizes(boxes.drop_last(), from, boxes.last().header().start);
    }
}

/// Every tree that the layout of a file describes is well formed: the end
/// of every box is its start plus its size, every child that a container
/// kept lies between the end of the container's header and the container's
/// end, one level below it, and the children of one container are pairwise
/// apart. The same holds of the top-level boxes inside the file.
pub proof fn lemma_parse_file_wf(file: Seq<char>, data: Seq<u8>)
    requires
        parse_file(file, data) is Ok,
    ensures
        parse_file(file, data)->Ok_0.wf(),
        parse_file(file, data)->Ok_0.size == data.len(),
        parse_file(file, data)->Ok_0.file == file,
{
    let size = data.len() as int;
    let found = boxes_in(data, 0, size, 1)->Ok_0;
    let blank = Mp4View::empty(file, size);
    lemma_boxes_in_tiled(data, 0, size, 1);
    lemma_blank_is_empty(file, size);
    lemma_root_fill_wf(blank, found, 0, size);
    lemma_root_fill_keeps(blank, found);
}

/// Where the layout decodes a container, the declared sizes of all the
/// boxes in its body, kept or not, and the eight bytes of its own header
/// add up to its own declared size.
pub proof fn lemma_container_sizes(data: Seq<u8>, header: HeaderView, level: int)
    requires
        header.wf(),
        AtomName::of(header.name).decoder_of().is_container(),
        box_at(data, header, level) is Ok,
    ensures
        boxes_in(data, header.body_start(), header.end(), level + 1) is Ok,
        8 + total_size(boxes_in(data, header.body_start(), header.end(), level + 1)->Ok_0)
            == header.size,
{
    lemma_boxes_in_tiled(data, header.body_start(), header.end(), level + 1);
    lemma_tiled_sizes(
        boxes_in(data, header.body_start(), header.end(), level + 1)->Ok_0,
        header.body_start(),
        header.end(),
    );
}

/// Where a decoded container kept every box of its body, the declared
/// sizes of its children and the eight bytes of its own header add up to
/// its own declared size.
pub proof fn lemma_kept_sizes(data: Seq<u8>, header: HeaderView, level: int)
    requires
        header.wf(),
        AtomName::of(header.name).decoder_of().is_container(),
        box_at(data, header, level) is Ok,
        box_at(data, header, level)->Ok_0.children() == Some(
            boxes_in(data, header.body_start(), header.end(), level + 1)->Ok_0,
        ),
    ensures
        8 + total_size(box_at(data, header, level)->Ok_0.children()->0) == header.size,
{
    lemma_container_sizes(data, header, level);
}

/// The declared sizes of all the top-level boxes of a file that decodes
/// add up to the length of the file.
pub proof fn lemma_file_sizes(file: Seq<char>, data: Seq<u8>)
    requires
        parse_file(file, data) is Ok,
    ensures
        boxes_in(data, 0, data.len() as int, 1) is Ok,
        total_size(boxes_in(data, 0, data.len() as int, 1)->Ok_0) == data.len(),
{
    lemma_boxes_in_tiled(data, 0, data.len() as int, 1);
    lemma_tiled_sizes(boxes_in(data, 0, data.len() as int, 1)->Ok_0, 0, data.len() as int);
}

/// Putting a child into a sample table changes the slot that takes it in, and
/// nothing else.
pub proof fn lemma_sample_table_put_slot(m: SampleTableView, child: NodeView)
    ensures
        match SampleTableView::slot_of(child) {
            Some(k) => taken_in(m.parts(), m.put(child).parts(), k, child, false),
            None => m.put(child) == m,
        },
{
    let n = m.put(child);
    match child {
        NodeView::Inner(leaf) => match AtomName::of(leaf.header.name) {
            AtomName::SampleDesc => {
                assert(n.parts()[0] =~= seq![child]);
            },
            AtomName::TimeToSample => {
                assert(n.parts()[1] =~= seq![child]);
            },
            AtomName::CompositionOffset => {
                assert(n.parts()[2] =~= seq![child]);
            },
            AtomName::SampleToChunk => {
                assert(n.parts()[3] =~= seq![child]);
            },
            AtomName::SampleSize => {
                assert(n.parts()[4] =~= seq![child]);
            },
            AtomName::SyncSample => {
                assert(n.parts()[6] =~= seq![child]);
            },
            AtomName::SampleDependency => {
                assert(n.parts()[7] =~= seq![child]);
            },
            AtomName::SampleGroupDesc => {
                assert(n.parts()[8] =~= seq![child]);
            },
            AtomName::SampleToGroup => {
                assert(n.parts()[9] =~= seq![child]);
            },
            _ => {},
        },
        NodeView::ChunkOffset(b) => {
            assert(n.parts()[5] =~= seq![child]);
        },
        _ => {},
    }
}

/// Putting a child into a edit lists box changes the slot that takes it in, and
/// nothing else.
pub proof fn lemma_edit_lists_put_slot(m: EditListsView, child: NodeView)
    ensures
        match EditListsView::slot_of(child) {
            Some(k) => taken_in(m.parts(), m.put(child).parts(), k, child, false),
            None => m.put(child) == m,
        },
{
    let n = m.put(child);
    match child {
        NodeView::Inner(leaf) => match AtomName::of(leaf.header.name) {
            AtomName::EditList => {
                assert(n.parts()[0] =~= seq![child]);
            },
            _ => {},
        },
        _ => {},
    }
}

/// Putting a child into a media information box changes the slot that takes it in, and
/// nothing else.
pub proof fn lemma_media_info_put_slot(m: MediaInfoView, child: NodeView)
    ensures
        match MediaInfoView::slot_of(child) {
            Some(k) => taken_in(m.parts(), m.put(child).parts(), k, child, false),
            None => m.put(child) == m,
        },
{
    let n = m.put(child);
    match child {
        NodeView::Inner(leaf) => match AtomName::of(leaf.header.name) {
            AtomName::VideoMediaHeader => {
                assert(n.parts()[0] =~= seq![child]);
            },
            AtomName::DataInfo => {
                assert(n.parts()[1] =~= seq![child]);
            },
            _ => {},
        },
        NodeView::SampleTable(b) => {
            assert(n.parts()[2] =~= seq![child]);
        },
        _ => {},
    }
}

/// Putting a child into a media box changes the slot that takes it in, and
/// nothing else.
pub proof fn lemma_media_put_slot(m: MediaView, child: NodeView)
    ensures
        match MediaView::slot_of(child) {
            Some(k) => taken_in(m.parts(), m.put(child).parts(), k, child, false),
            None => m.put(child) == m,
        },
{
    let n = m.put(child);
    match child {
        NodeView::Inner(leaf) => match AtomName::of(leaf.header.name) {
            AtomName::MediaHeader => {
                assert(n.parts()[0] =~= seq![child]);
            },
            AtomName::MediaHandler => {
                assert(n.parts()[1] =~= seq![child]);
            },
            _ => {},
        },
        NodeView::MediaInfo(b) => {
            assert(n.parts()[2] =~= seq![child]);
        },
        _ => {},
    }
}

/// Putting a child into a track changes the slot that takes it in, and
/// nothing else.
pub proof fn lemma_track_put_slot(m: TrackView, child: NodeView)
    ensures
        match TrackView::slot_of(child) {
            Some(k) => taken_in(m.parts(), m.put(child).parts(), k, child, false),
            None => m.put(child) == m,
        },
{
    let n = m.put(child);
    match child {
        NodeView::Inner(leaf) => match AtomName::of(leaf.header.name) {
            AtomName::TrackHeader => {
                assert(n.parts()[0] =~= seq![child]);
            },
            _ => {},
        },
        NodeView::EditLists(b) => {
            assert(n.parts()[1] =~= seq![child]);
        },
        NodeView::Media(b) => {
            assert(n.parts()[2] =~= seq![child]);
        },
        _ => {},
    }
}

/// Putting a child into a movie changes the slot that takes it in, and
/// nothing else.
pub proof fn lemma_movie_put_slot(m: MovieView, child: NodeView)
    ensures
        match MovieView::slot_of(child) {
            Some(k) => taken_in(m.parts(), m.put(child).parts(), k, child, k == 1),
            None => m.put(child) == m,
        },
{
    let n = m.put(child);
    match child {
        NodeView::Inner(leaf) => match AtomName::of(leaf.header.name) {
            AtomName::MovieHeader => {
                assert(n.parts()[0] =~= seq![child]);
            },
            AtomName::Userdata => {
                assert(n.parts()[2] =~= seq![child]);
            },
            _ => {},
        },
        NodeView::Track(b) => {
            assert(n.track_children() =~= m.track_children().push(child));
            assert(n.parts()[1] =~= m.parts()[1].push(child));
        },
        _ => {},
    }
}

/// Putting a child into the root changes the slot that takes it in, and
/// nothing else.
pub proof fn lemma_root_put_slot(m: Mp4View, child: NodeView)
    ensures
        match Mp4View::slot_of(child) {
            Some(k) => taken_in(m.parts(), m.put(child).parts(), k, child, false),
            None => m.put(child) == m,
        },
{
    let n = m.put(child);
    match child {
        NodeView::FileType(b) => {
            assert(n.parts()[0] =~= seq![child]);
        },
        NodeView::Wide(b) => {
            assert(n.parts()[1] =~= seq![child]);
        },
        NodeView::MediaData(b) => {
            assert(n.parts()[2] =~= seq![child]);
        },
        NodeView::Movie(b) => {
            assert(n.parts()[3] =~= seq![child]);
        },
        NodeView::Free(leaf) => {
            if AtomName::of(leaf.header.name) == AtomName::Skip {
                assert(n.parts()[5] =~= seq![child]);
            } else {
                assert(n.parts()[4] =~= seq![child]);
            }
        },
        _ => {},
    }
}

/// `new` is `old` after part `k` took `child` in: at the end of that part
/// where it is a list, in its place otherwise.
pub open spec fn taken_in(
    old: Seq<Seq<NodeView>>,
    new: Seq<Seq<NodeView>>,
    k: int,
    child: NodeView,
    list: bool,
) -> bool {
    &&& 0 <= k < old.len()
    &&& new.len() == old.len()
    &&& forall|i: int| 0 <= i < old.len() && i != k ==> new[i] == old[i]
    &&& new[k] == if list {
        old[k].push(child)
    } else {
        seq![child]
    }
}

/// Putting a child into a box changes the slot that takes it in, and
/// nothing else; a child that the box does not name changes nothing.
pub proof fn lemma_put_slot(node: NodeView, child: NodeView)
    ensures
        match node.slot_of(child) {
            Some(k) => taken_in(node.parts(), node.put(child).parts(), k, child, node.repeats(k)),
            None => node.put(child) == node,
        },
{
    match node {
        NodeView::Movie(b) => lemma_movie_put_slot(b, child),
        NodeView::Track(b) => lemma_track_put_slot(b, child),
        NodeView::EditLists(b) => lemma_edit_lists_put_slot(b, child),
        NodeView::Media(b) => lemma_media_put_slot(b, child),
        NodeView::MediaInfo(b) => lemma_media_info_put_slot(b, child),
        NodeView::SampleTable(b) => lemma_sample_table_put_slot(b, child),
        _ => {},
    }
}

/// Filling a box changes neither which slot takes a child in nor which
/// slots are lists.
pub proof fn lemma_fill_keeps_slots(node: NodeView, found: Seq<NodeView>, child: NodeView, k: int)
    ensures
        node.fill(found).slot_of(child) == node.slot_of(child),
        node.fill(found).repeats(k) == node.repeats(k),
    decreases found.len(),
{
    if found.len() > 0 {
        lemma_fill_keeps_slots(node, found.drop_last(), child, k);
    }
}

/// The sizes of a sequence of boxes with one more box at its end.
pub proof fn lemma_total_push(boxes: Seq<NodeView>, last: NodeView)
    ensures
        total_size(boxes.push(last)) == total_size(boxes) + last.header().size,
{
    assert(boxes.push(last).drop_last() =~= boxes);
}

/// The sizes of two sequences of boxes add up to the sizes of both joined.
pub proof fn lemma_total_concat(a: Seq<NodeView>, b: Seq<NodeView>)
    ensures
        total_size(a + b) == total_size(a) + total_size(b),
    decreases b.len(),
{
    if b.len() == 0 {
        assert(a + b =~= a);
    } else {
        lemma_total_concat(a, b.drop_last());
        assert((a + b).drop_last() =~= a + b.drop_last());
        assert((a + b).last() == b.last());
    }
}

/// Boxes joined from parts that are all empty have no size at all.
pub proof fn lemma_total_unfilled(parts: Seq<Seq<NodeView>>)
    requires
        forall|s: int| 0 <= s < parts.len() ==> (#[trigger] parts[s]).len() == 0,
    ensures
        total_size(join(parts)) == 0,
    decreases parts.len(),
{
    if parts.len() > 0 {
        let front = parts.drop_last();
        assert forall|s: int| 0 <= s < front.len() implies (#[trigger] front[s]).len() == 0 by {
            assert(front[s] == parts[s]);
        }
        lemma_total_unfilled(front);
        assert(parts.last() == parts[parts.len() - 1]);
        assert(join(parts) =~= join(front));
    }
}

/// Taking a child in adds its size to the sizes of the boxes kept, where it
/// joins a list or goes to an empty slot.
pub proof fn lemma_total_taken_in(
    old: Seq<Seq<NodeView>>,
    new: Seq<Seq<NodeView>>,
    k: int,
    child: NodeView,
    list: bool,
)
    requires
        taken_in(old, new, k, child, list),
        list || old[k].len() == 0,
    ensures
        total_size(join(new)) == total_size(join(old)) + child.header().size,
{
    lemma_join_split(old, k);
    lemma_join_split(new, k);
    assert(new.take(k) =~= old.take(k));
    assert(new.skip(k + 1) =~= old.skip(k + 1));
    lemma_total_concat(join(old.take(k)), old[k]);
    lemma_total_concat(join(old.take(k)) + old[k], join(old.skip(k + 1)));
    lemma_total_concat(join(new.take(k)), new[k]);
    lemma_total_concat(join(new.take(k)) + new[k], join(new.skip(k + 1)));
    if list {
        lemma_total_push(old[k], child);
    } else {
        assert(old[k] =~= Seq::<NodeView>::empty());
        lemma_total_push(Seq::<NodeView>::empty(), child);
        assert(seq![child] =~= Seq::<NodeView>::empty().push(child));
    }
}

/// Every box of `found` is one that `node` names, and no two of them go to
/// the same slot of `node`, unless that slot is a list: `node` keeps each
/// box it finds, and none of them gives way to a later one.
pub open spec fn conformant(node: NodeView, found: Seq<NodeView>) -> bool {
    &&& forall|i: int| 0 <= i < found.len() ==> node.slot_of(#[trigger] found[i]) is Some
    &&& forall|i: int, j: int|
        0 <= i < j < found.len() && node.slot_of(#[trigger] found[i]) == node.slot_of(
            #[trigger] found[j],
        ) ==> node.repeats(node.slot_of(found[i])->0)
}

/// One of the boxes of `found` goes to slot `slot` of `node`.
pub open spec fn filled_by(node: NodeView, found: Seq<NodeView>, slot: int) -> bool {
    exists|i: int| 0 <= i < found.len() && node.slot_of(#[trigger] found[i]) == Some(slot)
}

/// A box without children, filled with boxes that it names once each:
/// the sizes of the children it then has are the sizes of those boxes, in
/// whatever order they came.
pub proof fn lemma_fill_conformant(node: NodeView, found: Seq<NodeView>)
    requires
        conformant(node, found),
        forall|s: int| 0 <= s < node.parts().len() ==> (#[trigger] node.parts()[s]).len() == 0,
    ensures
        node.fill(found).parts().len() == node.parts().len(),
        total_size(join(node.fill(found).parts())) == total_size(found),
        forall|s: int|
            0 <= s < node.parts().len() && (#[trigger] node.fill(found).parts()[s]).len() > 0
                ==> filled_by(node, found, s),
    decreases found.len(),
{
    if found.len() == 0 {
        lemma_total_unfilled(node.parts());
    } else {
        let front = found.drop_last();
        let last = found.last();
        let mid = node.fill(front);
        let full = node.fill(found);
        assert forall|i: int| 0 <= i < front.len() implies node.slot_of(
            #[trigger] front[i],
        ) is Some by {
            assert(front[i] == found[i]);
        }
        assert forall|i: int, j: int|
            0 <= i < j < front.len() && node.slot_of(#[trigger] front[i]) == node.slot_of(
                #[trigger] front[j],
            ) implies node.repeats(node.slot_of(front[i])->0) by {
            assert(front[i] == found[i]);
            assert(front[j] == found[j]);
        }
        lemma_fill_conformant(node, front);
        assert(last == found[found.len() - 1]);
        let k = node.slot_of(last)->0;
        lemma_fill_keeps_slots(node, front, last, k);
        lemma_put_slot(mid, last);
        if !node.repeats(k) && mid.parts()[k].len() > 0 {
            let i = choose|i: int|
                0 <= i < front.len() && node.slot_of(#[trigger] front[i]) == Some(k);
            assert(front[i] == found[i]);
            assert(false);
        }
        lemma_total_taken_in(mid.parts(), full.parts(), k, last, node.repeats(k));
        assert forall|s: int|
            0 <= s < node.parts().len() && (#[trigger] full.parts()[s]).len() > 0 implies filled_by(
            node,
            found,
            s,
        ) by {
            if s == k {
                assert(node.slot_of(found[found.len() - 1]) == Some(s));
            } else {
                assert(full.parts()[s] == mid.parts()[s]);
                let i = choose|i: int|
                    0 <= i < front.len() && node.slot_of(#[trigger] front[i]) == Some(s);
                assert(front[i] == found[i]);
                assert(node.slot_of(found[i]) == Some(s));
            }
        }
    }
}

/// Every box of `found` is one that the root of a file names, and no two of
/// them go to the same slot.
pub open spec fn root_conformant(found: Seq<NodeView>) -> bool {
    &&& forall|i: int| 0 <= i < found.len() ==> Mp4View::slot_of(#[trigger] found[i]) is Some
    &&& forall|i: int, j: int|
        0 <= i < j < found.len() ==> Mp4View::slot_of(#[trigger] found[i]) != Mp4View::slot_of(
            #[trigger] found[j],
        )
}

/// One of the boxes of `found` goes to slot `slot` of the root.
pub open spec fn root_filled_by(found: Seq<NodeView>, slot: int) -> bool {
    exists|i: int| 0 <= i < found.len() && Mp4View::slot_of(#[trigger] found[i]) == Some(slot)
}

/// The same as [`lemma_fill_conformant`], for the root of a file.
pub proof fn lemma_root_fill_conformant(root: Mp4View, found: Seq<NodeView>)
    requires
        root_conformant(found),
        forall|s: int| 0 <= s < root.parts().len() ==> (#[trigger] root.parts()[s]).len() == 0,
    ensures
        root.fill(found).parts().len() == root.parts().len(),
        total_size(root.fill(found).children()) == total_size(found),
        forall|s: int|
            0 <= s < root.parts().len() && (#[trigger] root.fill(found).parts()[s]).len() > 0
                ==> root_filled_by(found, s),
    decreases found.len(),
{
    if found.len() == 0 {
        lemma_total_unfilled(root.parts());
    } else {
        let front = found.drop_last();
        let last = found.last();
        let mid = root.fill(front);
        let full = root.fill(found);
        assert forall|i: int| 0 <= i < front.len() implies Mp4View::slot_of(
            #[trigger] front[i],
        ) is Some by {
            assert(front[i] == found[i]);
        }
        assert forall|i: int, j: int| 0 <= i < j < front.len() implies Mp4View::slot_of(
            #[trigger] front[i],
        ) != Mp4View::slot_of(#[trigger] front[j]) by {
            assert(front[i] == found[i]);
            assert(front[j] == found[j]);
        }
        lemma_root_fill_conformant(root, front);
        assert(last == found[found.len() - 1]);
        let k = Mp4View::slot_of(last)->0;
        lemma_root_put_slot(mid, last);
        if mid.parts()[k].len() > 0 {
            let i = choose|i: int|
                0 <= i < front.len() && Mp4View::slot_of(#[trigger] front[i]) == Some(k);
            assert(front[i] == found[i]);
            assert(false);
        }
        lemma_total_taken_in(mid.parts(), full.parts(), k, last, false);
        assert forall|s: int|
            0 <= s < root.parts().len() && (#[trigger] full.parts()[s]).len()
                > 0 implies root_filled_by(found, s) by {
            if s == k {
                assert(Mp4View::slot_of(found[found.len() - 1]) == Some(s));
            } else {
                assert(full.parts()[s] == mid.parts()[s]);
                let i = choose|i: int|
                    0 <= i < front.len() && Mp4View::slot_of(#[trigger] front[i]) == Some(s);
                assert(front[i] == found[i]);
                assert(Mp4View::slot_of(found[i]) == Some(s));
            }
        }
    }
}

/// A container fresh from the dispatch table has nothing in any slot.
pub proof fn lemma_fresh_unfilled(decoder: Decoder, header: HeaderView, level: int)
    ensures
        forall|s: int|
            0 <= s < NodeView::fresh(decoder, header, level).parts().len() ==> (
            #[trigger] NodeView::fresh(decoder, header, level).parts()[s]).len() == 0,
{
}

/// Where a decoded container names every box of its body, and none of
/// them twice unless it keeps a list of them, the declared sizes of the
/// children it kept and the eight bytes of its own header add up to its
/// own declared size, whatever the order of the boxes in the file.
pub proof fn lemma_conformant_sizes(data: Seq<u8>, header: HeaderView, level: int)
    requires
        header.wf(),
        AtomName::of(header.name).decoder_of().is_container(),
        box_at(data, header, level) is Ok,
        conformant(
            NodeView::fresh(AtomName::of(header.name).decoder_of(), header, level),
            boxes_in(data, header.body_start(), header.end(), level + 1)->Ok_0,
        ),
    ensures
        box_at(data, header, level)->Ok_0.children() is Some,
        8 + total_size(box_at(data, header, level)->Ok_0.children()->0) == header.size,
{
    let decoder = AtomName::of(header.name).decoder_of();
    let fresh = NodeView::fresh(decoder, header, level);
    let found = boxes_in(data, header.body_start(), header.end(), level + 1)->Ok_0;
    lemma_container_sizes(data, header, level);
    lemma_fresh_unfilled(decoder, header, level);
    lemma_fill_conformant(fresh, found);
    lemma_fresh(decoder, header, level);
    lemma_fill_keeps_kind(fresh, found);
}

/// Where the root names every top-level box of a file that decodes, and
/// none of them twice, the declared sizes of the boxes it kept add up to
/// the length of the file, whatever their order in the file.
pub proof fn lemma_conformant_file_sizes(file: Seq<char>, data: Seq<u8>)
    requires
        parse_file(file, data) is Ok,
        root_conformant(boxes_in(data, 0, data.len() as int, 1)->Ok_0),
    ensures
        total_size(parse_file(file, data)->Ok_0.children()) == data.len(),
{
    let found = boxes_in(data, 0, data.len() as int, 1)->Ok_0;
    lemma_file_sizes(file, data);
    lemma_root_fill_conformant(Mp4View::empty(file, data.len() as int), found);
}

/// Filling a container leaves it a container, whose children are its
/// parts joined.
pub proof fn lemma_fill_keeps_kind(node: NodeView, found: Seq<NodeView>)
    requires
        node.is_container(),
    ensures
        node.fill(found).is_container(),
        node.fill(found).children() == Some(join(node.fill(found).parts())),
    decreases found.len(),
{
    if found.len() > 0 {
        lemma_fill_keeps_kind(node, found.drop_last());
        lemma_put_keeps(node.fill(found.drop_last()), found.last());
    }
}

/// The box `node` is what the layout decodes, at depth `level`, for the
/// header that it carries.
pub open spec fn decoded(data: Seq<u8>, node: NodeView, level: int) -> bool {
    &&& node.header().wf()
    &&& box_at(data, node.header(), level) == Ok::<_, ErrorView>(node)
}

/// Every box in every part of `parts` is what the layout decodes for its
/// header.
pub open spec fn all_decoded(data: Seq<u8>, parts: Seq<Seq<NodeView>>, level: int) -> bool {
    forall|s: int, t: int|
        0 <= s < parts.len() && 0 <= t < parts[s].len() ==> decoded(
            data,
            #[trigger] parts[s][t],
            level,
        )
}

/// Every box that the layout finds in a span is what it decodes for the
/// header of that box.
pub proof fn lemma_boxes_in_decoded(data: Seq<u8>, cursor: int, end: int, level: int)
    requires
        0 <= cursor <= end,
        boxes_in(data, cursor, end, level) is Ok,
    ensures
        forall|i: int|
            0 <= i < boxes_in(data, cursor, end, level)->Ok_0.len() ==> decoded(
                data,
                #[trigger] boxes_in(data, cursor, end, level)->Ok_0[i],
                level,
            ),
    decreases end - cursor,
{
    if cursor < end {
        let header = header_in(data, cursor, end)->Ok_0;
        lemma_header_of_wf(data.subrange(cursor, cursor + 8), cursor);
        let first = box_at(data, header, level)->Ok_0;
        lemma_box_at_wf(data, header, level);
        let rest = boxes_in(data, header.end(), end, level)->Ok_0;
        lemma_boxes_in_decoded(data, header.end(), end, level);
        let found = seq![first] + rest;
        assert forall|i: int| 0 <= i < found.len() implies decoded(
            data,
            #[trigger] found[i],
            level,
        ) by {
            if i > 0 {
                assert(found[i] == rest[i - 1]);
            }
        }
    }
}

/// Taking in a box that the layout decoded leaves every box kept one that
/// the layout decoded.
pub proof fn lemma_taken_in_decoded(
    data: Seq<u8>,
    old: Seq<Seq<NodeView>>,
    new: Seq<Seq<NodeView>>,
    k: int,
    child: NodeView,
    list: bool,
    level: int,
)
    requires
        taken_in(old, new, k, child, list),
        all_decoded(data, old, level),
        decoded(data, child, level),
    ensures
        all_decoded(data, new, level),
{
    assert forall|s: int, t: int| 0 <= s < new.len() && 0 <= t < new[s].len() implies decoded(
        data,
        #[trigger] new[s][t],
        level,
    ) by {
        if s != k {
            assert(new[s] == old[s]);
            assert(decoded(data, old[s][t], level));
        } else if list && t < old[k].len() {
            assert(new[k][t] == old[k][t]);
            assert(decoded(data, old[k][t], level));
        }
    }
}

/// Filling a box with boxes that the layout decoded leaves every child
/// that it keeps one that the layout decoded.
pub proof fn lemma_fill_decoded(data: Seq<u8>, node: NodeView, found: Seq<NodeView>, level: int)
    requires
        all_decoded(data, node.parts(), level),
        forall|i: int| 0 <= i < found.len() ==> decoded(data, #[trigger] found[i], level),
    ensures
        all_decoded(data, node.fill(found).parts(), level),
    decreases found.len(),
{
    if found.len() > 0 {
        let front = found.drop_last();
        let mid = node.fill(front);
        assert forall|i: int| 0 <= i < front.len() implies decoded(
            data,
            #[trigger] front[i],
            level,
        ) by {
            assert(front[i] == found[i]);
        }
        lemma_fill_decoded(data, node, front, level);
        assert(found.last() == found[found.len() - 1]);
        lemma_put_slot(mid, found.last());
        match mid.slot_of(found.last()) {
            Some(k) => lemma_taken_in_decoded(
                data,
                mid.parts(),
                node.fill(found).parts(),
                k,
                found.last(),
                mid.repeats(k),
                level,
            ),
            None => {},
        }
    }
}

/// The same as [`lemma_fill_decoded`], for the root of a file.
pub proof fn lemma_root_fill_decoded(data: Seq<u8>, root: Mp4View, found: Seq<NodeView>)
    requires
        all_decoded(data, root.parts(), 1),
        forall|i: int| 0 <= i < found.len() ==> decoded(data, #[trigger] found[i], 1),
    ensures
        all_decoded(data, root.fill(found).parts(), 1),
    decreases found.len(),
{
    if found.len() > 0 {
        let front = found.drop_last();
        let mid = root.fill(front);
        assert forall|i: int| 0 <= i < front.len() implies decoded(data, #[trigger] front[i], 1) by {
            assert(front[i] == found[i]);
        }
        lemma_root_fill_decoded(data, root, front);
        assert(found.last() == found[found.len() - 1]);
        lemma_root_put_slot(mid, found.last());
        match Mp4View::slot_of(found.last()) {
            Some(k) => lemma_taken_in_decoded(
                data,
                mid.parts(),
                root.fill(found).parts(),
                k,
                found.last(),
                false,
                1,
            ),
            None => {},
        }
    }
}

/// Every child that a decoded container kept is itself what the layout
/// decodes for the header of that child, one level deeper: what holds of
/// the boxes that the layout decodes holds of every box in the tree.
pub proof fn lemma_kept_is_decoded(data: Seq<u8>, header: HeaderView, level: int)
    requires
        header.wf(),
        box_at(data, header, level) is Ok,
    ensures
        all_decoded(data, box_at(data, header, level)->Ok_0.parts(), level + 1),
{
    let decoder = AtomName::of(header.name).decoder_of();
    let fresh = NodeView::fresh(decoder, header, level);
    if decoder.is_container() {
        let found = boxes_in(data, header.body_start(), header.end(), level + 1)->Ok_0;
        lemma_boxes_in_decoded(data, header.body_start(), header.end(), level + 1);
        lemma_fresh_unfilled(decoder, header, level);
        lemma_fill_decoded(data, fresh, found, level + 1);
    }
}

/// Every top-level box that the root of a decoded file kept is what the
/// layout decodes for the header of that box, at depth 1.
pub proof fn lemma_top_is_decoded(file: Seq<char>, data: Seq<u8>)
    requires
        parse_file(file, data) is Ok,
    ensures
        all_decoded(data, parse_file(file, data)->Ok_0.parts(), 1),
{
    let found = boxes_in(data, 0, data.len() as int, 1)->Ok_0;
    lemma_boxes_in_decoded(data, 0, data.len() as int, 1);
    lemma_root_fill_decoded(data, Mp4View::empty(file, data.len() as int), found);
}

} // verus!
