//! Why the state machine decodes what the layout describes.
//!
//! [`ParserView::follows`] relates a parser to the bytes of a file: the
//! parser is where decoding that file gets to. A fresh parser follows every
//! file of its size, feeding a parser the bytes it asked for keeps it
//! following, and once it asks for nothing its outcome is
//! [`parse_file`](crate::layout::parse_file) of the file.

use crate::atom_name::{AtomName, Decoder};
use crate::boxes::stco::chunk_table_of;
use crate::error::{unexpected_end, ErrorView};
use crate::header::{header_of, lemma_header_of_wf, HeaderView};
use crate::layout::{
    box_at, boxes_in, header_in, lemma_fill_first, lemma_root_fill_first, parse_file, then,
    MAX_DEPTH,
};
use crate::model::{lemma_fresh, lemma_put_keeps, lemma_root_put_keeps, Mp4View, NodeView};
use crate::parser::{
    frame_ok, lemma_delivered_wf, lemma_popped_wf, lemma_pushed_wf, lemma_settled_wf, FrameView,
    ParserView, PendingView,
};
use vstd::prelude::*;

verus! {

/// The root once the rest of the top-level boxes, `rest`, is put into it.
pub open spec fn finish_of(root: Mp4View, rest: Result<Seq<NodeView>, ErrorView>) -> Result<
    Mp4View,
    ErrorView,
> {
    match rest {
        Ok(found) => Ok(root.fill(found)),
        Err(e) => Err(e),
    }
}

/// What is still to come at the top level of the file, given that the
/// innermost of the open containers `frames` still finds `rest` in its
/// body: each container, once complete, is followed by the boxes between
/// its end and the end of the container around it.
pub open spec fn unwind(
    frames: Seq<FrameView>,
    size: int,
    data: Seq<u8>,
    rest: Result<Seq<NodeView>, ErrorView>,
) -> Result<Seq<NodeView>, ErrorView>
    decreases frames.len(),
{
    if frames.len() == 0 {
        rest
    } else {
        let top = frames.last();
        let below = frames.drop_last();
        let outer_end = if below.len() == 0 {
            size
        } else {
            below.last().node.header().end()
        };
        match rest {
            Err(e) => Err(e),
            Ok(found) => unwind(
                below,
                size,
                data,
                then(
                    top.node.fill(found),
                    boxes_in(data, top.node.header().end(), outer_end, frames.len() as int),
                ),
            ),
        }
    }
}

impl ParserView {
    /// What the parser has decoded, completed by what the layout says about
    /// the bytes from the cursor on, is the tree of the whole file.
    pub open spec fn on_track(self, data: Seq<u8>) -> bool {
        parse_file(self.root.file, data) == finish_of(
            self.root,
            unwind(
                self.frames,
                self.root.size,
                data,
                boxes_in(data, self.top_cursor(), self.top_end(), self.child_level()),
            ),
        )
    }

    /// The parser is where decoding the file with bytes `data` gets to.
    pub open spec fn follows(self, data: Seq<u8>) -> bool {
        &&& self.wf()
        &&& data.len() == self.root.size
        &&& match self.pending {
            PendingView::Header => self.on_track(data),
            PendingView::Table { header, wide } => {
                &&& self.on_track(data)
                &&& header_in(data, self.top_cursor(), self.top_end()) == Ok::<_, ErrorView>(
                    header,
                )
                &&& AtomName::of(header.name).decoder_of() == (Decoder::ChunkOffsets { wide })
            },
            PendingView::Done => parse_file(self.root.file, data) == Ok::<_, ErrorView>(
                self.root,
            ),
            PendingView::Failed(e) => parse_file(self.root.file, data) == Err::<Mp4View, _>(e),
        }
    }

    /// How far the parser is from the end of the file: it shrinks with
    /// every read.
    pub open spec fn remaining(self) -> int {
        match self.request() {
            Some(q) => self.root.size - q.offset + 1,
            None => 0,
        }
    }
}

/// An error in the innermost open container is the error of the file.
pub proof fn lemma_unwind_error(frames: Seq<FrameView>, size: int, data: Seq<u8>, e: ErrorView)
    ensures
        unwind(frames, size, data, Err(e)) == Err::<Seq<NodeView>, _>(e),
{
}

/// Delivering the box `child` takes it off the front of what is still to
/// come.
pub proof fn lemma_unwind_delivered(
    s: ParserView,
    child: NodeView,
    data: Seq<u8>,
    rest: Result<Seq<NodeView>, ErrorView>,
)
    ensures
        finish_of(s.root, unwind(s.frames, s.root.size, data, then(child, rest))) == finish_of(
            s.delivered(child).root,
            unwind(s.delivered(child).frames, s.delivered(child).root.size, data, rest),
        ),
{
    let d = s.delivered(child);
    lemma_root_put_keeps(s.root, child);
    match rest {
        Err(e) => {
            lemma_unwind_error(s.frames, s.root.size, data, e);
            lemma_unwind_error(d.frames, d.root.size, data, e);
        },
        Ok(found) => {
            if s.frames.len() == 0 {
                lemma_root_fill_first(s.root, child, found);
            } else {
                let top = s.frames.last();
                lemma_put_keeps(top.node, child);
                lemma_fill_first(top.node, child, found);
                assert(d.frames.drop_last() =~= s.frames.drop_last());
            }
        },
    }
}

/// The end of the innermost open container lies inside the file.
pub proof fn lemma_top_end_in_file(s: ParserView)
    requires
        s.frames_wf(),
    ensures
        s.top_end() <= s.root.size,
        s.top_cursor() <= s.top_end(),
        0 <= s.top_cursor(),
{
    if s.frames.len() > 0 {
        lemma_frame_in_file(s, s.frames.len() - 1);
    }
}

/// Every open container ends inside the file.
pub proof fn lemma_frame_in_file(s: ParserView, i: int)
    requires
        s.frames_wf(),
        0 <= i < s.frames.len(),
    ensures
        s.frames[i].node.header().end() <= s.root.size,
        0 <= s.frames[i].node.header().start,
        s.frames[i].node.header().body_start() <= s.frames[i].cursor
            <= s.frames[i].node.header().end(),
    decreases i,
{
    assert(frame_ok(s.frames, s.cursor, s.root.size, i));
    if i > 0 {
        lemma_frame_in_file(s, i - 1);
    }
}

/// Settling a parser that is on track leaves it following the file.
pub proof fn lemma_settled_follows(s: ParserView, data: Seq<u8>)
    requires
        s.frames_wf(),
        data.len() == s.root.size,
        s.on_track(data),
    ensures
        s.settled().follows(data),
        s.settled().remaining() <= s.root.size - s.top_cursor() + 1,
        s.settled().root.file == s.root.file,
    decreases s.frames.len(),
{
    lemma_settled_wf(s);
    lemma_top_end_in_file(s);
    let rest = boxes_in(data, s.top_cursor(), s.top_end(), s.child_level());
    if s.top_cursor() >= s.top_end() {
        assert(rest == Ok::<_, ErrorView>(Seq::<NodeView>::empty()));
        if s.frames.len() == 0 {
            assert(s.root.fill(Seq::<NodeView>::empty()) == s.root);
        } else {
            let closed = s.frames.last().node;
            let popped = s.popped();
            let after = boxes_in(
                data,
                closed.header().end(),
                popped.top_end(),
                s.frames.len() as int,
            );
            assert(closed.fill(Seq::<NodeView>::empty()) == closed);
            assert(unwind(s.frames, s.root.size, data, rest) == unwind(
                popped.frames,
                s.root.size,
                data,
                then(closed, after),
            ));
            lemma_unwind_delivered(popped, closed, data, after);
            lemma_popped_wf(s);
            lemma_delivered_wf(popped, closed);
            lemma_settled_follows(popped.delivered(closed), data);
        }
    } else if s.child_level() > MAX_DEPTH {
        lemma_unwind_error(s.frames, s.root.size, data, ErrorView::NestingTooDeep);
    } else if s.top_end() - s.top_cursor() < 8 {
        lemma_unwind_error(s.frames, s.root.size, data, ErrorView::TruncatedHeader);
    } else {
        assert(s.settled().on_track(data));
    }
}

/// A fresh parser follows every file of the size it was made for.
pub proof fn lemma_start_follows(file: Seq<char>, data: Seq<u8>)
    requires
        data.len() <= u64::MAX,
    ensures
        ParserView::start(file, data.len() as int).follows(data),
{
    let size = data.len() as int;
    let blank = ParserView {
        root: Mp4View::empty(file, size),
        cursor: 0,
        frames: Seq::empty(),
        pending: PendingView::Header,
    };
    if size >= 4 {
        lemma_settled_follows(blank, data);
    }
}

/// The bytes that a parser asks for lie inside every file that it follows.
pub proof fn lemma_request_in_file(s: ParserView, data: Seq<u8>)
    requires
        s.follows(data),
        s.request() is Some,
    ensures
        0 <= s.request()->0.offset,
        0 <= s.request()->0.len,
        s.request()->0.offset + s.request()->0.len <= data.len(),
{
    lemma_top_end_in_file(s);
}

/// Taking in the header that the file holds at the cursor keeps the parser
/// following the file, and brings it nearer to the end.
proof fn lemma_opened_follows(s: ParserView, data: Seq<u8>, header: HeaderView)
    requires
        s.follows(data),
        s.pending is Header,
        header_of(data.subrange(s.top_cursor(), s.top_cursor() + 8), s.top_cursor()) == Ok::<
            _,
            ErrorView,
        >(header),
    ensures
        s.opened(header).follows(data),
        s.opened(header).remaining() < s.remaining(),
        s.opened(header).root.file == s.root.file,
{
    let cursor = s.top_cursor();
    let end = s.top_end();
    let level = s.child_level();
    lemma_top_end_in_file(s);
    lemma_header_of_wf(data.subrange(cursor, cursor + 8), cursor);
    let rest = boxes_in(data, cursor, end, level);
    if header.end() > s.root.size {
        lemma_unwind_error(s.frames, s.root.size, data, ErrorView::IO(unexpected_end()));
    } else if header.end() > end {
        lemma_unwind_error(s.frames, s.root.size, data, ErrorView::TruncatedBody);
    } else {
        let decoder = AtomName::of(header.name).decoder_of();
        let after = boxes_in(data, header.end(), end, level);
        match decoder {
            Decoder::ChunkOffsets { wide } => {
                if header.size < 16 {
                    assert(box_at(data, header, level) == Err::<NodeView, _>(
                        ErrorView::TruncatedBody,
                    ));
                    lemma_unwind_error(s.frames, s.root.size, data, ErrorView::TruncatedBody);
                }
            },
            _ => {
                let node = NodeView::fresh(decoder, header, level);
                lemma_fresh(decoder, header, level);
                if decoder.is_container() {
                    let pushed = s.pushed(node);
                    lemma_pushed_wf(s, node);
                    let inner = boxes_in(data, header.body_start(), header.end(), level + 1);
                    match inner {
                        Err(e) => {
                            lemma_unwind_error(s.frames, s.root.size, data, e);
                            lemma_unwind_error(pushed.frames, s.root.size, data, e);
                        },
                        Ok(found) => {
                            assert(rest == then(node.fill(found), after));
                        },
                    }
                    assert(pushed.on_track(data));
                    lemma_settled_follows(pushed, data);
                } else {
                    assert(rest == then(node, after));
                    lemma_unwind_delivered(s, node, data, after);
                    lemma_delivered_wf(s, node);
                    lemma_settled_follows(s.delivered(node), data);
                }
            },
        }
    }
}

/// Feeding a parser the bytes that it asked for keeps it following the
/// file, and brings it nearer to the end.
pub proof fn lemma_fed_follows(s: ParserView, data: Seq<u8>)
    requires
        s.follows(data),
        s.request() is Some,
    ensures
        s.fed(s.asked_of(data)).follows(data),
        s.fed(s.asked_of(data)).remaining() < s.remaining(),
        s.fed(s.asked_of(data)).root.file == s.root.file,
{
    let bytes = s.asked_of(data);
    let cursor = s.top_cursor();
    let end = s.top_end();
    let level = s.child_level();
    lemma_top_end_in_file(s);
    match s.pending {
        PendingView::Header => {
            match header_of(bytes, cursor) {
                Err(e) => {
                    lemma_unwind_error(s.frames, s.root.size, data, e);
                },
                Ok(header) => {
                    lemma_opened_follows(s, data, header);
                },
            }
        },
        PendingView::Table { header, wide } => {
            let after = boxes_in(data, header.end(), end, level);
            match chunk_table_of(header, level, bytes, wide) {
                Err(e) => {
                    assert(box_at(data, header, level) == Err::<NodeView, _>(e));
                    lemma_unwind_error(s.frames, s.root.size, data, e);
                },
                Ok(table) => {
                    let node = NodeView::ChunkOffset(table);
                    assert(box_at(data, header, level) == Ok::<_, ErrorView>(node));
                    lemma_unwind_delivered(s, node, data, after);
                    lemma_delivered_wf(s, node);
                    lemma_settled_follows(s.delivered(node), data);
                },
            }
        },
        _ => {},
    }
}

/// Once a parser that follows a file asks for nothing, its outcome is the
/// tree of that file, or the error that the layout of the file gives.
pub proof fn lemma_outcome(s: ParserView, data: Seq<u8>)
    requires
        s.follows(data),
        s.request() is None,
    ensures
        s.outcome() == parse_file(s.root.file, data),
{
}

} // verus!
