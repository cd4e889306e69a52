//! The byte layout of a file, as a mathematical function from its bytes to
//! the tree that they describe.
//!
//! A file is a back-to-back sequence of boxes. A box is an eight-byte header
//! followed by a body; the body of a container is again a back-to-back
//! sequence of boxes, which ends exactly where the container ends.

use crate::atom_name::{AtomName, Decoder};
use crate::boxes::stco::chunk_table_of;
use crate::error::{unexpected_end, ErrorView};
use crate::header::{header_of, HeaderView};
use crate::model::{LeafView, Mp4View, NodeView};
use vstd::prelude::*;

verus! {

/// The deepest nesting that is decoded: a box at a greater depth makes the
/// whole parse fail with `NestingTooDeep`. Top-level boxes are at depth 1.
pub const MAX_DEPTH: u8 = 64;

/// The header of the box that starts at `cursor` inside a span that ends at
/// `end`.
///
/// * fewer than eight bytes left in the span: `TruncatedHeader`;
/// * the errors of [`header_of`];
/// * a box that would end after the end of the file: the `IO` error with
///   the detail [`unexpected_end`];
/// * a box that ends inside the file, but after `end`: `TruncatedBody`.
pub open spec fn header_in(data: Seq<u8>, cursor: int, end: int) -> Result<HeaderView, ErrorView> {
    if end - cursor < 8 {
        Err(ErrorView::TruncatedHeader)
    } else {
        match header_of(data.subrange(cursor, cursor + 8), cursor) {
            Err(e) => Err(e),
            Ok(header) => if header.end() > data.len() {
                Err(ErrorView::IO(unexpected_end()))
            } else if header.end() > end {
                Err(ErrorView::TruncatedBody)
            } else {
                Ok(header)
            },
        }
    }
}

/// `first`, followed by what `rest` holds; the error of `rest` where it is one.
pub open spec fn then(first: NodeView, rest: Result<Seq<NodeView>, ErrorView>) -> Result<
    Seq<NodeView>,
    ErrorView,
> {
    match rest {
        Ok(found) => Ok(seq![first] + found),
        Err(e) => Err(e),
    }
}

/// The boxes that are packed back to back from `cursor` up to `end`, all of
/// them at nesting depth `level`, in file order. Every box is listed,
/// whether or not the enclosing container will keep it. The first error
/// met, in file order and depth first, is the result.
pub open spec fn boxes_in(data: Seq<u8>, cursor: int, end: int, level: int) -> Result<
    Seq<NodeView>,
    ErrorView,
>
    decreases end - cursor, 1int,
{
    if cursor >= end {
        Ok(Seq::empty())
    } else if level > MAX_DEPTH {
        Err(ErrorView::NestingTooDeep)
    } else {
        match header_in(data, cursor, end) {
            Err(e) => Err(e),
            Ok(header) => match box_at(data, header, level) {
                Err(e) => Err(e),
                Ok(first) => then(first, boxes_in(data, header.end(), end, level)),
            },
        }
    }
}

/// The box whose header is `header`, decoded as the dispatch table says
/// for its tag: a container holds what its body lists, as far as it names
/// it; a chunk offset table is decoded from its body; any other box is a
/// leaf of which the header is kept. (Every header spans at least its own
/// eight bytes; the test on the size only serves as the measure of the
/// recursion.)
pub open spec fn box_at(data: Seq<u8>, header: HeaderView, level: int) -> Result<
    NodeView,
    ErrorView,
>
    recommends
        header.wf(),
        header.end() <= data.len(),
    decreases header.size, 0int,
{
    let decoder = AtomName::of(header.name).decoder_of();
    match decoder {
        Decoder::ChunkOffsets { wide } => match chunk_table_of(
            header,
            level,
            data.subrange(header.body_start(), header.end()),
            wide,
        ) {
            Ok(table) => Ok(NodeView::ChunkOffset(table)),
            Err(e) => Err(e),
        },
        _ => if decoder.is_container() && header.size >= 8 {
            match boxes_in(data, header.body_start(), header.end(), level + 1) {
                Ok(found) => Ok(NodeView::fresh(decoder, header, level).fill(found)),
                Err(e) => Err(e),
            }
        } else {
            Ok(NodeView::fresh(decoder, header, level))
        },
    }
}

/// The tree that the bytes `data` of the file named `file` describe.
///
/// Content of fewer than four bytes is no file of this kind at all
/// (`UnrecognizedFile`). Otherwise the whole of `data` must be a sequence of
/// boxes; the root keeps those that it names.
pub open spec fn parse_file(file: Seq<char>, data: Seq<u8>) -> Result<Mp4View, ErrorView> {
    if data.len() < 4 {
        Err(ErrorView::UnrecognizedFile)
    } else {
        match boxes_in(data, 0, data.len() as int, 1) {
            Ok(found) => Ok(Mp4View::empty(file, data.len() as int).fill(found)),
            Err(e) => Err(e),
        }
    }
}

/// Filling a box with `first` and then `rest` is putting `first` and
/// filling the result with `rest`.
pub proof fn lemma_fill_first(node: NodeView, first: NodeView, rest: Seq<NodeView>)
    ensures
        node.fill(seq![first] + rest) == node.put(first).fill(rest),
    decreases rest.len(),
{
    let all = seq![first] + rest;
    if rest.len() == 0 {
        assert(all.drop_last() =~= Seq::<NodeView>::empty());
        assert(node.fill(all.drop_last()) == node);
        assert(all.last() == first);
    } else {
        lemma_fill_first(node, first, rest.drop_last());
        assert(all.drop_last() =~= seq![first] + rest.drop_last());
        assert(all.last() == rest.last());
    }
}

/// The same as [`lemma_fill_first`], for the root of a file.
pub proof fn lemma_root_fill_first(root: Mp4View, first: NodeView, rest: Seq<NodeView>)
    ensures
        root.fill(seq![first] + rest) == root.put(first).fill(rest),
    decreases rest.len(),
{
    let all = seq![first] + rest;
    if rest.len() == 0 {
        assert(all.drop_last() =~= Seq::<NodeView>::empty());
        assert(root.fill(all.drop_last()) == root);
        assert(all.last() == first);
    } else {
        lemma_root_fill_first(root, first, rest.drop_last());
        assert(all.drop_last() =~= seq![first] + rest.drop_last());
        assert(all.last() == rest.last());
    }
}

/// A tag outside the known set never makes decoding fail: whatever the
/// header says and whatever the bytes are, the box is an opaque leaf with
/// that header.
pub proof fn lemma_unknown_tag_is_opaque(data: Seq<u8>, header: HeaderView, level: int)
    requires
        AtomName::of(header.name) == AtomName::Other,
    ensures
        box_at(data, header, level) == Ok::<_, ErrorView>(
            NodeView::Inner(LeafView { header, level }),
        ),
{
}

/// A box with a tag outside the known set is kept by no container and not
/// by the root: putting it leaves them as they are, so no accessor finds it.
pub proof fn lemma_unknown_box_is_dropped(node: NodeView, root: Mp4View, leaf: LeafView)
    requires
        AtomName::of(leaf.header.name) == AtomName::Other,
    ensures
        node.put(NodeView::Inner(leaf)) == node,
        root.put(NodeView::Inner(leaf)) == root,
{
}

} // verus!
