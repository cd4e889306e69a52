//! InnerAtom: one of the leaf boxes.

use crate::boxes::mp4_box::{BoxRef, Mp4Box};
use crate::header::Header;
use crate::model::{LeafView, NodeView};
use vstd::prelude::*;

verus! {

/// A box without inner structure: only its header is kept.
///
/// Every tag that has no decoder of its own becomes an `InnerAtom`; the
/// bytes of its body are never read.
#[derive(Debug)]
pub struct InnerAtom {
    header: Header,
    level: u8,
}

impl View for InnerAtom {
    type V = LeafView;

    closed spec fn view(&self) -> LeafView {
        LeafView { header: self.header@, level: self.level as int }
    }
}

impl InnerAtom {
    /// The leaf at nesting depth `level` whose header is `header`.
    pub fn parse(header: Header, level: u8) -> (leaf: InnerAtom)
        ensures
            leaf@ == (LeafView { header: header@, level: level as int }),
    {
        InnerAtom { header, level }
    }
}

impl Mp4Box for InnerAtom {
    open spec fn node(&self) -> NodeView {
        NodeView::Inner(self@)
    }

    fn start(&self) -> (start: u64) {
        self.header.start()
    }

    fn end(&self) -> (end: u64) {
        self.header.end()
    }

    fn size(&self) -> (size: usize) {
        self.header.size()
    }

    fn name(&self) -> (name: &str) {
        self.header.name()
    }

    fn fields(&self) -> (fields: Option<Vec<BoxRef<'_>>>) {
        None
    }

    fn level(&self) -> (level: u8) {
        self.level
    }
}

} // verus!
