//! Wide: one of the leaf boxes.

use crate::boxes::mp4_box::{BoxRef, Mp4Box};
use crate::header::Header;
use crate::model::{LeafView, NodeView};
use vstd::prelude::*;

verus! {

/// The reserved-space box (`wide`). Only its header is kept.
#[derive(Debug)]
pub struct Wide {
    header: Header,
    level: u8,
}

impl View for Wide {
    type V = LeafView;

    closed spec fn view(&self) -> LeafView {
        LeafView { header: self.header@, level: self.level as int }
    }
}

impl Wide {
    /// The leaf at nesting depth `level` whose header is `header`.
    pub fn parse(header: Header, level: u8) -> (leaf: Wide)
        ensures
            leaf@ == (LeafView { header: header@, level: level as int }),
    {
        Wide { header, level }
    }
}

impl Mp4Box for Wide {
    open spec fn node(&self) -> NodeView {
        NodeView::Wide(self@)
    }

    fn start(&self) -> (start: u64) {
        self.header.start()
    }

    fn end(&self) -> (end: u64) {
        self.header.end()
    }

    fn size(&self) -> (size: usize) {
        self.header.size()
    }

    fn name(&self) -> (name: &str) {
        self.header.name()
    }

    fn fields(&self) -> (fields: Option<Vec<BoxRef<'_>>>) {
        None
    }

    fn level(&self) -> (level: u8) {
        self.level
    }
}

} // verus!
