//! FileType: one of the leaf boxes.

use crate::boxes::mp4_box::{BoxRef, Mp4Box};
use crate::header::Header;
use crate::model::{LeafView, NodeView};
use vstd::prelude::*;

verus! {

/// The file type box (`ftyp`). Only its header is kept; [`crate::boxes::Brands`]
/// decodes the brands from its body for whoever reads it.
#[derive(Debug)]
pub struct FileType {
    header: Header,
    level: u8,
}

impl View for FileType {
    type V = LeafView;

    closed spec fn view(&self) -> LeafView {
        LeafView { header: self.header@, level: self.level as int }
    }
}

impl FileType {
    /// The leaf at nesting depth `level` whose header is `header`.
    pub fn parse(header: Header, level: u8) -> (leaf: FileType)
        ensures
            leaf@ == (LeafView { header: header@, level: level as int }),
    {
        FileType { header, level }
    }
}

impl Mp4Box for FileType {
    open spec fn node(&self) -> NodeView {
        NodeView::FileType(self@)
    }

    fn start(&self) -> (start: u64) {
        self.header.start()
    }

    fn end(&self) -> (end: u64) {
        self.header.end()
    }

    fn size(&self) -> (size: usize) {
        self.header.size()
    }

    fn name(&self) -> (name: &str) {
        self.header.name()
    }

    fn fields(&self) -> (fields: Option<Vec<BoxRef<'_>>>) {
        None
    }

    fn level(&self) -> (level: u8) {
        self.level
    }
}

} // verus!
