//! MediaData: one of the leaf boxes.

use crate::boxes::mp4_box::{BoxRef, Mp4Box};
use crate::header::Header;
use crate::model::{LeafView, NodeView};
use vstd::prelude::*;

verus! {

/// The media data box (`mdat`). Its payload is routinely the largest part
/// of a file and is never read: a caller that needs it reads the bytes from
/// `start() + 8` up to `end()` itself.
#[derive(Debug)]
pub struct MediaData {
    header: Header,
    level: u8,
}

impl View for MediaData {
    type V = LeafView;

    closed spec fn view(&self) -> LeafView {
        LeafView { header: self.header@, level: self.level as int }
    }
}

impl MediaData {
    /// The leaf at nesting depth `level` whose header is `header`.
    pub fn parse(header: Header, level: u8) -> (leaf: MediaData)
        ensures
            leaf@ == (LeafView { header: header@, level: level as int }),
    {
        MediaData { header, level }
    }
}

impl Mp4Box for MediaData {
    open spec fn node(&self) -> NodeView {
        NodeView::MediaData(self@)
    }

    fn start(&self) -> (start: u64) {
        self.header.start()
    }

    fn end(&self) -> (end: u64) {
        self.header.end()
    }

    fn size(&self) -> (size: usize) {
        self.header.size()
    }

    fn name(&self) -> (name: &str) {
        self.header.name()
    }

    fn fields(&self) -> (fields: Option<Vec<BoxRef<'_>>>) {
        None
    }

    fn level(&self) -> (level: u8) {
        self.level
    }
}

} // verus!
