//! The chunk offset table (`stco`, and `co64` with 64-bit entries).

use crate::boxes::mp4_box::{BoxRef, Mp4Box};
use crate::bytes::{
    be_u32, be_u64, lemma_be_u32_range, lemma_be_u64_range, read_be_u32, read_be_u64,
};
use crate::error::{Error, ErrorView};
use crate::header::{result_view, Header, HeaderView};
use crate::model::{ChunkOffsetView, NodeView};
use crate::render::{offsets_text, push_listed};
use vstd::prelude::*;
use vstd::slice::slice_subrange;

verus! {

/// The number of bytes that `count` entries of the table take.
pub open spec fn entries_len(count: int, wide: bool) -> int {
    if wide {
        8 * count
    } else {
        4 * count
    }
}

/// Entry `i` of the table in `body`, the bytes of the box after its header:
/// entries follow a four-byte version and flags field and a four-byte count.
pub open spec fn table_entry(body: Seq<u8>, wide: bool, i: int) -> u64 {
    if wide {
        be_u64(body.subrange(8 + 8 * i, 16 + 8 * i)) as u64
    } else {
        be_u32(body.subrange(8 + 4 * i, 12 + 4 * i)) as u64
    }
}

/// The offsets that `body` holds. The count that the body announces must fit
/// the body; bytes after the last entry are ignored.
pub open spec fn chunk_offsets_of(body: Seq<u8>, wide: bool) -> Result<Seq<u64>, ErrorView> {
    if body.len() < 8 {
        Err(ErrorView::TruncatedBody)
    } else {
        let count = be_u32(body.subrange(4, 8));
        if 8 + entries_len(count, wide) > body.len() {
            Err(ErrorView::TruncatedBody)
        } else {
            Ok(Seq::new(count as nat, |i: int| table_entry(body, wide, i)))
        }
    }
}

/// The chunk offset table with header `header` whose body is `body`.
pub open spec fn chunk_table_of(
    header: HeaderView,
    level: int,
    body: Seq<u8>,
    wide: bool,
) -> Result<ChunkOffsetView, ErrorView> {
    match chunk_offsets_of(body, wide) {
        Ok(offsets) => Ok(ChunkOffsetView { header, level, offsets }),
        Err(e) => Err(e),
    }
}

/// A chunk offset table: the byte offset of every chunk of sample data, in
/// file order.
#[derive(Debug)]
pub struct ChunkOffsetBox {
    pub offsets: Vec<u64>,
    header: Header,
    level: u8,
}

impl View for ChunkOffsetBox {
    type V = ChunkOffsetView;

    closed spec fn view(&self) -> ChunkOffsetView {
        ChunkOffsetView { header: self.header@, level: self.level as int, offsets: self.offsets@ }
    }
}

impl ChunkOffsetBox {
    /// Decodes the table from `body`, the bytes that follow the header of
    /// the box: a version and flags field that is skipped, the number of
    /// entries, and the entries, big-endian, of eight bytes each where
    /// `wide` and of four bytes otherwise.
    pub fn parse(header: Header, level: u8, body: &[u8], wide: bool) -> (r: Result<
        ChunkOffsetBox,
        Error,
    >)
        ensures
            result_view(r) == chunk_table_of(header@, level as int, body@, wide),
    {
        if body.len() < 8 {
            return Err(Error::TruncatedBody);
        }
        let count = read_be_u32(slice_subrange(body, 4, 8));
        proof {
            lemma_be_u32_range(body@.subrange(4, 8));
        }
        let room: u64 = (body.len() - 8) as u64;
        let needed: u64 = if wide {
            count as u64 * 8
        } else {
            count as u64 * 4
        };
        if needed > room {
            return Err(Error::TruncatedBody);
        }
        let mut offsets: Vec<u64> = Vec::new();
        let mut i: usize = 0;
        while i < count as usize
            invariant
                8 <= body@.len() <= usize::MAX,
                count == be_u32(body@.subrange(4, 8)),
                8 + entries_len(count as int, wide) <= body@.len(),
                i <= count,
                offsets@ == Seq::new(i as nat, |k: int| table_entry(body@, wide, k)),
            decreases count - i,
        {
            let entry: u64 = if wide {
                read_be_u64(slice_subrange(body, 8 + 8 * i, 16 + 8 * i))
            } else {
                read_be_u32(slice_subrange(body, 8 + 4 * i, 12 + 4 * i)) as u64
            };
            proof {
                if wide {
                    lemma_be_u64_range(body@.subrange(8 + 8 * i, 16 + 8 * i));
                } else {
                    lemma_be_u32_range(body@.subrange(8 + 4 * i, 12 + 4 * i));
                }
            }
            offsets.push(entry);
            i += 1;
            assert(offsets@ =~= Seq::new(i as nat, |k: int| table_entry(body@, wide, k)));
        }
        Ok(ChunkOffsetBox { offsets, header, level })
    }

    /// The table with header `header` and no entry.
    pub fn empty(header: Header, level: u8) -> (r: ChunkOffsetBox)
        ensures
            r@ == (ChunkOffsetView { header: header@, level: level as int, offsets: Seq::empty() }),
    {
        ChunkOffsetBox { offsets: Vec::new(), header, level }
    }

    /// The chunk offsets, in file order.
    pub fn chunk_offsets(&self) -> (offsets: &Vec<u64>)
        ensures
            offsets@ == self@.offsets,
    {
        &self.offsets
    }

    /// The table as text: one line, `Offsets: [..]`, that lists every
    /// offset in decimal.
    pub fn to_string(&self) -> (text: String)
        ensures
            text@ == offsets_text(self@.offsets),
    {
        let mut text = String::from_str("Offsets: [");
        push_listed(&mut text, &self.offsets);
        text.append("]\n");
        assert(text@ =~= offsets_text(self@.offsets));
        text
    }
}

impl Mp4Box for ChunkOffsetBox {
    open spec fn node(&self) -> NodeView {
        NodeView::ChunkOffset(self@)
    }

    fn start(&self) -> (start: u64) {
        self.header.start()
    }

    fn end(&self) -> (end: u64) {
        self.header.end()
    }

    fn size(&self) -> (size: usize) {
        self.header.size()
    }

    fn name(&self) -> (name: &str) {
        self.header.name()
    }

    fn fields(&self) -> (fields: Option<Vec<BoxRef<'_>>>) {
        None
    }

    fn level(&self) -> (level: u8) {
        self.level
    }
}

} // verus!
