//! The eight-byte prefix that every box begins with.

use crate::bytes::{be_u32, lemma_be_u32_range, read_be_u32, utf8_text};
use crate::error::{unexpected_end, Error, ErrorView};
use vstd::prelude::*;
use vstd::slice::slice_subrange;
use vstd::utf8::{decode_utf8, valid_utf8};

verus! {

/// The number of bytes a box header occupies: a 32-bit size and a four-byte tag.
pub const HEADER_BYTES: u64 = 8;

/// The header of one box: its tag, the number of bytes the box spans
/// (header included) and the absolute offset of its first byte.
///
/// Every `Header` spans at least its own eight bytes and ends at an offset
/// that a `u64` can hold.
///
/// The 32-bit size is taken as it stands. The conventions by which a size
/// of 0 means "up to the end of the file" and a size of 1 announces a 64-bit
/// size after the tag are not followed: such a box declares less than its
/// header and is rejected like any other that does.
#[derive(Debug)]
pub struct Header {
    pub(crate) name: String,
    pub(crate) size: usize,
    pub(crate) start: u64,
}

/// The mathematical value of a [`Header`].
pub struct HeaderView {
    pub name: Seq<char>,
    pub size: int,
    pub start: int,
}

impl HeaderView {
    /// The offset just past the box: `start + size`.
    pub open spec fn end(self) -> int {
        self.start + self.size
    }

    /// The offset of the first byte after the eight header bytes.
    pub open spec fn body_start(self) -> int {
        self.start + 8
    }

    /// A header is well formed when the box holds at least its header, its
    /// size fits the 32-bit field it was read from, and its span lies in the
    /// 64-bit address space.
    pub open spec fn wf(self) -> bool {
        &&& 8 <= self.size <= u32::MAX
        &&& 0 <= self.start
        &&& self.start + self.size <= u64::MAX
    }
}

impl View for Header {
    type V = HeaderView;

    closed spec fn view(&self) -> HeaderView {
        HeaderView { name: self.name@, size: self.size as int, start: self.start as int }
    }
}

/// Maps the two sides of a `Result` to their mathematical values.
pub open spec fn result_view<T: View>(r: Result<T, Error>) -> Result<T::V, ErrorView> {
    match r {
        Ok(v) => Ok(v@),
        Err(e) => Err(e@),
    }
}

/// What the eight bytes at the front of `bytes` mean as the header of a box
/// that starts at offset `start`.
///
/// * fewer than eight bytes: `TruncatedHeader`;
/// * tag bytes that are not UTF-8: `InvalidTag`;
/// * a declared size below eight: `TruncatedHeader`;
/// * a span that would end past the last 64-bit offset, and so past the end
///   of any source: the `IO` error of [`Error::unexpected_end`].
pub open spec fn header_of(bytes: Seq<u8>, start: int) -> Result<HeaderView, ErrorView> {
    if bytes.len() < 8 {
        Err(ErrorView::TruncatedHeader)
    } else if !valid_utf8(bytes.subrange(4, 8)) {
        Err(ErrorView::InvalidTag)
    } else if be_u32(bytes) < 8 {
        Err(ErrorView::TruncatedHeader)
    } else if start + be_u32(bytes) > u64::MAX {
        Err(ErrorView::IO(unexpected_end()))
    } else {
        Ok(HeaderView { name: decode_utf8(bytes.subrange(4, 8)), size: be_u32(bytes), start })
    }
}

/// Every header that [`header_of`] accepts is well formed.
pub proof fn lemma_header_of_wf(bytes: Seq<u8>, start: int)
    requires
        0 <= start,
    ensures
        header_of(bytes, start) matches Ok(h) ==> h.wf() && h.start == start,
{
    lemma_be_u32_range(bytes);
}

impl Header {
    #[verifier::type_invariant]
    spec fn inv(self) -> bool {
        self@.wf()
    }

    /// Decodes the header of the box that starts at absolute offset `start`
    /// from the bytes found there. Only the first eight bytes are looked at.
    pub fn new(bytes: &[u8], start: u64) -> (r: Result<Header, Error>)
        ensures
            result_view(r) == header_of(bytes@, start as int),
    {
        if bytes.len() < 8 {
            return Err(Error::TruncatedHeader);
        }
        let size = read_be_u32(bytes);
        let tag = slice_subrange(bytes, 4, 8);
        match utf8_text(tag) {
            None => Err(Error::InvalidTag),
            Some(name) => {
                if size < 8 {
                    Err(Error::TruncatedHeader)
                } else if start > u64::MAX - size as u64 {
                    Err(Error::unexpected_end())
                } else {
                    Ok(Header { name, size: size as usize, start })
                }
            },
        }
    }

    /// The four-character tag of the box.
    pub fn name(&self) -> (name: &str)
        ensures
            name@ == self@.name,
    {
        self.name.as_str()
    }

    /// The number of bytes the box spans, header included.
    pub fn size(&self) -> (size: usize)
        ensures
            size == self@.size,
            self@.wf(),
    {
        proof {
            use_type_invariant(self);
        }
        self.size
    }

    /// The absolute offset of the first byte of the box.
    pub fn start(&self) -> (start: u64)
        ensures
            start == self@.start,
    {
        self.start
    }

    /// The absolute offset just past the last byte of the box.
    pub fn end(&self) -> (end: u64)
        ensures
            end == self@.end(),
            self@.wf(),
    {
        proof {
            use_type_invariant(self);
        }
        self.start + self.size as u64
    }
}

} // verus!
