//! The brands that the body of a file type box lists.

use crate::bytes::utf8_text;
use crate::error::{Error, ErrorView};
use crate::header::result_view;
use vstd::prelude::*;
use vstd::slice::slice_subrange;
use vstd::utf8::{decode_utf8, valid_utf8};

verus! {

/// What the body of a file type box (`ftyp`) says: the major brand, the
/// minor version and the compatible brands, each a four-byte code read as
/// text, in body order.
#[derive(Debug)]
pub struct Brands {
    pub major: String,
    pub minor: String,
    pub compatible: Vec<String>,
}

/// The mathematical value of [`Brands`].
pub struct BrandsView {
    pub major: Seq<char>,
    pub minor: Seq<char>,
    pub compatible: Seq<Seq<char>>,
}

impl View for Brands {
    type V = BrandsView;

    open spec fn view(&self) -> BrandsView {
        BrandsView {
            major: self.major@,
            minor: self.minor@,
            compatible: Seq::new(self.compatible@.len(), |i: int| self.compatible@[i]@),
        }
    }
}

/// The bytes of the four-byte code number `i` of `body`.
pub open spec fn code_at(body: Seq<u8>, i: int) -> Seq<u8> {
    body.subrange(4 * i, 4 * i + 4)
}

/// The brands that `body`, the bytes of a file type box after its header,
/// lists. The codes are consumed until the body is exhausted.
///
/// * a body that is shorter than two codes, or does not end on a code:
///   `TruncatedBody`;
/// * a code that is not UTF-8 text: `InvalidTag`.
pub open spec fn brands_of(body: Seq<u8>) -> Result<BrandsView, ErrorView> {
    if body.len() < 8 || body.len() % 4 != 0 {
        Err(ErrorView::TruncatedBody)
    } else if exists|i: int| 0 <= i < body.len() / 4 && !valid_utf8(#[trigger] code_at(body, i)) {
        Err(ErrorView::InvalidTag)
    } else {
        Ok(
            BrandsView {
                major: decode_utf8(code_at(body, 0)),
                minor: decode_utf8(code_at(body, 1)),
                compatible: Seq::new(
                    (body.len() / 4 - 2) as nat,
                    |i: int| decode_utf8(code_at(body, i + 2)),
                ),
            },
        )
    }
}

impl Brands {
    /// Decodes the brands from `body`, the bytes of a file type box after
    /// its header. The decoder of the tree never reads that body; whoever
    /// wants the brands reads the bytes from `start() + 8` up to `end()` and
    /// hands them over.
    pub fn parse(body: &[u8]) -> (r: Result<Brands, Error>)
        ensures
            result_view(r) == brands_of(body@),
    {
        let len = body.len();
        if len < 8 || len % 4 != 0 {
            return Err(Error::TruncatedBody);
        }
        let count = len / 4;
        let major = match utf8_text(slice_subrange(body, 0, 4)) {
            Some(text) => text,
            None => {
                assert(!valid_utf8(code_at(body@, 0)));
                return Err(Error::InvalidTag);
            },
        };
        let minor = match utf8_text(slice_subrange(body, 4, 8)) {
            Some(text) => text,
            None => {
                assert(!valid_utf8(code_at(body@, 1)));
                return Err(Error::InvalidTag);
            },
        };
        let mut compatible: Vec<String> = Vec::new();
        let mut i: usize = 2;
        while i < count
            invariant
                2 <= i <= count,
                count == body@.len() / 4,
                body@.len() % 4 == 0,
                body@.len() <= usize::MAX,
                forall|k: int| 0 <= k < i ==> valid_utf8(#[trigger] code_at(body@, k)),
                compatible@.len() == i - 2,
                forall|k: int|
                    0 <= k < i - 2 ==> (#[trigger] compatible@[k])@ == decode_utf8(
                        code_at(body@, k + 2),
                    ),
            decreases count - i,
        {
            match utf8_text(slice_subrange(body, 4 * i, 4 * i + 4)) {
                Some(text) => {
                    compatible.push(text);
                },
                None => {
                    assert(!valid_utf8(code_at(body@, i as int)));
                    return Err(Error::InvalidTag);
                },
            }
            i += 1;
        }
        let brands = Brands { major, minor, compatible };
        assert(brands@.compatible =~= brands_of(body@)->Ok_0.compatible);
        Ok(brands)
    }
}

} // verus!
