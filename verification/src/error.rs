//! The error taxonomy shared by every decoder and accessor.

use vstd::prelude::*;

verus! {

/// Problems that can arise while decoding a container or querying its tree.
#[derive(Debug)]
pub enum Error {
    /// There was an error reading formatted data.
    FormatError { format_of: String, detail: String },
    /// Configuration information passed to the library was incorrect.
    InvalidConfig(String),
    /// There has been an attempt to access data at an invalid index.
    InvalidIndex { kind: String, index: usize, max: usize },
    /// The byte source failed to deliver the bytes that were asked for, or a
    /// box declares bytes past the end of the source, so that reading it to
    /// its end would run off the source. The text says which.
    IO(String),
    /// A box starts where fewer than eight bytes are left for it, or it
    /// declares a size smaller than its own eight-byte header.
    TruncatedHeader,
    /// A box that lies inside the file declares more bytes than its
    /// container holds, or a table in it announces more entries than the box
    /// has room for.
    TruncatedBody,
    /// The four tag bytes of a box are not valid UTF-8 text.
    InvalidTag,
    /// An accessor was asked for an optional box that the file did not hold.
    BoxNotFound(String),
    /// The content is too short to hold any box at all.
    UnrecognizedFile,
    /// Boxes are nested more deeply than [`crate::MAX_DEPTH`] levels.
    NestingTooDeep,
}

/// The mathematical value of an [`Error`]: the same variants, with every
/// text field replaced by its sequence of characters.
pub enum ErrorView {
    FormatError { format_of: Seq<char>, detail: Seq<char> },
    InvalidConfig(Seq<char>),
    InvalidIndex { kind: Seq<char>, index: usize, max: usize },
    IO(Seq<char>),
    TruncatedHeader,
    TruncatedBody,
    InvalidTag,
    BoxNotFound(Seq<char>),
    UnrecognizedFile,
    NestingTooDeep,
}

impl View for Error {
    type V = ErrorView;

    open spec fn view(&self) -> ErrorView {
        match *self {
            Error::FormatError { format_of, detail } => ErrorView::FormatError {
                format_of: format_of@,
                detail: detail@,
            },
            Error::InvalidConfig(detail) => ErrorView::InvalidConfig(detail@),
            Error::InvalidIndex { kind, index, max } => ErrorView::InvalidIndex {
                kind: kind@,
                index,
                max,
            },
            Error::IO(detail) => ErrorView::IO(detail@),
            Error::TruncatedHeader => ErrorView::TruncatedHeader,
            Error::TruncatedBody => ErrorView::TruncatedBody,
            Error::InvalidTag => ErrorView::InvalidTag,
            Error::BoxNotFound(tag) => ErrorView::BoxNotFound(tag@),
            Error::UnrecognizedFile => ErrorView::UnrecognizedFile,
            Error::NestingTooDeep => ErrorView::NestingTooDeep,
        }
    }
}

/// The detail of the `IO` error for a box that declares bytes past the end of
/// the source.
pub open spec fn unexpected_end() -> Seq<char> {
    "unexpected end of file"@
}

impl Error {
    /// The `IO` error for a box that declares bytes past the end of the
    /// source: reading the box to its end would run off the source.
    pub fn unexpected_end() -> (e: Error)
        ensures
            e@ == ErrorView::IO(unexpected_end()),
    {
        Error::IO(String::from_str("unexpected end of file"))
    }

    /// Whether this is the error of [`Error::unexpected_end`].
    pub fn is_unexpected_end(&self) -> (r: bool)
        ensures
            r == (self@ == ErrorView::IO(unexpected_end())),
    {
        match self {
            Error::IO(detail) => {
                let wanted = String::from_str("unexpected end of file");
                *detail == wanted
            },
            _ => false,
        }
    }

    /// An [`Error::InvalidConfig`] that carries `detail`.
    pub fn config(detail: String) -> (e: Error)
        ensures
            e@ == ErrorView::InvalidConfig(detail@),
    {
        Error::InvalidConfig(detail)
    }

    /// An [`Error::FormatError`] for the format named `format_of`.
    pub fn format(format_of: String, detail: String) -> (e: Error)
        ensures
            e@ == (ErrorView::FormatError { format_of: format_of@, detail: detail@ }),
    {
        Error::FormatError { format_of, detail }
    }

    /// An [`Error::InvalidIndex`] for position `index` where at most `max` is valid.
    pub fn index(kind: String, index: usize, max: usize) -> (e: Error)
        ensures
            e@ == (ErrorView::InvalidIndex { kind: kind@, index, max }),
    {
        Error::InvalidIndex { kind, index, max }
    }

    /// The error every accessor returns for an absent box: [`Error::BoxNotFound`]
    /// carrying the box's four-character tag.
    pub fn not_found(tag: &str) -> (e: Error)
        ensures
            e@ == ErrorView::BoxNotFound(tag@),
    {
        Error::BoxNotFound(String::from_str(tag))
    }
}

} // verus!
