//! Structural decoder for ISO base media ("MP4"/QuickTime) containers.
//!
//! A file is a sequence of length-prefixed boxes; some boxes hold further
//! boxes. This crate decodes that nesting into a typed tree, with accessors
//! for the boxes it names, and proves with Verus that the tree is exactly
//! what the byte layout describes. It reads structure only: the payload of
//! the media data box is never looked at.
//!
//! * [`layout`] says, as a mathematical function, which tree the bytes of a
//!   file describe; [`model`] holds the trees that it speaks of.
//! * [`parser`] is the decoder. It never touches the byte source: it asks
//!   for the bytes it needs, eight at a time for each header, and is fed
//!   them. [`conformance`] proves that what it ends with is what [`layout`]
//!   says. [`mp4::Mp4::parse`] runs it over bytes that are in memory.
//! * [`boxes`] and [`mp4`] hold the typed tree and its accessors,
//!   [`render`] turns it into indented text.
//! * [`spans`] proves that in every decoded tree the children of a box lie
//!   inside it and apart from each other.

pub mod atom_name;
pub mod boxes;
pub mod bytes;
pub mod conformance;
pub mod error;
pub mod header;
pub mod layout;
pub mod model;
pub mod mp4;
pub mod parser;
pub mod render;
pub mod spans;

pub use atom_name::AtomName;
pub use error::Error;
pub use header::Header;
pub use layout::MAX_DEPTH;
pub use mp4::Mp4;
pub use parser::{Parser, Request};
