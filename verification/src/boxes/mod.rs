//! The typed boxes of a decoded tree.

pub mod brands;
pub mod file_type;
pub mod free;
pub mod inner;
pub mod media;
pub mod media_data;
pub mod media_info;
pub mod movie;
pub mod mp4_box;
pub mod node;
pub mod sample_table;
pub mod stco;
pub mod track;
pub mod wide;

pub use brands::Brands;
pub use file_type::FileType;
pub use free::Free;
pub use inner::InnerAtom;
pub use media::Media;
pub use media_data::MediaData;
pub use media_info::MediaInfo;
pub use movie::Movie;
pub use mp4_box::{BoxRef, Mp4Box};
pub use node::BoxNode;
pub use sample_table::SampleTable;
pub use stco::ChunkOffsetBox;
pub use track::{EditLists, Track};
pub use wide::Wide;
