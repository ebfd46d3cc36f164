//! Decoder for CISO disk-image containers.
//!
//! A container is a fixed header, a table of per-block offsets and a run of
//! stored blocks, each held verbatim or as a raw deflate stream. The library
//! works on bytes in memory and rebuilds the image from them.

pub mod decode;
pub mod error;
pub mod header;
pub mod image;
pub mod inflate;
pub mod little_endian;
pub mod offsets;

pub use decode::decompress_ciso;
pub use error::CisoError;
pub use error::FormatError;
pub use header::HEADER_SIZE;
pub use header::Header;
pub use header::Layout;
pub use header::read_header;
pub use image::decode_blocks;
pub use inflate::block_from_inflated;
pub use inflate::expand_block;
pub use offsets::BlockKind;
pub use offsets::OffsetEntry;
pub use offsets::block_extent;
pub use offsets::read_offset_table;
