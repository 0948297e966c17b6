//! A minimal EXIF/TIFF metadata decoder.
//!
//! Given the bytes of an image file, the library locates the embedded TIFF
//! header, determines the byte order, resolves a tag name of the first image
//! file directory to its two-byte identifier and yields the bytes that hold
//! the tag's value. Every function is a pure function of its arguments.

pub mod byte_order;
pub mod error;
pub mod extract;
pub mod header;
pub mod search;
pub mod sizes;
pub mod tags;
