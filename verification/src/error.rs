//! The ways in which decoding a tag can fail.

use vstd::prelude::*;

verus! {

/// Why no value could be produced for a tag. Every failure stems from the
/// content of the buffer or from the tag name; none is transient.
#[derive(Clone, Copy, Debug, PartialEq, Eq, Structural)]
pub enum ExifError {
    /// Neither byte-order signature of a TIFF header stands in the buffer.
    HeaderNotFound,
    /// The tag name is not one of the dictionary's names.
    UnknownTag,
    /// The tag's identifier bytes do not stand in the buffer.
    TagNotFound,
    /// The directory entry or the value it points to reaches past the end
    /// of the buffer.
    OutOfRange,
}

} // verus!
