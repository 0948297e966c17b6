//! Finding the TIFF header inside a buffer.

use vstd::prelude::*;
use vstd::array::*;
use crate::byte_order::ByteOrder;
use crate::error::ExifError;
use crate::search::{
    addr_of_header, first_occurrence, is_first_occurrence, lemma_first_occurrence_props, occurs,
    occurs_at,
};

verus! {

/// The eight bytes with which a TIFF header of the given byte order begins.
pub open spec fn signature(order: ByteOrder) -> Seq<u8> {
    match order {
        ByteOrder::LittleEndian => seq![0x49u8, 0x49u8, 0x2Au8, 0x00u8, 0x08u8, 0x00u8, 0x00u8, 0x00u8],
        ByteOrder::BigEndian => seq![0x4Du8, 0x4Du8, 0x00u8, 0x2Au8, 0x00u8, 0x00u8, 0x00u8, 0x08u8],
    }
}

/// Where the TIFF header of `buf` begins and the byte order it declares: the
/// signature that stands first in the buffer decides. Nothing where neither
/// signature stands in the buffer.
pub open spec fn header_of(buf: Seq<u8>) -> Option<(int, ByteOrder)> {
    let little = first_occurrence(buf, signature(ByteOrder::LittleEndian));
    let big = first_occurrence(buf, signature(ByteOrder::BigEndian));
    match (little, big) {
        (Some(l), Some(b)) => if l < b {
            Some((l, ByteOrder::LittleEndian))
        } else {
            Some((b, ByteOrder::BigEndian))
        },
        (Some(l), None) => Some((l, ByteOrder::LittleEndian)),
        (None, Some(b)) => Some((b, ByteOrder::BigEndian)),
        (None, None) => None,
    }
}

/// The header that `header_of` yields is a signature's first occurrence, no
/// signature stands before it, and there is none exactly when neither
/// signature stands anywhere in the buffer.
pub proof fn lemma_header_of_props(buf: Seq<u8>)
    ensures
        match header_of(buf) {
            Some((at, order)) => {
                &&& is_first_occurrence(buf, signature(order), at)
                &&& forall|j: int, other: ByteOrder|
                    0 <= j < at ==> !occurs_at(buf, signature(other), j)
            },
            None => {
                &&& !occurs(buf, signature(ByteOrder::LittleEndian))
                &&& !occurs(buf, signature(ByteOrder::BigEndian))
            },
        },
{
    lemma_first_occurrence_props(buf, signature(ByteOrder::LittleEndian));
    lemma_first_occurrence_props(buf, signature(ByteOrder::BigEndian));
    match header_of(buf) {
        Some((at, order)) => {
            assert forall|j: int, other: ByteOrder| 0 <= j < at implies !occurs_at(
                buf,
                signature(other),
                j,
            ) by {
                match other {
                    ByteOrder::LittleEndian => {},
                    ByteOrder::BigEndian => {},
                }
            }
        },
        None => {},
    }
}

/// Finds the TIFF header: the index at which the signature that stands first
/// in `buf` begins, and the byte order that this signature declares. Fails
/// with `HeaderNotFound` exactly when neither signature stands in `buf`.
pub fn locate_header(buf: &[u8]) -> (located: Result<(usize, ByteOrder), ExifError>)
    ensures
        match located {
            Ok((at, order)) => header_of(buf@) == Some((at as int, order)),
            Err(e) => e == ExifError::HeaderNotFound && header_of(buf@) is None,
        },
{
    let ii: [u8; 8] = [0x49u8, 0x49u8, 0x2Au8, 0x00u8, 0x08u8, 0x00u8, 0x00u8, 0x00u8];
    let mm: [u8; 8] = [0x4Du8, 0x4Du8, 0x00u8, 0x2Au8, 0x00u8, 0x00u8, 0x00u8, 0x08u8];
    proof {
        assert(ii@ =~= signature(ByteOrder::LittleEndian));
        assert(mm@ =~= signature(ByteOrder::BigEndian));
    }
    let little = addr_of_header(buf, array_as_slice(&ii));
    let big = addr_of_header(buf, array_as_slice(&mm));
    match (little, big) {
        (Some(l), Some(b)) => if l < b {
            Ok((l, ByteOrder::LittleEndian))
        } else {
            Ok((b, ByteOrder::BigEndian))
        },
        (Some(l), None) => Ok((l, ByteOrder::LittleEndian)),
        (None, Some(b)) => Ok((b, ByteOrder::BigEndian)),
        (None, None) => Err(ExifError::HeaderNotFound),
    }
}

} // verus!
