//! Finding a tag's directory entry and the bytes of its value.
//!
//! A directory entry takes twelve bytes: the identifier (2), the field type
//! (2), the number of units (4) and the value field (4), which holds the
//! distance of the value's first byte from the TIFF header. The entry is
//! found by looking for the identifier bytes in the whole buffer.

use vstd::prelude::*;
use vstd::array::*;
use vstd::slice::*;
use crate::byte_order::{decode_uint, lemma_decode_uint_bound, u8array_integer, ByteOrder};
use crate::error::ExifError;
use crate::header::{header_of, lemma_header_of_props, locate_header, signature};
use crate::search::{addr_of_header, first_occurrence, lemma_first_occurrence_props, occurs};
use crate::sizes::{payload_len, total_len, width_of};
use crate::tags::{is_known_tag, oriented_id, resolve_ifd0};

verus! {

/// The field type of the entry that begins at index `at`.
pub open spec fn entry_type(buf: Seq<u8>, at: int, order: ByteOrder) -> int {
    decode_uint(buf.subrange(at + 2, at + 4), order) as int
}

/// The number of units of the entry that begins at index `at`.
pub open spec fn entry_count(buf: Seq<u8>, at: int, order: ByteOrder) -> int {
    decode_uint(buf.subrange(at + 4, at + 8), order) as int
}

/// The value field of the entry that begins at index `at`.
pub open spec fn entry_value(buf: Seq<u8>, at: int, order: ByteOrder) -> int {
    decode_uint(buf.subrange(at + 8, at + 12), order) as int
}

/// The byte length of the value of the entry that begins at index `at`.
pub open spec fn entry_len(buf: Seq<u8>, at: int, order: ByteOrder) -> int {
    payload_len(entry_type(buf, at, order), entry_count(buf, at, order))
}

/// The byte length of the value of the tag with identifier bytes `tag`:
/// `TagNotFound` where the identifier does not stand in `buf`, `OutOfRange`
/// where the buffer ends before the entry's unit count does.
pub open spec fn data_len_of(buf: Seq<u8>, tag: Seq<u8>, order: ByteOrder) -> Result<
    int,
    ExifError,
> {
    match first_occurrence(buf, tag) {
        None => Err(ExifError::TagNotFound),
        Some(at) => if at + 8 > buf.len() {
            Err(ExifError::OutOfRange)
        } else {
            Ok(entry_len(buf, at, order))
        },
    }
}

/// The bytes of the value of the tag with identifier bytes `tag`, where the
/// TIFF header begins at index `offset`: `TagNotFound` where the identifier
/// does not stand in `buf`, `OutOfRange` where the buffer ends before the
/// entry or before the value does.
pub open spec fn tag_data_of(buf: Seq<u8>, offset: int, tag: Seq<u8>, order: ByteOrder) -> Result<
    Seq<u8>,
    ExifError,
> {
    match first_occurrence(buf, tag) {
        None => Err(ExifError::TagNotFound),
        Some(at) => {
            let start = offset + entry_value(buf, at, order);
            let end = start + entry_len(buf, at, order);
            if at + 12 > buf.len() || end > buf.len() {
                Err(ExifError::OutOfRange)
            } else {
                Ok(buf.subrange(start, end))
            }
        },
    }
}

/// The bytes of the value of the tag called `name` in the image file `buf`.
pub open spec fn tag_value_of(buf: Seq<u8>, name: Seq<char>) -> Result<Seq<u8>, ExifError> {
    match header_of(buf) {
        None => Err(ExifError::HeaderNotFound),
        Some((offset, order)) => match oriented_id(name, order) {
            None => Err(ExifError::UnknownTag),
            Some(tag) => tag_data_of(buf, offset, tag, order),
        },
    }
}

/// What a decoding yielded, with the bytes as a sequence.
pub open spec fn outcome_view(data: Result<&[u8], ExifError>) -> Result<Seq<u8>, ExifError> {
    match data {
        Ok(bytes) => Ok(bytes@),
        Err(e) => Err(e),
    }
}

/// Reads the field type and the unit count of the entry that begins at
/// index `at` and computes the byte length of its value.
fn read_entry_len(buf: &[u8], at: usize, o: &ByteOrder) -> (total: u64)
    requires
        at + 8 <= buf@.len(),
    ensures
        total == entry_len(buf@, at as int, *o),
        total <= 8 * 0xffff_ffff,
{
    let n: usize = buf.len();
    assert(at + 8 <= n);
    let type_code: usize = u8array_integer(slice_subrange(buf, at + 2, at + 4), o);
    let count: usize = u8array_integer(slice_subrange(buf, at + 4, at + 8), o);
    proof {
        lemma_decode_uint_bound(buf@.subrange(at + 2, at + 4), *o);
        lemma_decode_uint_bound(buf@.subrange(at + 4, at + 8), *o);
    }
    total_len(type_code as u16, count as u32)
}

/// Computes the byte length of the value of the tag with identifier bytes
/// `s` from the tag's directory entry.
pub fn data_len(buf: &[u8], s: &[u8; 2], o: &ByteOrder) -> (total: Result<u64, ExifError>)
    ensures
        match total {
            Ok(len) => data_len_of(buf@, s@, *o) == Ok::<int, ExifError>(len as int),
            Err(e) => data_len_of(buf@, s@, *o) == Err::<int, ExifError>(e),
        },
{
    match addr_of_header(buf, array_as_slice(s)) {
        None => Err(ExifError::TagNotFound),
        Some(at) => {
            if buf.len() - at < 8 {
                Err(ExifError::OutOfRange)
            } else {
                Ok(read_entry_len(buf, at, o))
            }
        },
    }
}

/// Yields the bytes of the value of the tag with identifier bytes `s`, where
/// the TIFF header begins at index `offset`. The value begins at `offset`
/// plus the entry's value field and has the length that the entry's field
/// type and unit count give.
pub fn tag_data<'a>(buf: &'a [u8], offset: usize, s: &[u8; 2], o: &ByteOrder) -> (data: Result<
    &'a [u8],
    ExifError,
>)
    ensures
        outcome_view(data) == tag_data_of(buf@, offset as int, s@, *o),
{
    let n: usize = buf.len();
    match addr_of_header(buf, array_as_slice(s)) {
        None => Err(ExifError::TagNotFound),
        Some(at) => {
            if n - at < 12 {
                return Err(ExifError::OutOfRange);
            }
            let total: u64 = read_entry_len(buf, at, o);
            let value: usize = u8array_integer(slice_subrange(buf, at + 8, at + 12), o);
            if offset > n || value > n - offset {
                return Err(ExifError::OutOfRange);
            }
            let start: usize = offset + value;
            if total > (n - start) as u64 {
                return Err(ExifError::OutOfRange);
            }
            let end: usize = start + total as usize;
            Ok(slice_subrange(buf, start, end))
        },
    }
}

/// Yields the bytes of the value of the tag called `name` in the image file
/// `buf`: finds the TIFF header, resolves the name in the header's byte
/// order, and reads the tag's value.
pub fn extract_tag<'a>(buf: &'a [u8], name: &str) -> (data: Result<&'a [u8], ExifError>)
    ensures
        outcome_view(data) == tag_value_of(buf@, name@),
{
    let (offset, order) = match locate_header(buf) {
        Ok(found) => found,
        Err(e) => {
            return Err(e);
        },
    };
    let tag: [u8; 2] = match resolve_ifd0(name, &order) {
        Ok(tag) => tag,
        Err(e) => {
            return Err(e);
        },
    };
    tag_data(buf, offset, &tag, &order)
}

/// Decoding is a function of the buffer and the tag name: whatever two
/// decodings of the same buffer for the same name yield is the same, the
/// same bytes or the same failure.
pub proof fn lemma_extract_tag_repeatable(
    buf: Seq<u8>,
    name: Seq<char>,
    first: Result<&[u8], ExifError>,
    second: Result<&[u8], ExifError>,
)
    requires
        outcome_view(first) == tag_value_of(buf, name),
        outcome_view(second) == tag_value_of(buf, name),
    ensures
        match (first, second) {
            (Ok(a), Ok(b)) => a@ == b@,
            (Err(e), Err(f)) => e == f,
            _ => false,
        },
{
}

/// When each failure comes: `HeaderNotFound` exactly when neither signature
/// stands in the buffer; otherwise `UnknownTag` exactly when the dictionary
/// does not hold the name; otherwise `TagNotFound` exactly when the
/// identifier bytes, in the header's byte order, do not stand in the buffer.
pub proof fn lemma_tag_value_failures(buf: Seq<u8>, name: Seq<char>)
    ensures
        tag_value_of(buf, name) == Err::<Seq<u8>, ExifError>(ExifError::HeaderNotFound) <==> {
            &&& !occurs(buf, signature(ByteOrder::LittleEndian))
            &&& !occurs(buf, signature(ByteOrder::BigEndian))
        },
        tag_value_of(buf, name) == Err::<Seq<u8>, ExifError>(ExifError::UnknownTag) <==> {
            &&& header_of(buf) is Some
            &&& !is_known_tag(name)
        },
        tag_value_of(buf, name) == Err::<Seq<u8>, ExifError>(ExifError::TagNotFound) <==> {
            &&& header_of(buf) is Some
            &&& is_known_tag(name)
            &&& !occurs(buf, oriented_id(name, header_of(buf).unwrap().1).unwrap())
        },
{
    lemma_header_of_props(buf);
    match header_of(buf) {
        None => {},
        Some((offset, order)) => {
            assert(occurs(buf, signature(order)));
            match oriented_id(name, order) {
                None => {},
                Some(tag) => {
                    lemma_first_occurrence_props(buf, tag);
                },
            }
        },
    }
}

/// A value that is yielded lies inside the buffer, and a value that would
/// reach past the buffer's end is refused: with the entry at index `at`, the
/// outcome is `OutOfRange` exactly when the entry or the value ends after the
/// buffer does, and otherwise the bytes from `start` to `end`.
pub proof fn lemma_tag_data_bounds(buf: Seq<u8>, offset: int, tag: Seq<u8>, order: ByteOrder)
    requires
        0 <= offset,
        first_occurrence(buf, tag) is Some,
    ensures
        ({
            let at = first_occurrence(buf, tag).unwrap();
            let start = offset + entry_value(buf, at, order);
            let end = start + entry_len(buf, at, order);
            &&& 0 <= start <= end
            &&& tag_data_of(buf, offset, tag, order) == Err::<Seq<u8>, ExifError>(
                ExifError::OutOfRange,
            ) <==> at + 12 > buf.len() || end > buf.len()
            &&& tag_data_of(buf, offset, tag, order) is Ok <==> at + 12 <= buf.len() && end
                <= buf.len()
            &&& tag_data_of(buf, offset, tag, order) is Ok ==> tag_data_of(
                buf,
                offset,
                tag,
                order,
            ).unwrap() == buf.subrange(start, end) && tag_data_of(
                buf,
                offset,
                tag,
                order,
            ).unwrap().len() == entry_count(buf, at, order) * width_of(entry_type(buf, at, order))
        }),
{
    let at = first_occurrence(buf, tag).unwrap();
    let width = width_of(entry_type(buf, at, order));
    let count = entry_count(buf, at, order);
    assert(0 <= count * width) by (nonlinear_arith)
        requires
            0 <= count,
            1 <= width,
    ;
}

} // verus!
