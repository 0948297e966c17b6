//! Byte widths of the EXIF field types and the length of a tag's value.

use vstd::prelude::*;

verus! {

/// The number of bytes that one unit of the field type `type_code` takes.
/// A code outside 1 to 12 counts as one byte per unit.
pub open spec fn width_of(type_code: int) -> int {
    if type_code == 3 || type_code == 8 {
        2
    } else if type_code == 4 || type_code == 9 || type_code == 11 {
        4
    } else if type_code == 5 || type_code == 10 || type_code == 12 {
        8
    } else {
        1
    }
}

/// The number of bytes that `count` units of the field type `type_code` take.
pub open spec fn payload_len(type_code: int, count: int) -> int {
    count * width_of(type_code)
}

/// The width table, code by code.
pub proof fn lemma_width_table(type_code: int)
    ensures
        type_code == 1 || type_code == 2 || type_code == 6 || type_code == 7 ==> width_of(
            type_code,
        ) == 1,
        type_code == 3 || type_code == 8 ==> width_of(type_code) == 2,
        type_code == 4 || type_code == 9 || type_code == 11 ==> width_of(type_code) == 4,
        type_code == 5 || type_code == 10 || type_code == 12 ==> width_of(type_code) == 8,
        type_code < 1 || type_code > 12 ==> width_of(type_code) == 1,
        1 <= width_of(type_code) <= 8,
{
}

/// The byte width of one unit of the field type `type_code`.
pub fn unit_width(type_code: u16) -> (width: u64)
    ensures
        width == width_of(type_code as int),
        1 <= width <= 8,
{
    match type_code {
        1 | 2 | 6 | 7 => 1,
        3 | 8 => 2,
        4 | 9 | 11 => 4,
        5 | 10 | 12 => 8,
        _ => 1,
    }
}

/// The total byte length of a value of `count` units of the field type
/// `type_code`.
pub fn total_len(type_code: u16, count: u32) -> (total: u64)
    ensures
        total == payload_len(type_code as int, count as int),
        total == count * width_of(type_code as int),
        count <= total <= 8 * count,
{
    let width: u64 = unit_width(type_code);
    assert(count * width <= 8 * count) by (nonlinear_arith)
        requires
            1 <= width <= 8,
            0 <= count,
    ;
    assert(count <= count * width) by (nonlinear_arith)
        requires
            1 <= width <= 8,
            0 <= count,
    ;
    count as u64 * width
}

} // verus!
