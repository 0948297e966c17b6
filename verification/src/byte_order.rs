//! Byte order of a TIFF block and the decoding of its unsigned integer fields.

use vstd::prelude::*;

verus! {

/// The byte order that a TIFF header declares for every multi-byte field.
#[derive(Clone, Copy, Debug, PartialEq, Eq, Structural)]
pub enum ByteOrder {
    /// Least-significant byte first (signature "II").
    LittleEndian,
    /// Most-significant byte first (signature "MM").
    BigEndian,
}

/// The number that `s` encodes least-significant byte first:
/// the sum of `s[i] * 256^i`.
pub open spec fn le_value(s: Seq<u8>) -> nat
    decreases s.len(),
{
    if s.len() == 0 {
        0
    } else {
        s[0] as nat + 256 * le_value(s.drop_first())
    }
}

/// The number that `s` encodes most-significant byte first:
/// the sum of `s[i] * 256^(n-1-i)`, where `n` is the length of `s`.
pub open spec fn be_value(s: Seq<u8>) -> nat
    decreases s.len(),
{
    if s.len() == 0 {
        0
    } else {
        256 * be_value(s.drop_last()) + s.last() as nat
    }
}

/// The number that the field `s` encodes in the given byte order.
pub open spec fn decode_uint(s: Seq<u8>, order: ByteOrder) -> nat {
    match order {
        ByteOrder::LittleEndian => le_value(s),
        ByteOrder::BigEndian => be_value(s),
    }
}

/// The largest number that a field of `len` bytes can encode, for `len <= 4`.
pub open spec fn field_max(len: int) -> nat {
    if len <= 0 {
        0
    } else if len == 1 {
        0xff
    } else if len == 2 {
        0xffff
    } else if len == 3 {
        0xff_ffff
    } else {
        0xffff_ffff
    }
}

/// A field of at most four bytes encodes a number no larger than `field_max`.
pub proof fn lemma_decode_uint_bound(s: Seq<u8>, order: ByteOrder)
    requires
        s.len() <= 4,
    ensures
        decode_uint(s, order) <= field_max(s.len() as int),
    decreases s.len(),
{
    if s.len() > 0 {
        match order {
            ByteOrder::LittleEndian => lemma_decode_uint_bound(s.drop_first(), order),
            ByteOrder::BigEndian => lemma_decode_uint_bound(s.drop_last(), order),
        }
    }
}

/// Decoding most-significant byte first is decoding the reversed field
/// least-significant byte first.
pub proof fn lemma_be_is_le_reversed(s: Seq<u8>)
    ensures
        be_value(s) == le_value(s.reverse()),
    decreases s.len(),
{
    if s.len() > 0 {
        lemma_be_is_le_reversed(s.drop_last());
        assert(s.reverse().drop_first() =~= s.drop_last().reverse());
        assert(s.reverse()[0] == s.last());
    }
}

/// The closed forms of the two field widths that a directory entry uses.
pub proof fn lemma_decode_uint_fixed_widths(s: Seq<u8>)
    ensures
        s.len() == 2 ==> le_value(s) == s[0] + 256 * s[1],
        s.len() == 2 ==> be_value(s) == 256 * s[0] + s[1],
        s.len() == 4 ==> le_value(s) == s[0] + 256 * s[1] + 65536 * s[2] + 16777216 * s[3],
        s.len() == 4 ==> be_value(s) == 16777216 * s[0] + 65536 * s[1] + 256 * s[2] + s[3],
{
    reveal_with_fuel(le_value, 5);
    reveal_with_fuel(be_value, 5);
    if s.len() == 2 {
        assert(s.drop_first().drop_first().len() == 0);
        assert(s.drop_last().drop_last().len() == 0);
    }
    if s.len() == 4 {
        assert(s.drop_first().drop_first().drop_first().drop_first().len() == 0);
        assert(s.drop_last().drop_last().drop_last().drop_last().len() == 0);
    }
}

/// Decodes a field of at most four bytes as an unsigned integer in the given
/// byte order.
pub fn u8array_integer(b: &[u8], o: &ByteOrder) -> (value: usize)
    requires
        b@.len() <= 4,
    ensures
        value as nat == decode_uint(b@, *o),
{
    let n: usize = b.len();
    let mut acc: u64 = 0;
    match o {
        ByteOrder::LittleEndian => {
            let mut i: usize = n;
            while i > 0
                invariant
                    n == b@.len(),
                    n <= 4,
                    i <= n,
                    acc as nat == le_value(b@.skip(i as int)),
                decreases i,
            {
                proof {
                    lemma_decode_uint_bound(b@.skip(i as int), ByteOrder::LittleEndian);
                    assert(b@.skip(i as int).len() <= 3);
                }
                i = i - 1;
                proof {
                    assert(b@.skip(i as int).drop_first() =~= b@.skip(i as int + 1));
                }
                acc = acc * 256 + b[i] as u64;
            }
            proof {
                assert(b@.skip(0) =~= b@);
            }
        },
        ByteOrder::BigEndian => {
            let mut i: usize = 0;
            while i < n
                invariant
                    n == b@.len(),
                    n <= 4,
                    i <= n,
                    acc as nat == be_value(b@.take(i as int)),
                decreases n - i,
            {
                proof {
                    lemma_decode_uint_bound(b@.take(i as int), ByteOrder::BigEndian);
                    assert(b@.take(i as int).len() <= 3);
                    assert(b@.take(i as int + 1).drop_last() =~= b@.take(i as int));
                }
                acc = acc * 256 + b[i] as u64;
                i = i + 1;
            }
            proof {
                assert(b@.take(n as int) =~= b@);
            }
        },
    }
    proof {
        lemma_decode_uint_bound(b@, *o);
    }
    acc as usize
}

} // verus!
