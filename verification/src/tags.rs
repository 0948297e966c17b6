//! The dictionary of tag names of the first image file directory.

use vstd::prelude::*;
use vstd::string::*;
use crate::byte_order::ByteOrder;
use crate::error::ExifError;

verus! {

/// The identifier of the tag called `name`, most-significant byte first, or
/// nothing where the dictionary does not hold the name.
pub open spec fn canonical_id(name: Seq<char>) -> Option<(u8, u8)> {
    if name == "ImageDescription"@ {
        Some((0x01u8, 0x0eu8))
    } else if name == "Make"@ {
        Some((0x01u8, 0x0fu8))
    } else if name == "Model"@ {
        Some((0x01u8, 0x10u8))
    } else if name == "Orientation"@ {
        Some((0x01u8, 0x12u8))
    } else if name == "XResolution"@ {
        Some((0x01u8, 0x1au8))
    } else if name == "YResolution"@ {
        Some((0x01u8, 0x1bu8))
    } else if name == "ResolutionUnit"@ {
        Some((0x01u8, 0x28u8))
    } else if name == "Software"@ {
        Some((0x01u8, 0x31u8))
    } else if name == "DateTime"@ {
        Some((0x01u8, 0x32u8))
    } else if name == "WhitePoint"@ {
        Some((0x01u8, 0x3eu8))
    } else if name == "PrimaryChromaticities"@ {
        Some((0x01u8, 0x3fu8))
    } else if name == "YCbCrCoefficients"@ {
        Some((0x02u8, 0x11u8))
    } else if name == "YCbCrPositioning"@ {
        Some((0x02u8, 0x13u8))
    } else if name == "ReferenceBlackWhite"@ {
        Some((0x02u8, 0x14u8))
    } else if name == "Copyright"@ {
        Some((0x82u8, 0x98u8))
    } else if name == "ExifOffset"@ {
        Some((0x87u8, 0x69u8))
    } else {
        None
    }
}

/// The dictionary holds `name`.
pub open spec fn is_known_tag(name: Seq<char>) -> bool {
    canonical_id(name) is Some
}

/// The two bytes of an identifier as a buffer in the given byte order holds
/// them: as the dictionary stores them where the most-significant byte comes
/// first, swapped where the least-significant byte comes first.
pub open spec fn oriented(id: (u8, u8), order: ByteOrder) -> Seq<u8> {
    match order {
        ByteOrder::BigEndian => seq![id.0, id.1],
        ByteOrder::LittleEndian => seq![id.1, id.0],
    }
}

/// The identifier bytes of the tag called `name` as a buffer in the given
/// byte order holds them, or nothing for an unknown name.
pub open spec fn oriented_id(name: Seq<char>, order: ByteOrder) -> Option<Seq<u8>> {
    match canonical_id(name) {
        Some(id) => Some(oriented(id, order)),
        None => None,
    }
}

/// The two byte orders hold an identifier in reverse of one another.
pub proof fn lemma_oriented_reverses(id: (u8, u8))
    ensures
        oriented(id, ByteOrder::LittleEndian) == oriented(id, ByteOrder::BigEndian).reverse(),
        oriented(id, ByteOrder::BigEndian) == oriented(id, ByteOrder::LittleEndian).reverse(),
{
    assert(oriented(id, ByteOrder::LittleEndian) =~= oriented(id, ByteOrder::BigEndian).reverse());
    assert(oriented(id, ByteOrder::BigEndian) =~= oriented(id, ByteOrder::LittleEndian).reverse());
}

/// The dictionary's sixteen names, each with its identifier.
pub proof fn lemma_dictionary_entries()
    ensures
        canonical_id("ImageDescription"@) == Some((0x01u8, 0x0eu8)),
        canonical_id("Make"@) == Some((0x01u8, 0x0fu8)),
        canonical_id("Model"@) == Some((0x01u8, 0x10u8)),
        canonical_id("Orientation"@) == Some((0x01u8, 0x12u8)),
        canonical_id("XResolution"@) == Some((0x01u8, 0x1au8)),
        canonical_id("YResolution"@) == Some((0x01u8, 0x1bu8)),
        canonical_id("ResolutionUnit"@) == Some((0x01u8, 0x28u8)),
        canonical_id("Software"@) == Some((0x01u8, 0x31u8)),
        canonical_id("DateTime"@) == Some((0x01u8, 0x32u8)),
        canonical_id("WhitePoint"@) == Some((0x01u8, 0x3eu8)),
        canonical_id("PrimaryChromaticities"@) == Some((0x01u8, 0x3fu8)),
        canonical_id("YCbCrCoefficients"@) == Some((0x02u8, 0x11u8)),
        canonical_id("YCbCrPositioning"@) == Some((0x02u8, 0x13u8)),
        canonical_id("ReferenceBlackWhite"@) == Some((0x02u8, 0x14u8)),
        canonical_id("Copyright"@) == Some((0x82u8, 0x98u8)),
        canonical_id("ExifOffset"@) == Some((0x87u8, 0x69u8)),
{
    reveal_strlit("ImageDescription");
    reveal_strlit("Make");
    reveal_strlit("Model");
    reveal_strlit("Orientation");
    reveal_strlit("XResolution");
    reveal_strlit("YResolution");
    reveal_strlit("ResolutionUnit");
    reveal_strlit("Software");
    reveal_strlit("DateTime");
    reveal_strlit("WhitePoint");
    reveal_strlit("PrimaryChromaticities");
    reveal_strlit("YCbCrCoefficients");
    reveal_strlit("YCbCrPositioning");
    reveal_strlit("ReferenceBlackWhite");
    reveal_strlit("Copyright");
    reveal_strlit("ExifOffset");
    assert("ImageDescription"@.len() == 16);
    assert("Make"@.len() == 4);
    assert("Model"@.len() == 5);
    assert("Orientation"@.len() == 11);
    assert("XResolution"@.len() == 11);
    assert("YResolution"@.len() == 11);
    assert("ResolutionUnit"@.len() == 14);
    assert("Software"@.len() == 8);
    assert("DateTime"@.len() == 8);
    assert("WhitePoint"@.len() == 10);
    assert("PrimaryChromaticities"@.len() == 21);
    assert("YCbCrCoefficients"@.len() == 17);
    assert("YCbCrPositioning"@.len() == 16);
    assert("ReferenceBlackWhite"@.len() == 19);
    assert("Copyright"@.len() == 9);
    assert("ExifOffset"@.len() == 10);
    assert("Orientation"@[0] != "XResolution"@[0]);
    assert("Orientation"@[0] != "YResolution"@[0]);
    assert("XResolution"@[0] != "YResolution"@[0]);
    assert("Software"@[0] != "DateTime"@[0]);
    assert("ImageDescription"@[0] != "YCbCrPositioning"@[0]);
    assert("WhitePoint"@[0] != "ExifOffset"@[0]);
}

/// Tells whether two strings hold the same characters.
fn str_eq(a: &str, b: &str) -> (same: bool)
    ensures
        same == (a@ == b@),
{
    let n: usize = a.unicode_len();
    if n != b.unicode_len() {
        return false;
    }
    let mut i: usize = 0;
    while i < n
        invariant
            n == a@.len(),
            n == b@.len(),
            i <= n,
            forall|k: int| 0 <= k < i ==> a@[k] == b@[k],
        decreases n - i,
    {
        if a.get_char(i) != b.get_char(i) {
            return false;
        }
        i = i + 1;
    }
    proof {
        assert(a@ =~= b@);
    }
    true
}

/// Looks `key` up in the dictionary.
fn lookup(key: &str) -> (id: Option<(u8, u8)>)
    ensures
        id == canonical_id(key@),
{
    if str_eq(key, "ImageDescription") {
        Some((0x01u8, 0x0eu8))
    } else if str_eq(key, "Make") {
        Some((0x01u8, 0x0fu8))
    } else if str_eq(key, "Model") {
        Some((0x01u8, 0x10u8))
    } else if str_eq(key, "Orientation") {
        Some((0x01u8, 0x12u8))
    } else if str_eq(key, "XResolution") {
        Some((0x01u8, 0x1au8))
    } else if str_eq(key, "YResolution") {
        Some((0x01u8, 0x1bu8))
    } else if str_eq(key, "ResolutionUnit") {
        Some((0x01u8, 0x28u8))
    } else if str_eq(key, "Software") {
        Some((0x01u8, 0x31u8))
    } else if str_eq(key, "DateTime") {
        Some((0x01u8, 0x32u8))
    } else if str_eq(key, "WhitePoint") {
        Some((0x01u8, 0x3eu8))
    } else if str_eq(key, "PrimaryChromaticities") {
        Some((0x01u8, 0x3fu8))
    } else if str_eq(key, "YCbCrCoefficients") {
        Some((0x02u8, 0x11u8))
    } else if str_eq(key, "YCbCrPositioning") {
        Some((0x02u8, 0x13u8))
    } else if str_eq(key, "ReferenceBlackWhite") {
        Some((0x02u8, 0x14u8))
    } else if str_eq(key, "Copyright") {
        Some((0x82u8, 0x98u8))
    } else if str_eq(key, "ExifOffset") {
        Some((0x87u8, 0x69u8))
    } else {
        None
    }
}

/// Resolves a tag name to its identifier bytes as a buffer in the byte order
/// `o` holds them. Fails with `UnknownTag` exactly for the names that the
/// dictionary does not hold.
pub fn resolve_ifd0(key: &str, o: &ByteOrder) -> (resolved: Result<[u8; 2], ExifError>)
    ensures
        match resolved {
            Ok(id) => oriented_id(key@, *o) == Some(id@),
            Err(e) => e == ExifError::UnknownTag && !is_known_tag(key@),
        },
{
    match lookup(key) {
        Some(id) => {
            let bytes: [u8; 2] = match o {
                ByteOrder::BigEndian => [id.0, id.1],
                ByteOrder::LittleEndian => [id.1, id.0],
            };
            proof {
                assert(bytes@ =~= oriented(id, *o));
            }
            Ok(bytes)
        },
        None => Err(ExifError::UnknownTag),
    }
}

} // verus!
