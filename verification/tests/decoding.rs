use exif_tag::byte_order::{u8array_integer, ByteOrder};
use exif_tag::error::ExifError;
use exif_tag::extract::{data_len, extract_tag, tag_data};
use exif_tag::header::locate_header;
use exif_tag::search::addr_of_header;
use exif_tag::sizes::{total_len, unit_width};
use exif_tag::tags::resolve_ifd0;

const PAYLOAD: &[u8; 20] = b"2024:01:02 03:04:05\0";
const PREFIX: &[u8; 6] = b"Exif\0\0";

fn little_endian_document() -> Vec<u8> {
    let mut buf: Vec<u8> = Vec::new();
    buf.extend_from_slice(PREFIX);
    buf.extend_from_slice(&[0x49, 0x49, 0x2A, 0x00, 0x08, 0x00, 0x00, 0x00]);
    buf.extend_from_slice(&[0x01, 0x00]);
    buf.extend_from_slice(&[0x32, 0x01, 0x02, 0x00, 0x14, 0x00, 0x00, 0x00, 0x1A, 0x00, 0x00, 0x00]);
    buf.extend_from_slice(&[0x00, 0x00, 0x00, 0x00]);
    buf.extend_from_slice(PAYLOAD);
    buf
}

fn big_endian_document() -> Vec<u8> {
    let mut buf: Vec<u8> = Vec::new();
    buf.extend_from_slice(PREFIX);
    buf.extend_from_slice(&[0x4D, 0x4D, 0x00, 0x2A, 0x00, 0x00, 0x00, 0x08]);
    buf.extend_from_slice(&[0x00, 0x01]);
    buf.extend_from_slice(&[0x01, 0x32, 0x00, 0x02, 0x00, 0x00, 0x00, 0x14, 0x00, 0x00, 0x00, 0x1A]);
    buf.extend_from_slice(&[0x00, 0x00, 0x00, 0x00]);
    buf.extend_from_slice(PAYLOAD);
    buf
}

/// A header at index 0 followed by one entry for `DateTime` with the given
/// field type, unit count and value field, least-significant byte first.
fn document_with_entry(type_code: u16, count: u32, value: u32, tail: usize) -> Vec<u8> {
    let mut buf: Vec<u8> = Vec::new();
    buf.extend_from_slice(&[0x49, 0x49, 0x2A, 0x00, 0x08, 0x00, 0x00, 0x00]);
    buf.extend_from_slice(&[0x32, 0x01]);
    buf.extend_from_slice(&type_code.to_le_bytes());
    buf.extend_from_slice(&count.to_le_bytes());
    buf.extend_from_slice(&value.to_le_bytes());
    for i in 0..tail {
        buf.push(0xA0 + (i % 16) as u8);
    }
    buf
}

#[test]
fn little_endian_date_time_is_extracted() {
    let buf = little_endian_document();
    let data = extract_tag(&buf, "DateTime");
    assert_eq!(data, Ok(&PAYLOAD[..]));
    assert_eq!(String::from_utf8(data.unwrap().to_vec()).unwrap(), "2024:01:02 03:04:05\0");
}

#[test]
fn big_endian_date_time_is_extracted() {
    let buf = big_endian_document();
    assert_eq!(locate_header(&buf), Ok((6, ByteOrder::BigEndian)));
    let data = extract_tag(&buf, "DateTime");
    assert_eq!(data, Ok(&PAYLOAD[..]));
    let little = little_endian_document();
    let text_big = String::from_utf8(data.unwrap().to_vec()).unwrap();
    let text_little = String::from_utf8(extract_tag(&little, "DateTime").unwrap().to_vec()).unwrap();
    assert_eq!(text_big, text_little);
}

#[test]
fn big_endian_tag_data_with_explicit_order() {
    let buf = big_endian_document();
    let data = tag_data(&buf, 6, &[0x01, 0x32], &ByteOrder::BigEndian);
    assert_eq!(data, Ok(&PAYLOAD[..]));
}

#[test]
fn little_endian_tag_data_with_explicit_order() {
    let buf = little_endian_document();
    let data = tag_data(&buf, 6, &[0x32, 0x01], &ByteOrder::LittleEndian);
    assert_eq!(data, Ok(&buf[32..52]));
    assert_eq!(data, Ok(&PAYLOAD[..]));
}

#[test]
fn unknown_names_are_refused() {
    for name in ["", "Foo", "datetime", "DateTime ", " DateTime", "DateTim", "DateTimeOriginal", "Mak", "ExifOffsets", "日時"] {
        assert_eq!(resolve_ifd0(name, &ByteOrder::LittleEndian), Err(ExifError::UnknownTag));
        assert_eq!(resolve_ifd0(name, &ByteOrder::BigEndian), Err(ExifError::UnknownTag));
    }
}

#[test]
fn unknown_name_in_a_document_with_header() {
    let buf = little_endian_document();
    assert_eq!(extract_tag(&buf, "NoSuchTag"), Err(ExifError::UnknownTag));
    let buf = big_endian_document();
    assert_eq!(extract_tag(&buf, ""), Err(ExifError::UnknownTag));
}

#[test]
fn every_dictionary_name_resolves() {
    let entries: [(&str, [u8; 2]); 16] = [
        ("ImageDescription", [0x01, 0x0e]),
        ("Make", [0x01, 0x0f]),
        ("Model", [0x01, 0x10]),
        ("Orientation", [0x01, 0x12]),
        ("XResolution", [0x01, 0x1a]),
        ("YResolution", [0x01, 0x1b]),
        ("ResolutionUnit", [0x01, 0x28]),
        ("Software", [0x01, 0x31]),
        ("DateTime", [0x01, 0x32]),
        ("WhitePoint", [0x01, 0x3e]),
        ("PrimaryChromaticities", [0x01, 0x3f]),
        ("YCbCrCoefficients", [0x02, 0x11]),
        ("YCbCrPositioning", [0x02, 0x13]),
        ("ReferenceBlackWhite", [0x02, 0x14]),
        ("Copyright", [0x82, 0x98]),
        ("ExifOffset", [0x87, 0x69]),
    ];
    for (name, id) in entries {
        assert_eq!(resolve_ifd0(name, &ByteOrder::BigEndian), Ok(id));
        assert_eq!(resolve_ifd0(name, &ByteOrder::LittleEndian), Ok([id[1], id[0]]));
    }
}

#[test]
fn header_not_found_without_signature() {
    assert_eq!(locate_header(&[]), Err(ExifError::HeaderNotFound));
    assert_eq!(extract_tag(&[], "DateTime"), Err(ExifError::HeaderNotFound));
    let buf: Vec<u8> = vec![0x49, 0x49, 0x2A, 0x00, 0x08, 0x00, 0x00, 0x32, 0x01, 0x4D, 0x4D, 0x00, 0x2A];
    assert_eq!(locate_header(&buf), Err(ExifError::HeaderNotFound));
    assert_eq!(extract_tag(&buf, "DateTime"), Err(ExifError::HeaderNotFound));
}

#[test]
fn header_not_found_comes_before_unknown_tag() {
    let buf: Vec<u8> = vec![1, 2, 3, 4, 5, 6, 7, 8, 9];
    assert_eq!(extract_tag(&buf, "NoSuchTag"), Err(ExifError::HeaderNotFound));
}

#[test]
fn tag_not_found_when_identifier_is_absent() {
    let buf = little_endian_document();
    assert_eq!(extract_tag(&buf, "Make"), Err(ExifError::TagNotFound));
    assert_eq!(extract_tag(&buf, "Copyright"), Err(ExifError::TagNotFound));
    let buf = big_endian_document();
    assert_eq!(extract_tag(&buf, "Model"), Err(ExifError::TagNotFound));
    assert_eq!(tag_data(&buf, 6, &[0x32, 0x01], &ByteOrder::BigEndian), Err(ExifError::TagNotFound));
    assert_eq!(data_len(&buf, &[0x32, 0x01], &ByteOrder::BigEndian), Err(ExifError::TagNotFound));
}

#[test]
fn header_only_document_has_no_tag() {
    let buf: Vec<u8> = vec![0x4D, 0x4D, 0x00, 0x2A, 0x00, 0x00, 0x00, 0x08];
    assert_eq!(locate_header(&buf), Ok((0, ByteOrder::BigEndian)));
    assert_eq!(extract_tag(&buf, "DateTime"), Err(ExifError::TagNotFound));
}

#[test]
fn widths_follow_the_table() {
    let table: [(u16, u64); 12] = [
        (1, 1), (2, 1), (3, 2), (4, 4), (5, 8), (6, 1),
        (7, 1), (8, 2), (9, 4), (10, 8), (11, 4), (12, 8),
    ];
    for (code, width) in table {
        assert_eq!(unit_width(code), width);
        for count in [0u32, 1, 7, 20, 65_536, u32::MAX] {
            assert_eq!(total_len(code, count), count as u64 * width);
        }
    }
}

#[test]
fn unknown_type_codes_count_one_byte_per_unit() {
    for code in [0u16, 13, 99, 255, 256, u16::MAX] {
        assert_eq!(unit_width(code), 1);
        assert_eq!(total_len(code, 0), 0);
        assert_eq!(total_len(code, 7), 7);
        assert_eq!(total_len(code, u32::MAX), 4_294_967_295);
    }
    assert_eq!(total_len(99, 20), 20);
}

#[test]
fn total_length_exact_values() {
    assert_eq!(total_len(2, 20), 20);
    assert_eq!(total_len(3, 20), 40);
    assert_eq!(total_len(4, 20), 80);
    assert_eq!(total_len(5, 20), 160);
    assert_eq!(total_len(12, u32::MAX), 34_359_738_360);
}

#[test]
fn decoding_twice_yields_the_same_bytes() {
    let buf = little_endian_document();
    let first = extract_tag(&buf, "DateTime");
    let second = extract_tag(&buf, "DateTime");
    assert_eq!(first, second);
    assert_eq!(first.unwrap().to_vec(), second.unwrap().to_vec());
    assert_eq!(extract_tag(&buf, "Make"), extract_tag(&buf, "Make"));
    let copy = buf.clone();
    assert_eq!(extract_tag(&buf, "DateTime"), extract_tag(&copy, "DateTime"));
}

#[test]
fn value_past_the_end_is_out_of_range() {
    let mut buf = little_endian_document();
    // the value field now points one byte further than the buffer allows
    buf[24] = 0x1B;
    assert_eq!(extract_tag(&buf, "DateTime"), Err(ExifError::OutOfRange));
    buf[24] = 0x1A;
    assert_eq!(extract_tag(&buf, "DateTime"), Ok(&PAYLOAD[..]));
    // one more unit than the buffer holds
    buf[20] = 0x15;
    assert_eq!(extract_tag(&buf, "DateTime"), Err(ExifError::OutOfRange));
}

#[test]
fn largest_fields_are_out_of_range() {
    let buf = document_with_entry(12, u32::MAX, u32::MAX, 64);
    assert_eq!(extract_tag(&buf, "DateTime"), Err(ExifError::OutOfRange));
    let buf = document_with_entry(2, 0, u32::MAX, 64);
    assert_eq!(extract_tag(&buf, "DateTime"), Err(ExifError::OutOfRange));
    let buf = document_with_entry(2, u32::MAX, 0, 64);
    assert_eq!(extract_tag(&buf, "DateTime"), Err(ExifError::OutOfRange));
}

#[test]
fn header_offset_past_the_end_is_out_of_range() {
    let buf = document_with_entry(2, 0, 0, 4);
    assert_eq!(tag_data(&buf, buf.len() + 1, &[0x32, 0x01], &ByteOrder::LittleEndian), Err(ExifError::OutOfRange));
    assert_eq!(tag_data(&buf, usize::MAX, &[0x32, 0x01], &ByteOrder::LittleEndian), Err(ExifError::OutOfRange));
    assert_eq!(tag_data(&buf, usize::MAX, &[0x32, 0x01], &ByteOrder::BigEndian), Err(ExifError::OutOfRange));
}

#[test]
fn truncated_entry_is_out_of_range() {
    let full = document_with_entry(2, 1, 0, 0);
    assert_eq!(full.len(), 20);
    assert_eq!(extract_tag(&full, "DateTime"), Ok(&full[0..1]));
    for cut in 10..20 {
        assert_eq!(extract_tag(&full[..cut], "DateTime"), Err(ExifError::OutOfRange));
    }
    for cut in 10..16 {
        assert_eq!(data_len(&full[..cut], &[0x32, 0x01], &ByteOrder::LittleEndian), Err(ExifError::OutOfRange));
    }
    for cut in 16..=20 {
        assert_eq!(data_len(&full[..cut], &[0x32, 0x01], &ByteOrder::LittleEndian), Ok(1));
    }
}

#[test]
fn empty_value_at_the_very_end() {
    let buf = document_with_entry(2, 0, 24, 4);
    assert_eq!(buf.len(), 24);
    let data = extract_tag(&buf, "DateTime");
    assert_eq!(data, Ok(&buf[24..24]));
    let buf = document_with_entry(2, 0, 25, 4);
    assert_eq!(extract_tag(&buf, "DateTime"), Err(ExifError::OutOfRange));
}

#[test]
fn value_is_measured_from_the_header() {
    let mut buf: Vec<u8> = vec![0xEE; 5];
    buf.extend_from_slice(&document_with_entry(3, 2, 20, 8));
    assert_eq!(locate_header(&buf), Ok((5, ByteOrder::LittleEndian)));
    assert_eq!(extract_tag(&buf, "DateTime"), Ok(&[0xA0u8, 0xA1, 0xA2, 0xA3][..]));
    assert_eq!(tag_data(&buf, 0, &[0x32, 0x01], &ByteOrder::LittleEndian), Ok(&buf[20..24]));
    assert_eq!(tag_data(&buf, 9, &[0x32, 0x01], &ByteOrder::LittleEndian), Ok(&buf[29..33]));
    assert_eq!(tag_data(&buf, 10, &[0x32, 0x01], &ByteOrder::LittleEndian), Err(ExifError::OutOfRange));
}

#[test]
fn data_len_reads_type_and_count() {
    let buf = little_endian_document();
    assert_eq!(data_len(&buf, &[0x32, 0x01], &ByteOrder::LittleEndian), Ok(20));
    let buf = big_endian_document();
    assert_eq!(data_len(&buf, &[0x01, 0x32], &ByteOrder::BigEndian), Ok(20));
    let buf = document_with_entry(5, 3, 0, 0);
    assert_eq!(data_len(&buf, &[0x32, 0x01], &ByteOrder::LittleEndian), Ok(24));
    let buf = document_with_entry(99, 3, 0, 0);
    assert_eq!(data_len(&buf, &[0x32, 0x01], &ByteOrder::LittleEndian), Ok(3));
    // read most-significant byte first, the same fields are type 0x6300 and count 0x0300_0000
    assert_eq!(data_len(&buf, &[0x32, 0x01], &ByteOrder::BigEndian), Ok(0x0300_0000));
}

#[test]
fn integers_least_significant_byte_first() {
    assert_eq!(u8array_integer(&[], &ByteOrder::LittleEndian), 0);
    assert_eq!(u8array_integer(&[0x14], &ByteOrder::LittleEndian), 20);
    assert_eq!(u8array_integer(&[0x14, 0x00], &ByteOrder::LittleEndian), 20);
    assert_eq!(u8array_integer(&[0x34, 0x12], &ByteOrder::LittleEndian), 0x1234);
    assert_eq!(u8array_integer(&[0x56, 0x34, 0x12], &ByteOrder::LittleEndian), 0x12_3456);
    assert_eq!(u8array_integer(&[0x78, 0x56, 0x34, 0x12], &ByteOrder::LittleEndian), 0x1234_5678);
    assert_eq!(u8array_integer(&[0xFF, 0xFF, 0xFF, 0xFF], &ByteOrder::LittleEndian), 4_294_967_295);
}

#[test]
fn integers_most_significant_byte_first() {
    assert_eq!(u8array_integer(&[], &ByteOrder::BigEndian), 0);
    assert_eq!(u8array_integer(&[0x14], &ByteOrder::BigEndian), 20);
    assert_eq!(u8array_integer(&[0x00, 0x14], &ByteOrder::BigEndian), 20);
    assert_eq!(u8array_integer(&[0x12, 0x34], &ByteOrder::BigEndian), 0x1234);
    assert_eq!(u8array_integer(&[0x12, 0x34, 0x56], &ByteOrder::BigEndian), 0x12_3456);
    assert_eq!(u8array_integer(&[0x12, 0x34, 0x56, 0x78], &ByteOrder::BigEndian), 0x1234_5678);
    assert_eq!(u8array_integer(&[0xFF, 0xFF, 0xFF, 0xFF], &ByteOrder::BigEndian), 4_294_967_295);
}

#[test]
fn big_endian_is_little_endian_reversed() {
    let fields: [&[u8]; 4] = [&[0x01, 0x02], &[0xFE, 0x00, 0x10, 0x7F], &[9], &[1, 2, 3]];
    for field in fields {
        let mut reversed = field.to_vec();
        reversed.reverse();
        assert_eq!(
            u8array_integer(field, &ByteOrder::BigEndian),
            u8array_integer(&reversed, &ByteOrder::LittleEndian)
        );
    }
}

#[test]
fn search_finds_the_first_occurrence() {
    let buf: [u8; 8] = [1, 2, 3, 1, 2, 3, 1, 2];
    assert_eq!(addr_of_header(&buf, &[1, 2]), Some(0));
    assert_eq!(addr_of_header(&buf, &[2, 3]), Some(1));
    assert_eq!(addr_of_header(&buf, &[3, 1, 2, 3]), Some(2));
    assert_eq!(addr_of_header(&buf, &[3, 1, 2]), Some(2));
    assert_eq!(addr_of_header(&buf, &[2]), Some(1));
    assert_eq!(addr_of_header(&buf, &buf), Some(0));
    assert_eq!(addr_of_header(&buf, &[1, 2, 3, 1, 2, 3, 1, 2, 3]), None);
    assert_eq!(addr_of_header(&buf, &[3, 2]), None);
    assert_eq!(addr_of_header(&buf, &[2, 1]), None);
    assert_eq!(addr_of_header(&[], &[1]), None);
    assert_eq!(addr_of_header(&buf[6..], &[1, 2]), Some(0));
    assert_eq!(addr_of_header(&buf[5..], &[1, 2]), Some(1));
}

#[test]
fn the_signature_that_stands_first_decides() {
    let ii: [u8; 8] = [0x49, 0x49, 0x2A, 0x00, 0x08, 0x00, 0x00, 0x00];
    let mm: [u8; 8] = [0x4D, 0x4D, 0x00, 0x2A, 0x00, 0x00, 0x00, 0x08];
    let mut buf: Vec<u8> = vec![0xFF, 0xD8, 0xFF];
    buf.extend_from_slice(&mm);
    buf.extend_from_slice(&[0, 0]);
    buf.extend_from_slice(&ii);
    assert_eq!(locate_header(&buf), Ok((3, ByteOrder::BigEndian)));
    let mut buf: Vec<u8> = vec![0xFF, 0xD8];
    buf.extend_from_slice(&ii);
    buf.extend_from_slice(&mm);
    buf.extend_from_slice(&ii);
    assert_eq!(locate_header(&buf), Ok((2, ByteOrder::LittleEndian)));
    assert_eq!(locate_header(&ii), Ok((0, ByteOrder::LittleEndian)));
    assert_eq!(locate_header(&mm), Ok((0, ByteOrder::BigEndian)));
}

#[test]
fn the_first_entry_with_the_identifier_is_read() {
    let mut buf = document_with_entry(1, 2, 32, 0);
    buf.extend_from_slice(&[0x32, 0x01, 0x01, 0x00, 0x01, 0x00, 0x00, 0x00, 0x00, 0x00, 0x00, 0x00]);
    buf.extend_from_slice(&[0x61, 0x62, 0x63]);
    assert_eq!(extract_tag(&buf, "DateTime"), Ok(&b"ab"[..]));
}
