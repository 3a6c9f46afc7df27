//! The primitive codecs: GUID layouts and the FILETIME round-trip.

use lnk_codec::filetime::{read_filetime, write_filetime, FileTime};
use lnk_codec::guid::{read_guid_be, read_guid_le, write_guid_be, write_guid_le, Guid};

fn sample_guid() -> Guid {
    Guid {
        data1: 0x67e55044,
        data2: 0x10b1,
        data3: 0x426f,
        data4: [0x92, 0x47, 0xbb, 0x68, 0x0e, 0x5f, 0xe0, 0xc8],
    }
}

#[test]
fn guid_test_guid_be() {
    let mut cursor: Vec<u8> = Vec::new();
    let input = sample_guid();

    write_guid_be(&mut cursor, &input);
    assert_eq!(cursor.len(), 16);
    let output = read_guid_be(&cursor, 0);
    assert_eq!(input, output);
}

#[test]
fn guid_test_guid_le() {
    let mut cursor: Vec<u8> = Vec::new();
    let input = sample_guid();

    write_guid_le(&mut cursor, &input);
    assert_eq!(cursor.len(), 16);
    let output = read_guid_le(&cursor, 0);
    assert_eq!(input, output);
}

fn test_data() -> FileTime {
    FileTime::new(123456789000u64)
}

#[test]
fn filetime_test_guid_be() {
    let mut cursor: Vec<u8> = Vec::new();
    let input = test_data();

    write_filetime(&mut cursor, &input);
    cursor.resize(16, 0);
    let output = read_filetime(&cursor, 0);
    assert_eq!(input.datetime(), output.datetime());
    assert_eq!(input.raw(), output.raw());
}

#[test]
fn filetime_test_guid_le() {
    let mut cursor: Vec<u8> = Vec::new();
    let input = test_data();

    write_filetime(&mut cursor, &input);
    cursor.resize(16, 0);
    let output = read_filetime(&cursor, 0);
    assert_eq!(input.datetime(), output.datetime());
    assert_eq!(input.raw(), output.raw());
}

#[test]
fn guid_le_wire_form() {
    let mut out: Vec<u8> = Vec::new();
    write_guid_le(&mut out, &sample_guid());
    assert_eq!(
        out,
        vec![
            0x44, 0x50, 0xE5, 0x67, 0xB1, 0x10, 0x6F, 0x42, 0x92, 0x47, 0xBB, 0x68, 0x0E, 0x5F,
            0xE0, 0xC8
        ]
    );
}

#[test]
fn guid_be_wire_form() {
    let mut out: Vec<u8> = Vec::new();
    write_guid_be(&mut out, &sample_guid());
    assert_eq!(
        out,
        vec![
            0x67, 0xE5, 0x50, 0x44, 0x10, 0xB1, 0x42, 0x6F, 0x92, 0x47, 0xBB, 0x68, 0x0E, 0x5F,
            0xE0, 0xC8
        ]
    );
}

#[test]
fn filetime_zero_is_unset() {
    let t = FileTime::default();
    assert_eq!(t.raw(), 0);
    let civil = t.datetime();
    assert_eq!(civil.year, 1601);
    assert_eq!(civil.month, 1);
    assert_eq!(civil.day, 1);
    assert_eq!(civil.hour, 0);
    assert_eq!(civil.minute, 0);
    assert_eq!(civil.second, 0);
}

#[test]
fn filetime_known_instant() {
    // 2013-10-19 12:16:53.276040 UTC, a documented reference tick count.
    let raw: &[u8] = &[0x53, 0xC7, 0x8B, 0x18, 0xC5, 0xCC, 0xCE, 0x01];
    let t = read_filetime(raw, 0);
    let civil = t.datetime();
    assert_eq!(civil.year, 2013);
    assert_eq!(civil.month, 10);
    assert_eq!(civil.day, 19);
    assert_eq!(civil.hour, 12);
    assert_eq!(civil.minute, 16);
    assert_eq!(civil.second, 53);
}

#[test]
fn current_offset_captures_position() {
    let marker = lnk_codec::current_offset::read_current_offset(76);
    assert_eq!(marker.value(), 76);
    assert_eq!(marker, lnk_codec::current_offset::CurrentOffset(76));
}
