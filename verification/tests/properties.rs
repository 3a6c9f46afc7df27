//! Cross-cutting properties: presence round-trips over every flag
//! permutation, every extension block kind, and encoding selection.

use lnk_codec::itemid::ItemID;
use lnk_codec::linktarget::LinkTargetIdList;
use lnk_codec::strings::CodePage;
use lnk_codec::{Error, ShellLink};

fn header_bytes(flags: u32) -> Vec<u8> {
    let mut v = vec![0x4C, 0, 0, 0];
    v.extend_from_slice(&[
        0x01, 0x14, 0x02, 0x00, 0x00, 0x00, 0x00, 0x00, 0xC0, 0x00, 0x00, 0x00, 0x00, 0x00, 0x00,
        0x46,
    ]);
    v.extend_from_slice(&flags.to_le_bytes());
    v.extend_from_slice(&[0; 4]);
    v.extend_from_slice(&[0; 24]);
    v.extend_from_slice(&[0; 4]);
    v.extend_from_slice(&[0; 4]);
    v.extend_from_slice(&[1, 0, 0, 0]);
    v.extend_from_slice(&[0; 2]);
    v.extend_from_slice(&[0; 10]);
    v
}

fn sample_link_info() -> lnk_codec::linkinfo::LinkInfo {
    let mut li: Vec<u8> = Vec::new();
    li.extend_from_slice(&55u32.to_le_bytes());
    li.extend_from_slice(&0x1Cu32.to_le_bytes());
    li.extend_from_slice(&1u32.to_le_bytes());
    li.extend_from_slice(&37u32.to_le_bytes());
    li.extend_from_slice(&32u32.to_le_bytes());
    li.extend_from_slice(&0u32.to_le_bytes());
    li.extend_from_slice(&28u32.to_le_bytes());
    li.extend_from_slice(b"sfx\0");
    li.extend_from_slice(b"base\0");
    li.extend_from_slice(&18u32.to_le_bytes());
    li.extend_from_slice(&3u32.to_le_bytes());
    li.extend_from_slice(&0x12345678u32.to_le_bytes());
    li.extend_from_slice(&0x10u32.to_le_bytes());
    li.extend_from_slice(b"V\0");
    let mut data = header_bytes(0x02);
    data.extend_from_slice(&li);
    let link = ShellLink::parse(&data, CodePage::Windows1252).expect("the sample link information parses");
    link.link_info().clone().expect("the link information is present")
}

/// Writing and then reading a link preserves the presence pattern and
/// the contents of every flag-gated structure, for every permutation
/// of the seven presence-gating bits.
#[test]
fn presence_round_trip_all_permutations() {
    let info = sample_link_info();
    for mask in 0u32..128 {
        let mut link = ShellLink::default();
        if mask & 1 != 0 {
            link.linktarget_id_list = Some(LinkTargetIdList {
                size: 6,
                items: vec![ItemID::new(vec![0xAA, 0xBB])],
            });
        }
        if mask & 2 != 0 {
            link.link_info = Some(info.clone());
        }
        if mask & 4 != 0 {
            link.set_name(Some("a name".to_owned()));
        }
        if mask & 8 != 0 {
            link.set_relative_path(Some(".\\target".to_owned()));
        }
        if mask & 16 != 0 {
            link.set_working_dir(Some("C:\\work".to_owned()));
        }
        if mask & 32 != 0 {
            link.set_arguments(Some("--flag".to_owned()));
        }
        if mask & 64 != 0 {
            link.set_icon_location(Some("icon.dll".to_owned()));
        }
        let out = link.to_bytes(CodePage::Windows1252).expect("every permutation encodes");
        let back = ShellLink::parse(&out, CodePage::Windows1252).expect("every permutation parses back");
        assert_eq!(
            back.linktarget_id_list().is_some(),
            mask & 1 != 0,
            "permutation {}",
            mask
        );
        assert_eq!(back.link_info().is_some(), mask & 2 != 0, "permutation {}", mask);
        if mask & 1 != 0 {
            assert_eq!(back.linktarget_id_list().as_ref().unwrap().id_list()[0].data(), &vec![
                0xAA, 0xBB
            ]);
        }
        if mask & 2 != 0 {
            assert_eq!(
                back.link_info().as_ref().unwrap().local_base_path().as_deref(),
                Some("base")
            );
        }
        assert_eq!(
            back.string_data().name_string.as_deref(),
            if mask & 4 != 0 { Some("a name") } else { None }
        );
        assert_eq!(
            back.string_data().relative_path.as_deref(),
            if mask & 8 != 0 { Some(".\\target") } else { None }
        );
        assert_eq!(
            back.string_data().working_dir.as_deref(),
            if mask & 16 != 0 { Some("C:\\work") } else { None }
        );
        assert_eq!(
            back.string_data().command_line_arguments.as_deref(),
            if mask & 32 != 0 { Some("--flag") } else { None }
        );
        assert_eq!(
            back.string_data().icon_location.as_deref(),
            if mask & 64 != 0 { Some("icon.dll") } else { None }
        );
    }
}

fn block(size: u32, sig: u32, payload: &[u8]) -> Vec<u8> {
    let mut v = Vec::new();
    v.extend_from_slice(&size.to_le_bytes());
    v.extend_from_slice(&sig.to_le_bytes());
    v.extend_from_slice(payload);
    assert_eq!(v.len(), size as usize);
    v
}

/// Every known block signature, as a standalone instance followed by
/// the terminal block, round-trips byte-identically.
#[test]
fn every_block_kind_round_trips() {
    let mut cases: Vec<Vec<u8>> = Vec::new();
    // EnvironmentVariable, Darwin, IconEnvironment: 260 code-page
    // bytes and 520 UTF-16 bytes.
    for sig in [0xA000_0001u32, 0xA000_0006, 0xA000_0007] {
        let mut payload = vec![0u8; 780];
        payload[0] = b'p';
        payload[1] = b'a';
        payload[260] = b'q';
        cases.push(block(0x314, sig, &payload));
    }
    // ConsoleData: geometry, font and colors.
    let mut console = vec![0u8; 0xC4];
    console[36] = b'F';
    cases.push(block(0xCC, 0xA000_0002, &console));
    // Tracker: its fixed length and version, a machine name, four
    // identifiers.
    let mut tracker = vec![0u8; 0x58];
    tracker[0] = 0x58;
    tracker[8] = b'm';
    cases.push(block(0x60, 0xA000_0003, &tracker));
    // ConsoleFE: a code page.
    cases.push(block(0x0C, 0xA000_0004, &1252u32.to_le_bytes()));
    // SpecialFolder: a folder identifier and an offset.
    let mut sf = Vec::new();
    sf.extend_from_slice(&7u32.to_le_bytes());
    sf.extend_from_slice(&0u32.to_le_bytes());
    cases.push(block(0x10, 0xA000_0005, &sf));
    // Shim: a UTF-16 layer name filling the remainder.
    let mut shim = vec![0u8; 0x80];
    shim[0] = b'L';
    cases.push(block(0x88, 0xA000_0008, &shim));
    // PropertyStore: opaque bytes.
    cases.push(block(0x0C, 0xA000_0009, &[1, 2, 3, 4]));
    // KnownFolder: an identifier and an offset.
    let mut kf = vec![0u8; 16];
    kf[0] = 0x42;
    kf.extend_from_slice(&0u32.to_le_bytes());
    cases.push(block(0x1C, 0xA000_000B, &kf));
    // VistaAndAboveIdList: one item and the sentinel.
    cases.push(block(0x0E, 0xA000_000C, &[0x04, 0x00, 0xAA, 0xBB, 0x00, 0x00]));

    for case in cases {
        let mut data = header_bytes(0);
        data.extend_from_slice(&case);
        data.extend_from_slice(&[0, 0, 0, 0]);
        let link = ShellLink::parse(&data, CodePage::Windows1252).expect("every known block parses");
        assert_eq!(link.extra_data().blocks.len(), 1);
        let out = link.to_bytes(CodePage::Windows1252).expect("every known block re-encodes");
        assert_eq!(out, data);
    }
}

#[test]
fn block_fields_decoded() {
    let mut data = header_bytes(0);
    data.extend_from_slice(&block(0x0C, 0xA000_0004, &1252u32.to_le_bytes()));
    data.extend_from_slice(&[0, 0, 0, 0]);
    let link = ShellLink::parse(&data, CodePage::Windows1252).unwrap();
    match &link.extra_data().blocks[0] {
        lnk_codec::extradata::ExtraDataBlock::ConsoleFE(b) => {
            assert_eq!(b.code_page, 1252);
        },
        other => panic!("wrong block kind: {:?}", other),
    }
}

#[test]
fn block_size_mismatch_rejected() {
    let mut data = header_bytes(0);
    data.extend_from_slice(&block(0x10, 0xA000_0004, &[0, 0, 0, 0, 0, 0, 0, 0]));
    data.extend_from_slice(&[0, 0, 0, 0]);
    match ShellLink::parse(&data, CodePage::Windows1252) {
        Err(Error::Parse { offset, .. }) => assert_eq!(offset, 84),
        other => panic!("expected a parse error, got {:?}", other.map(|_| ())),
    }
}

/// Flipping the encoding bit through the flag setter re-encodes the
/// string slots accordingly on the next write.
#[test]
fn encoding_bit_selects_string_encoding() {
    let mut link = ShellLink::default();
    link.set_name(Some("Hi".to_owned()));
    let unicode_out = link.to_bytes(CodePage::Windows1252).expect("a Unicode name encodes");
    assert_eq!(&unicode_out[76..], &[0x02, 0x00, 0x48, 0x00, 0x69, 0x00, 0, 0, 0, 0]);

    link.header.update_link_flags(
        lnk_codec::flags::LinkFlags { bits: lnk_codec::flags::IS_UNICODE },
        false,
    );
    let ansi_out = link.to_bytes(CodePage::Windows1252).expect("a code-page name encodes");
    assert_eq!(&ansi_out[76..], &[0x02, 0x00, 0x48, 0x69, 0, 0, 0, 0]);

    let back = ShellLink::parse(&ansi_out, CodePage::Windows1252).unwrap();
    assert_eq!(back.string_data().name_string.as_deref(), Some("Hi"));
}

#[test]
fn unencodable_name_fails_to_encode() {
    let mut link = ShellLink::default();
    link.set_name(Some("\u{4e16}\u{754c}".to_owned()));
    link.header.update_link_flags(
        lnk_codec::flags::LinkFlags { bits: lnk_codec::flags::IS_UNICODE },
        false,
    );
    assert!(matches!(link.to_bytes(CodePage::Windows1252), Err(Error::Parse { .. })));
}

#[test]
fn setters_round_trip_through_bytes() {
    for is_unicode in &[false, true] {
        let mut shortcut = ShellLink::default();
        shortcut.header.update_link_flags(
            lnk_codec::flags::LinkFlags { bits: lnk_codec::flags::IS_UNICODE },
            *is_unicode,
        );
        shortcut.set_name(Some("Blank name".to_owned()));
        let out = shortcut.to_bytes(CodePage::Windows1252).expect("the shortcut encodes");
        let back = ShellLink::parse(&out, CodePage::Windows1252).expect("the shortcut parses back");
        assert_eq!(back.string_data().name_string.as_deref(), Some("Blank name"));
    }
}

#[test]
fn trim_stops_at_first_nul() {
    assert_eq!(lnk_codec::strings::trim_nul_terminated_string("ab\0cd"), "ab");
    assert_eq!(lnk_codec::strings::trim_nul_terminated_string("\0cd"), "");
    assert_eq!(lnk_codec::strings::trim_nul_terminated_string("nonul"), "");
}

#[test]
fn rewrite_normalizes_presence_bits() {
    let data = header_bytes(0);
    let out = ShellLink::rewrite(&data, CodePage::Windows1252).expect("a minimal link rewrites");
    assert_eq!(out, data);
}

#[test]
fn code_page_high_bytes_decode() {
    // 0xE9 and 0x80 decode to their Windows-1252 characters, not to
    // their raw byte values.
    let mut data = header_bytes(0x04);
    data.extend_from_slice(&[0x02, 0x00, 0xE9, 0x80]);
    let link = ShellLink::parse(&data, CodePage::Windows1252).expect("high code-page bytes decode");
    assert_eq!(link.string_data().name_string.as_deref(), Some("\u{e9}\u{20ac}"));
    let out = link.to_bytes(CodePage::Windows1252).expect("high code-page characters re-encode");
    assert_eq!(out, data);
}

#[test]
fn utf16_surrogate_pair_round_trips() {
    let mut link = ShellLink::default();
    link.set_name(Some("\u{1d11e}".to_owned()));
    let out = link.to_bytes(CodePage::Windows1252).expect("a surrogate pair encodes");
    assert_eq!(&out[76..82], &[0x02, 0x00, 0x34, 0xD8, 0x1E, 0xDD]);
    let back = ShellLink::parse(&out, CodePage::Windows1252).unwrap();
    assert_eq!(back.string_data().name_string.as_deref(), Some("\u{1d11e}"));
}

#[test]
fn unpaired_surrogate_rejected() {
    let mut data = header_bytes(0x84);
    data.extend_from_slice(&[0x01, 0x00, 0x00, 0xD8]);
    match ShellLink::parse(&data, CodePage::Windows1252) {
        Err(Error::Parse { offset, .. }) => assert_eq!(offset, 80),
        other => panic!("expected a parse error, got {:?}", other.map(|_| ())),
    }
}

#[test]
fn new_simple_file_target() {
    let link = ShellLink::new_simple(false, "notepad.exe", "C:\\Windows\\System32");
    assert_eq!(link.string_data().relative_path.as_deref(), Some(".\\notepad.exe"));
    assert_eq!(link.string_data().working_dir.as_deref(), Some("C:\\Windows\\System32"));
    let out = link.to_bytes(CodePage::Windows1252).expect("a fresh shortcut encodes");
    let back = ShellLink::parse(&out, CodePage::Windows1252).expect("a fresh shortcut parses back");
    assert_eq!(back.string_data().relative_path.as_deref(), Some(".\\notepad.exe"));
}

#[test]
fn new_simple_directory_target() {
    let link = ShellLink::new_simple(true, "System32", "C:\\Windows");
    assert_eq!(
        link.header().file_attributes.bits,
        lnk_codec::flags::FILE_ATTRIBUTE_DIRECTORY
    );
    assert!(link.string_data().relative_path.is_none());
    assert!(link.string_data().working_dir.is_none());
}
