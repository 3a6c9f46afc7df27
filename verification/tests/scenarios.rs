//! End-to-end decoding and encoding scenarios over concrete buffers.

use lnk_codec::header::ShowCommand;
use lnk_codec::strings::CodePage;
use lnk_codec::{Error, ShellLink};

/// A 76-byte header with the given flags word and otherwise blank
/// fields: show command ShowNormal, everything else zero.
fn header_bytes(flags: u32) -> Vec<u8> {
    let mut v = vec![0x4C, 0, 0, 0];
    v.extend_from_slice(&[
        0x01, 0x14, 0x02, 0x00, 0x00, 0x00, 0x00, 0x00, 0xC0, 0x00, 0x00, 0x00, 0x00, 0x00, 0x00,
        0x46,
    ]);
    v.extend_from_slice(&flags.to_le_bytes());
    v.extend_from_slice(&[0; 4]);
    v.extend_from_slice(&[0; 24]);
    v.extend_from_slice(&[0; 4]);
    v.extend_from_slice(&[0; 4]);
    v.extend_from_slice(&[1, 0, 0, 0]);
    v.extend_from_slice(&[0; 2]);
    v.extend_from_slice(&[0; 10]);
    assert_eq!(v.len(), 76);
    v
}

fn parse_offset(r: Result<ShellLink, Error>) -> u64 {
    match r {
        Err(Error::Parse { offset, .. }) => offset,
        other => panic!("expected a parse error, got {:?}", other.map(|_| ())),
    }
}

#[test]
fn minimal_link_no_substructures() {
    let data = header_bytes(0);
    let link = ShellLink::parse(&data, CodePage::Windows1252).expect("a minimal header-only link parses");
    assert_eq!(link.header().show_command, ShowCommand::ShowNormal);
    assert!(link.linktarget_id_list().is_none());
    assert!(link.link_info().is_none());
    assert!(link.string_data().name_string.is_none());
    assert!(link.string_data().relative_path.is_none());
    assert!(link.string_data().working_dir.is_none());
    assert!(link.string_data().command_line_arguments.is_none());
    assert!(link.string_data().icon_location.is_none());
    assert_eq!(link.extra_data().blocks.len(), 0);
    let out = link.to_bytes(CodePage::Windows1252).expect("a parsed link re-encodes");
    assert_eq!(out, data);
}

#[test]
fn unicode_name_hi() {
    let mut data = header_bytes(0x84);
    data.extend_from_slice(&[0x02, 0x00, 0x48, 0x00, 0x69, 0x00]);
    data.extend_from_slice(&[0, 0, 0, 0]);
    let link = ShellLink::parse(&data, CodePage::Windows1252).expect("a link with a name parses");
    assert_eq!(link.string_data().name_string.as_deref(), Some("Hi"));
    assert_eq!(link.extra_data().blocks.len(), 0);
    assert!(link.extra_data().terminal.is_some());
    let out = link.to_bytes(CodePage::Windows1252).expect("a parsed link re-encodes");
    assert_eq!(out, data);
}

#[test]
fn not_a_shell_link_magic() {
    let mut data = header_bytes(0);
    data[0] = 0x4D;
    assert!(matches!(ShellLink::parse(&data, CodePage::Windows1252), Err(Error::NotAShellLink)));
}

#[test]
fn not_a_shell_link_clsid() {
    let mut data = header_bytes(0);
    data[4] = 0x02;
    assert!(matches!(ShellLink::parse(&data, CodePage::Windows1252), Err(Error::NotAShellLink)));
}

#[test]
fn reserved_one_must_be_zero() {
    let mut data = header_bytes(0);
    data[66] = 0x01;
    assert_eq!(parse_offset(ShellLink::parse(&data, CodePage::Windows1252)), 66);
}

#[test]
fn reserved_two_must_be_zero() {
    let mut data = header_bytes(0);
    data[68] = 0x01;
    assert_eq!(parse_offset(ShellLink::parse(&data, CodePage::Windows1252)), 68);
}

#[test]
fn reserved_three_must_be_zero() {
    let mut data = header_bytes(0);
    data[72] = 0x01;
    assert_eq!(parse_offset(ShellLink::parse(&data, CodePage::Windows1252)), 72);
}

#[test]
fn show_command_must_be_defined() {
    let mut data = header_bytes(0);
    data[60] = 0x02;
    assert_eq!(parse_offset(ShellLink::parse(&data, CodePage::Windows1252)), 60);
}

#[test]
fn link_flags_unknown_bits_rejected() {
    let data = header_bytes(0x0800_0000);
    assert_eq!(parse_offset(ShellLink::parse(&data, CodePage::Windows1252)), 24);
}

#[test]
fn file_attributes_unknown_bits_rejected() {
    let mut data = header_bytes(0);
    data[25] = 0x80;
    assert_eq!(parse_offset(ShellLink::parse(&data, CodePage::Windows1252)), 28);
}

#[test]
fn unknown_extra_data_signature() {
    let mut data = header_bytes(0);
    data.extend_from_slice(&[
        0x0C, 0x00, 0x00, 0x00, 0xFF, 0xFF, 0xFF, 0xFF, 0x00, 0x00, 0x00, 0x00, 0x00, 0x00, 0x00,
        0x00, 0x00, 0x00, 0x00, 0x00,
    ]);
    assert_eq!(parse_offset(ShellLink::parse(&data, CodePage::Windows1252)), 80);
}

#[test]
fn id_list_round_trip() {
    let mut data = header_bytes(0x01);
    data.extend_from_slice(&[
        0x14, 0x00, 0x04, 0x00, 0xAA, 0xBB, 0x06, 0x00, 0xCC, 0xDD, 0xEE, 0xFF, 0x00, 0x00,
    ]);
    let link = ShellLink::parse(&data, CodePage::Windows1252).expect("a link with a target ID list parses");
    let list = link.linktarget_id_list().as_ref().expect("the list is present");
    assert_eq!(list.size, 0x14);
    assert_eq!(list.id_list().len(), 2);
    assert_eq!(list.id_list()[0].data(), &vec![0xAA, 0xBB]);
    assert_eq!(list.id_list()[1].data(), &vec![0xCC, 0xDD, 0xEE, 0xFF]);
    let out = link.to_bytes(CodePage::Windows1252).expect("a parsed link re-encodes");
    assert_eq!(out, data);
}

#[test]
fn id_list_item_size_one_rejected() {
    let mut data = header_bytes(0x01);
    data.extend_from_slice(&[0x06, 0x00, 0x01, 0x00, 0x00, 0x00, 0x00, 0x00]);
    assert_eq!(parse_offset(ShellLink::parse(&data, CodePage::Windows1252)), 80);
}

#[test]
fn id_list_item_size_two_rejected() {
    let mut data = header_bytes(0x01);
    data.extend_from_slice(&[0x06, 0x00, 0x02, 0x00, 0x00, 0x00, 0x00, 0x00]);
    assert_eq!(parse_offset(ShellLink::parse(&data, CodePage::Windows1252)), 80);
}

/// A small LinkInfo whose payloads stand in the reverse of the offset
/// table's order: the suffix first, then the base path, then the
/// volume ID. Reading must honor the offsets, not the layout order.
fn reordered_link_info() -> Vec<u8> {
    let mut li: Vec<u8> = Vec::new();
    li.extend_from_slice(&55u32.to_le_bytes());
    li.extend_from_slice(&0x1Cu32.to_le_bytes());
    li.extend_from_slice(&1u32.to_le_bytes());
    li.extend_from_slice(&37u32.to_le_bytes());
    li.extend_from_slice(&32u32.to_le_bytes());
    li.extend_from_slice(&0u32.to_le_bytes());
    li.extend_from_slice(&28u32.to_le_bytes());
    li.extend_from_slice(b"sfx\0");
    li.extend_from_slice(b"base\0");
    li.extend_from_slice(&18u32.to_le_bytes());
    li.extend_from_slice(&3u32.to_le_bytes());
    li.extend_from_slice(&0x12345678u32.to_le_bytes());
    li.extend_from_slice(&0x10u32.to_le_bytes());
    li.extend_from_slice(b"V\0");
    assert_eq!(li.len(), 55);
    li
}

#[test]
fn link_info_offsets_honored() {
    let mut data = header_bytes(0x02);
    data.extend_from_slice(&reordered_link_info());
    let link = ShellLink::parse(&data, CodePage::Windows1252).expect("a link with link information parses");
    let info = link.link_info().as_ref().expect("the link information is present");
    assert_eq!(info.local_base_path().as_deref(), Some("base"));
    assert_eq!(info.common_path_suffix(), "sfx");
    let vol = info.volume_id().as_ref().expect("the volume is present");
    assert_eq!(vol.drive_type, 3);
    assert_eq!(vol.drive_serial_number, 0x12345678);
    assert_eq!(vol.volume_label, "V");
    let out = link.to_bytes(CodePage::Windows1252).expect("a parsed link re-encodes");
    assert_eq!(out, data);
}

#[test]
fn link_target_composed_from_link_info() {
    let mut data = header_bytes(0x02);
    data.extend_from_slice(&reordered_link_info());
    let link = ShellLink::parse(&data, CodePage::Windows1252).unwrap();
    assert_eq!(link.link_target().as_deref(), Some("base\\sfx"));
}

#[test]
fn code_page_name() {
    let mut data = header_bytes(0x04);
    data.extend_from_slice(&[0x02, 0x00, 0x48, 0x69]);
    let link = ShellLink::parse(&data, CodePage::Windows1252).expect("a code-page name parses");
    assert_eq!(link.string_data().name_string.as_deref(), Some("Hi"));
    let out = link.to_bytes(CodePage::Windows1252).expect("a parsed link re-encodes");
    assert_eq!(out, data);
}

#[test]
fn truncated_header_is_a_parse_error() {
    let data = vec![0x4C, 0, 0, 0, 0, 0];
    assert_eq!(parse_offset(ShellLink::parse(&data, CodePage::Windows1252)), 6);
}
