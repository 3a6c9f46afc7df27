//! The fixed 76-byte header: magic size, class identifier, flags,
//! attributes, timestamps, size, icon index, show command, hotkey and
//! three reserved zero fields.

use vstd::prelude::*;

use crate::bytes::{
    enc_u16, enc_u32, i32_of_u32, i32_to_u32, le16_at, le32_at, le64_at, lemma_enc_le16, lemma_enc_le32,
    lemma_i32_u32, lemma_le16_enc, lemma_le32_enc, lemma_u32_i32, read_u16, read_u32, u32_of_i32,
    u32_to_i32, write_u16, write_u32,
};
use crate::filetime::{read_filetime, write_filetime, FileTime};
use crate::flags::{
    read_file_attributes, read_link_flags, write_file_attributes, write_link_flags,
    FileAttributeFlags, LinkFlags, FILE_ATTRIBUTE_NORMAL, IS_UNICODE,
};
use crate::guid::{check_link_clsid, is_link_clsid, link_clsid, read_guid_le, write_guid_le, Guid};
use crate::Error;

verus! {

/// The expected window state of an application launched by the link.
#[derive(Clone, Copy, Debug, PartialEq, Eq, Hash, Structural)]
pub enum ShowCommand {
    /// The window is open in a normal fashion.
    ShowNormal,
    /// The window is maximized.
    ShowMaximized,
    /// The window is not shown and not given keyboard focus.
    ShowMinNoActive,
}

impl ShowCommand {
    /// The 32-bit word each command is stored as.
    pub open spec fn spec_word(self) -> u32 {
        match self {
            ShowCommand::ShowNormal => 1,
            ShowCommand::ShowMaximized => 3,
            ShowCommand::ShowMinNoActive => 7,
        }
    }

    /// The command a stored word denotes, if any.
    pub open spec fn spec_of_word(v: u32) -> Option<ShowCommand> {
        if v == 1 {
            Some(ShowCommand::ShowNormal)
        } else if v == 3 {
            Some(ShowCommand::ShowMaximized)
        } else if v == 7 {
            Some(ShowCommand::ShowMinNoActive)
        } else {
            None
        }
    }

    /// The stored word of this command.
    pub fn word(self) -> (r: u32)
        ensures
            r == self.spec_word(),
    {
        match self {
            ShowCommand::ShowNormal => 1,
            ShowCommand::ShowMaximized => 3,
            ShowCommand::ShowMinNoActive => 7,
        }
    }

    /// Decodes a stored word.
    pub fn of_word(v: u32) -> (r: Option<ShowCommand>)
        ensures
            r == ShowCommand::spec_of_word(v),
    {
        if v == 1 {
            Some(ShowCommand::ShowNormal)
        } else if v == 3 {
            Some(ShowCommand::ShowMaximized)
        } else if v == 7 {
            Some(ShowCommand::ShowMinNoActive)
        } else {
            None
        }
    }
}

/// The fixed-size header of a shell link.
#[derive(Clone, Copy, Debug, PartialEq)]
pub struct ShellLinkHeader {
    pub link_clsid: Guid,
    pub link_flags: LinkFlags,
    pub file_attributes: FileAttributeFlags,
    pub creation_time: FileTime,
    pub access_time: FileTime,
    pub write_time: FileTime,
    pub file_size: u32,
    pub icon_index: i32,
    pub show_command: ShowCommand,
    pub hotkey: u16,
}

/// The length of the wire form of every header.
pub const HEADER_SIZE: u32 = 0x4C;

impl ShellLinkHeader {
    /// A header is well formed when its class identifier is the shell
    /// link class and both bitsets hold defined bits only.
    pub open spec fn wf(self) -> bool {
        &&& is_link_clsid(self.link_clsid)
        &&& self.link_flags.wf()
        &&& self.file_attributes.wf()
    }

    /// The 76-byte wire form.
    pub open spec fn bytes(self) -> Seq<u8> {
        enc_u32(HEADER_SIZE) + self.link_clsid.bytes_le() + self.link_flags.bytes()
            + self.file_attributes.bytes() + self.creation_time.bytes() + self.access_time.bytes()
            + self.write_time.bytes() + enc_u32(self.file_size) + enc_u32(
            u32_of_i32(self.icon_index),
        ) + enc_u32(self.show_command.spec_word()) + enc_u16(self.hotkey) + enc_u16(0) + enc_u32(0)
            + enc_u32(0)
    }

    /// What each field of a header read off `s` at `i` holds.
    pub open spec fn is_read_of(self, s: Seq<u8>, i: int) -> bool {
        &&& self.link_clsid.is_le_of(s, i + 4)
        &&& self.link_flags.bits == le32_at(s, i + 20)
        &&& self.file_attributes.bits == le32_at(s, i + 24)
        &&& self.creation_time.raw == le64_at(s, i + 28)
        &&& self.access_time.raw == le64_at(s, i + 36)
        &&& self.write_time.raw == le64_at(s, i + 44)
        &&& self.file_size == le32_at(s, i + 52)
        &&& self.icon_index == i32_of_u32(le32_at(s, i + 56))
        &&& Some(self.show_command) == ShowCommand::spec_of_word(le32_at(s, i + 60))
        &&& self.hotkey == le16_at(s, i + 64)
    }

    /// Sets or clears the flag bits that are set in `mask`, leaving the
    /// rest of the header as it was.
    pub fn update_link_flags(&mut self, mask: LinkFlags, value: bool)
        ensures
            final(self).link_flags == old(self).link_flags.spec_update(mask.bits, value),
            *final(self) == (ShellLinkHeader { link_flags: final(self).link_flags, ..*old(self) }),
    {
        let updated = self.link_flags.update(mask.bits, value);
        self.link_flags = updated;
    }
}

/// The two structural magic checks every shell link input must pass:
/// the header size word and the class identifier.
pub open spec fn magic_ok(s: Seq<u8>, i: int) -> bool {
    &&& le32_at(s, i) == HEADER_SIZE
    &&& le32_at(s, i + 4) == 0x00021401
    &&& le16_at(s, i + 8) == 0
    &&& le16_at(s, i + 10) == 0
    &&& s[i + 12] == 0xC0
    &&& s[i + 13] == 0
    &&& s[i + 14] == 0
    &&& s[i + 15] == 0
    &&& s[i + 16] == 0
    &&& s[i + 17] == 0
    &&& s[i + 18] == 0
    &&& s[i + 19] == 0x46
}

/// The structural rules of the header body, beyond the magic checks:
/// defined flag bits only, a defined show command, reserved zeros.
pub open spec fn header_body_ok(s: Seq<u8>, i: int) -> bool {
    &&& le32_at(s, i + 20) < 0x0800_0000
    &&& le32_at(s, i + 24) < 0x8000
    &&& ShowCommand::spec_of_word(le32_at(s, i + 60)) is Some
    &&& le16_at(s, i + 66) == 0
    &&& le32_at(s, i + 68) == 0
    &&& le32_at(s, i + 72) == 0
}

impl Default for ShellLinkHeader {
    /// A blank header: Unicode strings, normal file attributes, all
    /// times unset, normal show command, no hotkey.
    fn default() -> (r: Self)
        ensures
            r.wf(),
            r.link_flags.bits == IS_UNICODE,
            r.file_attributes.bits == FILE_ATTRIBUTE_NORMAL,
            r.creation_time.raw == 0,
            r.access_time.raw == 0,
            r.write_time.raw == 0,
            r.file_size == 0,
            r.icon_index == 0,
            r.show_command == ShowCommand::ShowNormal,
            r.hotkey == 0,
    {
        ShellLinkHeader {
            link_clsid: link_clsid(),
            link_flags: LinkFlags { bits: IS_UNICODE },
            file_attributes: FileAttributeFlags { bits: FILE_ATTRIBUTE_NORMAL },
            creation_time: FileTime { raw: 0 },
            access_time: FileTime { raw: 0 },
            write_time: FileTime { raw: 0 },
            file_size: 0,
            icon_index: 0,
            show_command: ShowCommand::ShowNormal,
            hotkey: 0,
        }
    }
}

/// Reads a header at `pos`. A wrong magic size or class identifier means
/// the input is not a shell link at all. Afterwards, an undefined show
/// command and nonzero reserved fields are each a parse error at the
/// violating field's own offset; a bitset word with undefined bits
/// fails at the position after the word, as the bitflag codec fixes.
pub fn read_header(data: &[u8], pos: usize) -> (r: Result<ShellLinkHeader, Error>)
    requires
        pos + 76 <= data@.len(),
    ensures
        match r {
            Ok(h) => h.wf() && h.is_read_of(data@, pos as int) && h.bytes() =~= data@.subrange(
                pos as int,
                pos + 76,
            ),
            Err(e) => !(magic_ok(data@, pos as int) && header_body_ok(data@, pos as int)),
        },
        (r is Ok) == (magic_ok(data@, pos as int) && header_body_ok(data@, pos as int)),
        (r matches Err(e) && e is NotAShellLink) <==> !magic_ok(data@, pos as int),
        ({
            let s = data@;
            let i = pos as int;
            magic_ok(s, i) ==> match r {
                Ok(h) => true,
                Err(e) => e matches Error::Parse { offset, .. } && offset == if le32_at(s, i + 20)
                    >= 0x0800_0000 {
                    i + 24
                } else if le32_at(s, i + 24) >= 0x8000 {
                    i + 28
                } else if ShowCommand::spec_of_word(le32_at(s, i + 60)) is None {
                    i + 60
                } else if le16_at(s, i + 66) != 0 {
                    i + 66
                } else if le32_at(s, i + 68) != 0 {
                    i + 68
                } else {
                    i + 72
                },
            }
        }),
{
    let n = data.len();
    let size = read_u32(data, pos);
    let clsid = read_guid_le(data, pos + 4);
    if size != 0x4C || !check_link_clsid(&clsid) {
        return Err(Error::NotAShellLink);
    }
    let link_flags = match read_link_flags(data, pos + 20) {
        Ok(f) => f,
        Err(e) => {
            return Err(e);
        },
    };
    let file_attributes = match read_file_attributes(data, pos + 24) {
        Ok(f) => f,
        Err(e) => {
            return Err(e);
        },
    };
    let creation_time = read_filetime(data, pos + 28);
    let access_time = read_filetime(data, pos + 36);
    let write_time = read_filetime(data, pos + 44);
    let file_size = read_u32(data, pos + 52);
    let icon_index = u32_to_i32(read_u32(data, pos + 56));
    let show_word = read_u32(data, pos + 60);
    let show_command = match ShowCommand::of_word(show_word) {
        Some(c) => c,
        None => {
            return Err(
                Error::Parse {
                    offset: (pos + 60) as u64,
                    message: crate::text::show_command_message(),
                },
            );
        },
    };
    let hotkey = read_u16(data, pos + 64);
    if read_u16(data, pos + 66) != 0 {
        return Err(
            Error::Parse { offset: (pos + 66) as u64, message: crate::text::reserved_message() },
        );
    }
    if read_u32(data, pos + 68) != 0 {
        return Err(
            Error::Parse { offset: (pos + 68) as u64, message: crate::text::reserved_message() },
        );
    }
    if read_u32(data, pos + 72) != 0 {
        return Err(
            Error::Parse { offset: (pos + 72) as u64, message: crate::text::reserved_message() },
        );
    }
    let h = ShellLinkHeader {
        link_clsid: clsid,
        link_flags,
        file_attributes,
        creation_time,
        access_time,
        write_time,
        file_size,
        icon_index,
        show_command,
        hotkey,
    };
    proof {
        assert(magic_ok(data@, pos as int)) by {
            assert(le32_at(data@, pos as int) == 0x4C);
            assert(h.link_clsid.is_le_of(data@, pos + 4));
            assert(data@[pos + 12] == data@.subrange(pos + 12, pos + 20)[0]);
            assert(data@[pos + 13] == data@.subrange(pos + 12, pos + 20)[1]);
            assert(data@[pos + 14] == data@.subrange(pos + 12, pos + 20)[2]);
            assert(data@[pos + 15] == data@.subrange(pos + 12, pos + 20)[3]);
            assert(data@[pos + 16] == data@.subrange(pos + 12, pos + 20)[4]);
            assert(data@[pos + 17] == data@.subrange(pos + 12, pos + 20)[5]);
            assert(data@[pos + 18] == data@.subrange(pos + 12, pos + 20)[6]);
            assert(data@[pos + 19] == data@.subrange(pos + 12, pos + 20)[7]);
        }
        lemma_header_enc(h, data@, pos as int);
    }
    Ok(h)
}

/// A header whose fields were each read off `s` at their own offsets,
/// and which passed every check, re-encodes to the 76 bytes it came
/// from.
#[verifier::spinoff_prover]
#[verifier::rlimit(50)]
proof fn lemma_header_enc(h: ShellLinkHeader, s: Seq<u8>, i: int)
    requires
        0 <= i,
        i + 76 <= s.len(),
        le32_at(s, i) == HEADER_SIZE,
        h.link_clsid.bytes_le() =~= s.subrange(i + 4, i + 20),
        h.link_flags.bytes() =~= s.subrange(i + 20, i + 24),
        h.file_attributes.bytes() =~= s.subrange(i + 24, i + 28),
        h.creation_time.bytes() =~= s.subrange(i + 28, i + 36),
        h.access_time.bytes() =~= s.subrange(i + 36, i + 44),
        h.write_time.bytes() =~= s.subrange(i + 44, i + 52),
        h.file_size == le32_at(s, i + 52),
        h.icon_index == i32_of_u32(le32_at(s, i + 56)),
        h.show_command.spec_word() == le32_at(s, i + 60),
        h.hotkey == le16_at(s, i + 64),
        le16_at(s, i + 66) == 0,
        le32_at(s, i + 68) == 0,
        le32_at(s, i + 72) == 0,
    ensures
        h.bytes() =~= s.subrange(i, i + 76),
{
    lemma_enc_le32(s, i);
    lemma_enc_le32(s, i + 52);
    lemma_enc_le32(s, i + 56);
    lemma_i32_u32(h.icon_index);
    lemma_u32_i32(le32_at(s, i + 56));
    lemma_enc_le32(s, i + 60);
    lemma_enc_le16(s, i + 64);
    lemma_enc_le16(s, i + 66);
    lemma_enc_le32(s, i + 68);
    lemma_enc_le32(s, i + 72);
}

/// A well-formed header's wire form, wherever it stands, passes every
/// check and reads back field by field to the header itself.
#[verifier::spinoff_prover]
#[verifier::rlimit(100)]
pub proof fn lemma_header_read_back(h: ShellLinkHeader, s: Seq<u8>, i: int)
    requires
        0 <= i,
        i + 76 <= s.len(),
        h.wf(),
        s.subrange(i, i + 76) == h.bytes(),
    ensures
        magic_ok(s, i),
        header_body_ok(s, i),
        h.is_read_of(s, i),
{
    let e = h.bytes();
    assert forall|k: int| 0 <= k < 76 implies s[i + k] == #[trigger] e[k] by {
        assert(s.subrange(i, i + 76)[k] == s[i + k]);
    }
    let c1 = enc_u32(HEADER_SIZE);
    let cg = h.link_clsid.bytes_le();
    let cf = h.link_flags.bytes();
    let ca = h.file_attributes.bytes();
    let t1 = h.creation_time.bytes();
    let t2 = h.access_time.bytes();
    let t3 = h.write_time.bytes();
    let c2 = enc_u32(h.file_size);
    let c3 = enc_u32(u32_of_i32(h.icon_index));
    let c4 = enc_u32(h.show_command.spec_word());
    let c5 = enc_u16(h.hotkey);
    let z1 = enc_u16(0);
    let z2 = enc_u32(0);
    crate::bytes::lemma_le32_enc(HEADER_SIZE);
    crate::bytes::lemma_le32_enc(h.link_flags.bits);
    crate::bytes::lemma_le32_enc(h.file_attributes.bits);
    crate::filetime::lemma_filetime_round_trip(h.creation_time.raw);
    crate::filetime::lemma_filetime_round_trip(h.access_time.raw);
    crate::filetime::lemma_filetime_round_trip(h.write_time.raw);
    crate::bytes::lemma_le32_enc(h.file_size);
    crate::bytes::lemma_le32_enc(u32_of_i32(h.icon_index));
    crate::bytes::lemma_le32_enc(h.show_command.spec_word());
    crate::bytes::lemma_le16_enc(h.hotkey);
    crate::bytes::lemma_le16_enc(0);
    crate::bytes::lemma_le32_enc(0);
    lemma_i32_u32(h.icon_index);
    assert(e.subrange(0, 4) =~= c1);
    assert(e.subrange(4, 20) =~= cg);
    assert(e.subrange(20, 24) =~= cf);
    assert(e.subrange(24, 28) =~= ca);
    assert(e.subrange(28, 36) =~= t1);
    assert(e.subrange(36, 44) =~= t2);
    assert(e.subrange(44, 52) =~= t3);
    assert(e.subrange(52, 56) =~= c2);
    assert(e.subrange(56, 60) =~= c3);
    assert(e.subrange(60, 64) =~= c4);
    assert(e.subrange(64, 66) =~= c5);
    assert(e.subrange(66, 68) =~= z1);
    assert(e.subrange(68, 72) =~= z2);
    assert(e.subrange(72, 76) =~= z2);
    assert(s.subrange(i, i + 76).subrange(4, 20) =~= s.subrange(i + 4, i + 20));
    assert(s.subrange(i + 4, i + 20) == cg);
    crate::guid::lemma_guid_le_of_enc(h.link_clsid, s, i + 4);
    assert forall|a: int, k: int|
        0 <= a && a + 4 <= 76 && 0 <= k < 4 implies s[i + a + k] == #[trigger] e.subrange(
        a,
        a + 4,
    )[k] by {
        assert(e.subrange(a, a + 4)[k] == e[a + k]);
        assert(s[i + (a + k)] == e[a + k]);
    }
    assert(le32_at(s, i) == le32_at(c1, 0)) by {
        assert(s[i + 0 + 0] == e.subrange(0, 4)[0] && s[i + 0 + 1] == e.subrange(0, 4)[1] && s[i
            + 0 + 2] == e.subrange(0, 4)[2] && s[i + 0 + 3] == e.subrange(0, 4)[3]);
    }
    assert(le32_at(s, i + 20) == le32_at(cf, 0)) by {
        assert(s[i + 20 + 0] == e.subrange(20, 24)[0] && s[i + 20 + 1] == e.subrange(20, 24)[1]
            && s[i + 20 + 2] == e.subrange(20, 24)[2] && s[i + 20 + 3] == e.subrange(20, 24)[3]);
    }
    assert(le32_at(s, i + 24) == le32_at(ca, 0)) by {
        assert(s[i + 24 + 0] == e.subrange(24, 28)[0] && s[i + 24 + 1] == e.subrange(24, 28)[1]
            && s[i + 24 + 2] == e.subrange(24, 28)[2] && s[i + 24 + 3] == e.subrange(24, 28)[3]);
    }
    assert(le64_at(s, i + 28) == h.creation_time.raw) by {
        assert(s.subrange(i + 28, i + 36) =~= t1) by {
            assert forall|k: int| 0 <= k < 8 implies s.subrange(i + 28, i + 36)[k] == #[trigger] t1[k]
                by {
                assert(s.subrange(i + 28, i + 36)[k] == s[i + (28 + k)]);
                assert(e[28 + k] == e.subrange(28, 36)[k]);
            }
        }
        crate::bytes::lemma_enc_le64(s, i + 28);
        assert(crate::bytes::enc_u64(le64_at(s, i + 28)) =~= t1);
        crate::bytes::lemma_le64_enc(le64_at(s, i + 28));
        assert(le64_at(t1, 0) == le64_at(s, i + 28));
    }
    assert(le64_at(s, i + 36) == h.access_time.raw) by {
        assert(s.subrange(i + 36, i + 44) =~= t2) by {
            assert forall|k: int| 0 <= k < 8 implies s.subrange(i + 36, i + 44)[k] == #[trigger] t2[k]
                by {
                assert(s.subrange(i + 36, i + 44)[k] == s[i + (36 + k)]);
                assert(e[36 + k] == e.subrange(36, 44)[k]);
            }
        }
        crate::bytes::lemma_enc_le64(s, i + 36);
        assert(crate::bytes::enc_u64(le64_at(s, i + 36)) =~= t2);
        crate::bytes::lemma_le64_enc(le64_at(s, i + 36));
        assert(le64_at(t2, 0) == le64_at(s, i + 36));
    }
    assert(le64_at(s, i + 44) == h.write_time.raw) by {
        assert(s.subrange(i + 44, i + 52) =~= t3) by {
            assert forall|k: int| 0 <= k < 8 implies s.subrange(i + 44, i + 52)[k] == #[trigger] t3[k]
                by {
                assert(s.subrange(i + 44, i + 52)[k] == s[i + (44 + k)]);
                assert(e[44 + k] == e.subrange(44, 52)[k]);
            }
        }
        crate::bytes::lemma_enc_le64(s, i + 44);
        assert(crate::bytes::enc_u64(le64_at(s, i + 44)) =~= t3);
        crate::bytes::lemma_le64_enc(le64_at(s, i + 44));
        assert(le64_at(t3, 0) == le64_at(s, i + 44));
    }
    assert(le32_at(s, i + 52) == le32_at(c2, 0)) by {
        assert(s[i + 52 + 0] == e.subrange(52, 56)[0] && s[i + 52 + 1] == e.subrange(52, 56)[1]
            && s[i + 52 + 2] == e.subrange(52, 56)[2] && s[i + 52 + 3] == e.subrange(52, 56)[3]);
    }
    assert(le32_at(s, i + 56) == le32_at(c3, 0)) by {
        assert(s[i + 56 + 0] == e.subrange(56, 60)[0] && s[i + 56 + 1] == e.subrange(56, 60)[1]
            && s[i + 56 + 2] == e.subrange(56, 60)[2] && s[i + 56 + 3] == e.subrange(56, 60)[3]);
    }
    assert(le32_at(s, i + 60) == le32_at(c4, 0)) by {
        assert(s[i + 60 + 0] == e.subrange(60, 64)[0] && s[i + 60 + 1] == e.subrange(60, 64)[1]
            && s[i + 60 + 2] == e.subrange(60, 64)[2] && s[i + 60 + 3] == e.subrange(60, 64)[3]);
    }
    assert(le16_at(s, i + 64) == le16_at(c5, 0)) by {
        assert(e.subrange(64, 66)[0] == e[64] && e.subrange(64, 66)[1] == e[65]);
        assert(s[i + 64] == e[64] && s[i + 65] == e[65]);
    }
    assert(le16_at(s, i + 66) == le16_at(z1, 0)) by {
        assert(e.subrange(66, 68)[0] == e[66] && e.subrange(66, 68)[1] == e[67]);
        assert(s[i + 66] == e[66] && s[i + 67] == e[67]);
    }
    assert(le32_at(s, i + 68) == le32_at(z2, 0)) by {
        assert(s[i + 68 + 0] == e.subrange(68, 72)[0] && s[i + 68 + 1] == e.subrange(68, 72)[1]
            && s[i + 68 + 2] == e.subrange(68, 72)[2] && s[i + 68 + 3] == e.subrange(68, 72)[3]);
    }
    assert(le32_at(s, i + 72) == le32_at(z2, 0)) by {
        assert(s[i + 72 + 0] == e.subrange(72, 76)[0] && s[i + 72 + 1] == e.subrange(72, 76)[1]
            && s[i + 72 + 2] == e.subrange(72, 76)[2] && s[i + 72 + 3] == e.subrange(72, 76)[3]);
    }
    lemma_u32_i32(u32_of_i32(h.icon_index));
    assert(le32_at(s, i + 4) == 0x00021401 && le16_at(s, i + 8) == 0 && le16_at(s, i + 10) == 0)
        by {
        assert(h.link_clsid.is_le_of(s, i + 4));
        assert(crate::guid::is_link_clsid(h.link_clsid));
    }
    assert(s[i + 12] == 0xC0 && s[i + 13] == 0 && s[i + 14] == 0 && s[i + 15] == 0 && s[i + 16]
        == 0 && s[i + 17] == 0 && s[i + 18] == 0 && s[i + 19] == 0x46) by {
        assert(h.link_clsid.data4@ =~= s.subrange(i + 12, i + 20));
        assert(s.subrange(i + 12, i + 20)[0] == s[i + 12] && s.subrange(i + 12, i + 20)[1] == s[i
            + 13] && s.subrange(i + 12, i + 20)[2] == s[i + 14] && s.subrange(i + 12, i + 20)[3]
            == s[i + 15] && s.subrange(i + 12, i + 20)[4] == s[i + 16] && s.subrange(
            i + 12,
            i + 20,
        )[5] == s[i + 17] && s.subrange(i + 12, i + 20)[6] == s[i + 18] && s.subrange(
            i + 12,
            i + 20,
        )[7] == s[i + 19]);
    }
}

/// Appends the 76-byte wire form of `h`.
pub fn write_header(out: &mut Vec<u8>, h: &ShellLinkHeader)
    ensures
        final(out)@ =~= old(out)@ + h.bytes(),
{
    write_u32(out, HEADER_SIZE);
    write_guid_le(out, &h.link_clsid);
    write_link_flags(out, &h.link_flags);
    write_file_attributes(out, &h.file_attributes);
    write_filetime(out, &h.creation_time);
    write_filetime(out, &h.access_time);
    write_filetime(out, &h.write_time);
    write_u32(out, h.file_size);
    write_u32(out, i32_to_u32(h.icon_index));
    write_u32(out, h.show_command.word());
    write_u16(out, h.hotkey);
    write_u16(out, 0);
    write_u32(out, 0);
    write_u32(out, 0);
}

} // verus!
