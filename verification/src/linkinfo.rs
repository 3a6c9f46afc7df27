//! LinkInfo: how to resolve the target when it is not where it was.
//! A size-prefixed structure holding an offset table; the offsets,
//! relative to the structure's own start, locate a volume ID with a
//! local base path, a common network relative link, a common path
//! suffix, and optional UTF-16 mirrors. The raw bytes are kept, so an
//! unmodified structure re-emits byte-identically.

use vstd::prelude::*;

use crate::bytes::{le32_at, read_u32, Decoded};
use crate::strings::{
    parse_nul_ansi, parse_nul_unicode, read_null_terminated_string, CodePage, StringEncoding,
};
use crate::Error;

verus! {

/// The value a successful string parse carries.
pub open spec fn found_chars(d: Decoded<Seq<char>>) -> Seq<char> {
    match d {
        Decoded::Found(v, e) => v,
        Decoded::Fail(o) => Seq::empty(),
    }
}

/// Whether the volume-and-base-path bit of a LinkInfoFlags word is set.
pub open spec fn has_volume_bit(flags: u32) -> bool {
    flags % 2 == 1
}

/// Whether the common-network-relative-link bit is set.
pub open spec fn has_network_bit(flags: u32) -> bool {
    flags / 2 % 2 == 1
}

/// A well-formed VolumeID at `off` inside the LinkInfo bytes `c`: its
/// own size, a drive type and serial, and a label that its label
/// offset locates, in the code page, or in UTF-16 where the label
/// offset is the marker value 0x14.
pub open spec fn volume_ok(cp: CodePage, c: Seq<u8>, off: int) -> bool {
    &&& 0 <= off
    &&& off + 16 <= c.len()
    &&& le32_at(c, off) >= 0x10
    &&& off + le32_at(c, off) <= c.len()
    &&& if le32_at(c, off + 12) == 0x14 {
        off + 20 <= c.len() && parse_nul_unicode(c, off + le32_at(c, off + 16)) is Found
    } else {
        parse_nul_ansi(cp, c, off + le32_at(c, off + 12)) is Found
    }
}

/// The volume label a well-formed VolumeID holds.
pub open spec fn volume_label_value(cp: CodePage, c: Seq<u8>, off: int) -> Seq<char> {
    if le32_at(c, off + 12) == 0x14 {
        found_chars(parse_nul_unicode(c, off + le32_at(c, off + 16)))
    } else {
        found_chars(parse_nul_ansi(cp, c, off + le32_at(c, off + 12)))
    }
}

/// A well-formed CommonNetworkRelativeLink at `off` inside `c`: its own
/// size, defined flag bits only, a net name, and a device name where
/// the valid-device bit is set.
pub open spec fn cnrl_ok(cp: CodePage, c: Seq<u8>, off: int) -> bool {
    &&& 0 <= off
    &&& off + 20 <= c.len()
    &&& le32_at(c, off) >= 0x14
    &&& off + le32_at(c, off) <= c.len()
    &&& le32_at(c, off + 4) < 4
    &&& parse_nul_ansi(cp, c, off + le32_at(c, off + 8)) is Found
    &&& (has_volume_bit(le32_at(c, off + 4)) ==> parse_nul_ansi(
        cp,
        c,
        off + le32_at(c, off + 12),
    ) is Found)
}

/// The structural rules of a whole LinkInfo held as its bytes `c`.
#[verifier::opaque]
pub open spec fn linkinfo_ok(cp: CodePage, c: Seq<u8>) -> bool {
    let hs = le32_at(c, 4) as int;
    let flags = le32_at(c, 8);
    &&& c.len() >= 0x1C
    &&& le32_at(c, 0) == c.len()
    &&& hs >= 0x1C
    &&& hs <= c.len()
    &&& (hs == 0x1C || hs >= 0x24)
    &&& flags < 4
    &&& (has_volume_bit(flags) ==> le32_at(c, 12) != 0 && le32_at(c, 16) != 0 && volume_ok(
        cp,
        c,
        le32_at(c, 12) as int,
    ) && parse_nul_ansi(cp, c, le32_at(c, 16) as int) is Found)
    &&& (has_network_bit(flags) ==> le32_at(c, 20) != 0 && cnrl_ok(cp, c, le32_at(c, 20) as int))
    &&& parse_nul_ansi(cp, c, le32_at(c, 24) as int) is Found
    &&& (hs >= 0x24 ==> ((has_volume_bit(flags) && le32_at(c, 28) != 0) ==> parse_nul_unicode(
        c,
        le32_at(c, 28) as int,
    ) is Found) && (le32_at(c, 32) != 0 ==> parse_nul_unicode(c, le32_at(c, 32) as int) is Found))
}

/// Parses a LinkInfo at `i`: its declared size cuts its bytes, which
/// must satisfy every structural rule.
#[verifier::opaque]
pub open spec fn parse_link_info(cp: CodePage, s: Seq<u8>, i: int) -> Decoded<Seq<u8>> {
    if i + 4 > s.len() {
        Decoded::Fail(s.len() as int)
    } else {
        let size = le32_at(s, i) as int;
        if size < 0x1C {
            Decoded::Fail(i + 4)
        } else if i + size > s.len() {
            Decoded::Fail(s.len() as int)
        } else if !linkinfo_ok(cp, s.subrange(i, i + size)) {
            Decoded::Fail(i + size)
        } else {
            Decoded::Found(s.subrange(i, i + size), i + size)
        }
    }
}

/// The volume the link target sat on.
#[derive(Clone, Debug, PartialEq, Eq)]
pub struct VolumeID {
    pub drive_type: u32,
    pub drive_serial_number: u32,
    pub volume_label: String,
}

/// The network location of a target not found on a local volume.
#[derive(Clone, Debug, PartialEq, Eq)]
pub struct CommonNetworkRelativeLink {
    pub flags: u32,
    pub net_name: String,
    pub device_name: Option<String>,
    pub network_provider_type: u32,
}

impl CommonNetworkRelativeLink {
    /// The share name of the network location.
    pub fn name(&self) -> (r: String)
        ensures
            r@ == self.net_name@,
    {
        let r = self.net_name.as_str();
        r.to_owned()
    }
}

/// The LinkInfo structure, with its raw bytes kept verbatim.
#[derive(Clone, Debug, PartialEq, Eq)]
pub struct LinkInfo {
    pub raw: Vec<u8>,
    pub code_page: CodePage,
    pub link_info_flags: u32,
    pub volume_id: Option<VolumeID>,
    pub local_base_path: Option<String>,
    pub common_network_relative_link: Option<CommonNetworkRelativeLink>,
    pub common_path_suffix: String,
    pub local_base_path_unicode: Option<String>,
    pub common_path_suffix_unicode: Option<String>,
}

impl LinkInfo {
    /// A LinkInfo is well formed when its raw bytes satisfy every
    /// structural rule and every decoded field is the reading its raw
    /// bytes dictate.
    #[verifier::opaque]
    pub open spec fn wf(self) -> bool {
        let c = self.raw@;
        let cp = self.code_page;
        let hs = le32_at(c, 4) as int;
        let flags = le32_at(c, 8);
        &&& linkinfo_ok(cp, c)
        &&& self.link_info_flags == flags
        &&& (self.volume_id is Some) == has_volume_bit(flags)
        &&& match self.volume_id {
            Some(v) => {
                let off = le32_at(c, 12) as int;
                &&& v.drive_type == le32_at(c, off + 4)
                &&& v.drive_serial_number == le32_at(c, off + 8)
                &&& v.volume_label@ == volume_label_value(cp, c, off)
            },
            None => true,
        }
        &&& (self.local_base_path is Some) == has_volume_bit(flags)
        &&& match self.local_base_path {
            Some(s) => s@ == found_chars(parse_nul_ansi(cp, c, le32_at(c, 16) as int)),
            None => true,
        }
        &&& (self.common_network_relative_link is Some) == has_network_bit(flags)
        &&& match self.common_network_relative_link {
            Some(x) => {
                let off = le32_at(c, 20) as int;
                let cflags = le32_at(c, off + 4);
                &&& x.flags == cflags
                &&& x.net_name@ == found_chars(parse_nul_ansi(cp, c, off + le32_at(c, off + 8)))
                &&& (x.device_name is Some) == has_volume_bit(cflags)
                &&& match x.device_name {
                    Some(d) => d@ == found_chars(
                        parse_nul_ansi(cp, c, off + le32_at(c, off + 12)),
                    ),
                    None => true,
                }
                &&& x.network_provider_type == le32_at(c, off + 16)
            },
            None => true,
        }
        &&& self.common_path_suffix@ == found_chars(parse_nul_ansi(cp, c, le32_at(c, 24) as int))
        &&& (self.local_base_path_unicode is Some) == (hs >= 0x24 && has_volume_bit(flags)
            && le32_at(c, 28) != 0)
        &&& match self.local_base_path_unicode {
            Some(s) => s@ == found_chars(parse_nul_unicode(c, le32_at(c, 28) as int)),
            None => true,
        }
        &&& (self.common_path_suffix_unicode is Some) == (hs >= 0x24 && le32_at(c, 32) != 0)
        &&& match self.common_path_suffix_unicode {
            Some(s) => s@ == found_chars(parse_nul_unicode(c, le32_at(c, 32) as int)),
            None => true,
        }
    }

    /// The wire form: the raw bytes, kept verbatim.
    pub open spec fn bytes(self) -> Seq<u8> {
        self.raw@
    }

    /// The flags word, which says which location forms are present.
    pub fn link_info_flags(&self) -> (r: u32)
        ensures
            r == self.link_info_flags,
    {
        self.link_info_flags
    }

    /// Whether the common network relative link is present.
    pub fn has_common_network_relative_link_and_path_suffix(&self) -> (r: bool)
        ensures
            r == has_network_bit(self.link_info_flags),
    {
        self.link_info_flags / 2 % 2 == 1
    }

    /// The volume the target sat on, where one is stored.
    pub fn volume_id(&self) -> (r: &Option<VolumeID>)
        ensures
            r == self.volume_id,
    {
        &self.volume_id
    }

    /// The local base path, where one is stored.
    pub fn local_base_path(&self) -> (r: &Option<String>)
        ensures
            r == self.local_base_path,
    {
        &self.local_base_path
    }

    /// The common network relative link, where one is stored.
    pub fn common_network_relative_link(&self) -> (r: &Option<CommonNetworkRelativeLink>)
        ensures
            r == self.common_network_relative_link,
    {
        &self.common_network_relative_link
    }

    /// The common path suffix.
    pub fn common_path_suffix(&self) -> (r: &String)
        ensures
            r@ == self.common_path_suffix@,
    {
        &self.common_path_suffix
    }

    /// The UTF-16 mirror of the local base path, where one is stored.
    pub fn local_base_path_unicode(&self) -> (r: &Option<String>)
        ensures
            r == self.local_base_path_unicode,
    {
        &self.local_base_path_unicode
    }

    /// The UTF-16 mirror of the common path suffix, where one is stored.
    pub fn common_path_suffix_unicode(&self) -> (r: &Option<String>)
        ensures
            r == self.common_path_suffix_unicode,
    {
        &self.common_path_suffix_unicode
    }
}

/// Reads the VolumeID at `off` inside the LinkInfo bytes.
fn read_volume(c: &Vec<u8>, off: usize, cp: CodePage) -> (r: Option<VolumeID>)
    ensures
        (r is Some) == volume_ok(cp, c@, off as int),
        r matches Some(v) ==> {
            &&& v.drive_type == le32_at(c@, off + 4)
            &&& v.drive_serial_number == le32_at(c@, off + 8)
            &&& v.volume_label@ == volume_label_value(cp, c@, off as int)
        },
{
    let n = c.len();
    let data = c.as_slice();
    if n < 16 || off > n - 16 {
        return None;
    }
    let vsize = read_u32(data, off) as usize;
    if vsize < 0x10 || vsize > n - off {
        return None;
    }
    let vlo = read_u32(data, off + 12) as usize;
    if vlo == 0x14 {
        if n < 20 || off > n - 20 {
            return None;
        }
        let vluo = read_u32(data, off + 16) as usize;
        if vluo > n - off {
            return None;
        }
        match read_null_terminated_string(data, off + vluo, StringEncoding::Unicode) {
            Ok((s, _)) => Some(
                VolumeID {
                    drive_type: read_u32(data, off + 4),
                    drive_serial_number: read_u32(data, off + 8),
                    volume_label: s.0,
                },
            ),
            Err(_) => None,
        }
    } else {
        if vlo > n - off {
            return None;
        }
        match read_null_terminated_string(data, off + vlo, StringEncoding::CodePage(cp)) {
            Ok((s, _)) => Some(
                VolumeID {
                    drive_type: read_u32(data, off + 4),
                    drive_serial_number: read_u32(data, off + 8),
                    volume_label: s.0,
                },
            ),
            Err(_) => None,
        }
    }
}

/// Reads the CommonNetworkRelativeLink at `off` inside the LinkInfo
/// bytes.
fn read_cnrl(c: &Vec<u8>, off: usize, cp: CodePage) -> (r: Option<CommonNetworkRelativeLink>)
    ensures
        (r is Some) == cnrl_ok(cp, c@, off as int),
        r matches Some(x) ==> {
            let cflags = le32_at(c@, off + 4);
            &&& x.flags == cflags
            &&& x.net_name@ == found_chars(parse_nul_ansi(cp, c@, off + le32_at(c@, off + 8)))
            &&& (x.device_name is Some) == has_volume_bit(cflags)
            &&& match x.device_name {
                Some(d) => d@ == found_chars(
                    parse_nul_ansi(cp, c@, off + le32_at(c@, off + 12)),
                ),
                None => true,
            }
            &&& x.network_provider_type == le32_at(c@, off + 16)
        },
{
    let n = c.len();
    let data = c.as_slice();
    if n < 20 || off > n - 20 {
        return None;
    }
    let csize = read_u32(data, off) as usize;
    if csize < 0x14 || csize > n - off {
        return None;
    }
    let cflags = read_u32(data, off + 4);
    if cflags >= 4 {
        return None;
    }
    let nno = read_u32(data, off + 8) as usize;
    if nno > n - off {
        return None;
    }
    let net_name = match read_null_terminated_string(
        data,
        off + nno,
        StringEncoding::CodePage(cp),
    ) {
        Ok((s, _)) => s.0,
        Err(_) => {
            return None;
        },
    };
    let device_name = if cflags % 2 == 1 {
        let dno = read_u32(data, off + 12) as usize;
        if dno > n - off {
            return None;
        }
        match read_null_terminated_string(data, off + dno, StringEncoding::CodePage(cp)) {
            Ok((s, _)) => Some(s.0),
            Err(_) => {
                return None;
            },
        }
    } else {
        None
    };
    Some(
        CommonNetworkRelativeLink {
            flags: cflags,
            net_name,
            device_name,
            network_provider_type: read_u32(data, off + 16),
        },
    )
}

/// Reads a LinkInfo at `pos`: its size cuts its bytes, the offset
/// table is honored, and every located payload is decoded. What was
/// read re-emits byte-identically. The structure is judged as one
/// unit: any rule its bytes break is reported at the structure's end,
/// with the message naming the failing aspect, since the offset table
/// gives its parts no stream order of their own.
pub fn read_link_info(data: &[u8], pos: usize, cp: CodePage) -> (r: Result<
    (LinkInfo, usize),
    Error,
>)
    requires
        pos <= data@.len(),
    ensures
        match r {
            Ok((li, end)) => {
                &&& pos <= end <= data@.len()
                &&& li.wf()
                &&& li.code_page == cp
                &&& parse_link_info(cp, data@, pos as int) == Decoded::Found(li.raw@, end as int)
                &&& li.bytes() =~= data@.subrange(pos as int, end as int)
            },
            Err(e) => {
                &&& parse_link_info(cp, data@, pos as int) matches Decoded::Fail(o)
                &&& e matches Error::Parse { offset, .. } && offset == o
            },
        },
{
    proof {
        reveal(parse_link_info);
    }
    let n = data.len();
    if n - pos < 4 {
        return Err(Error::Parse { offset: n as u64, message: crate::text::short_input_message() });
    }
    let size = read_u32(data, pos) as usize;
    if size < 0x1C {
        return Err(
            Error::Parse { offset: (pos + 4) as u64, message: crate::text::size_field_message() },
        );
    }
    if size > n - pos {
        return Err(Error::Parse { offset: n as u64, message: crate::text::short_input_message() });
    }
    let end = pos + size;
    let c = crate::strings::copy_range(data, pos, end);
    match decode_link_info(c, cp) {
        Some(li) => {
            proof {
                assert(li.bytes() =~= data@.subrange(pos as int, end as int));
            }
            Ok((li, end))
        },
        None => Err(
            Error::Parse { offset: end as u64, message: crate::text::offset_message() },
        ),
    }
}

/// Decodes a whole LinkInfo from its own bytes. Fails exactly when a
/// structural rule does not hold of them.
fn decode_link_info(c: Vec<u8>, cp: CodePage) -> (r: Option<LinkInfo>)
    requires
        c@.len() >= 0x1C,
        le32_at(c@, 0) == c@.len(),
    ensures
        (r is Some) == linkinfo_ok(cp, c@),
        r matches Some(li) ==> li.wf() && li.raw@ == c@ && li.code_page == cp,
{
    proof {
        reveal(linkinfo_ok);
        reveal(LinkInfo::wf);
    }
    let n = c.len();
    let data = c.as_slice();
    let hs = read_u32(data, 4) as usize;
    if hs < 0x1C || hs > n || (hs != 0x1C && hs < 0x24) {
        return None;
    }
    let flags = read_u32(data, 8);
    if flags >= 4 {
        return None;
    }
    let vio = read_u32(data, 12) as usize;
    let lbpo = read_u32(data, 16) as usize;
    let cnrlo = read_u32(data, 20) as usize;
    let cpso = read_u32(data, 24) as usize;

    let mut volume_id: Option<VolumeID> = None;
    let mut local_base_path: Option<String> = None;
    if flags % 2 == 1 {
        if vio == 0 || lbpo == 0 {
            return None;
        }
        volume_id = match read_volume(&c, vio, cp) {
            Some(v) => Some(v),
            None => {
                return None;
            },
        };
        if lbpo > n {
            return None;
        }
        local_base_path = match read_null_terminated_string(
            data,
            lbpo,
            StringEncoding::CodePage(cp),
        ) {
            Ok((s, _)) => Some(s.0),
            Err(_) => {
                return None;
            },
        };
    }
    let mut common_network_relative_link: Option<CommonNetworkRelativeLink> = None;
    if flags / 2 % 2 == 1 {
        if cnrlo == 0 {
            return None;
        }
        common_network_relative_link = match read_cnrl(&c, cnrlo, cp) {
            Some(x) => Some(x),
            None => {
                return None;
            },
        };
    }
    if cpso > n {
        return None;
    }
    let common_path_suffix = match read_null_terminated_string(
        data,
        cpso,
        StringEncoding::CodePage(cp),
    ) {
        Ok((s, _)) => s.0,
        Err(_) => {
            return None;
        },
    };
    let mut local_base_path_unicode: Option<String> = None;
    let mut common_path_suffix_unicode: Option<String> = None;
    if hs >= 0x24 {
        let lbpuo = read_u32(data, 28) as usize;
        let cpsuo = read_u32(data, 32) as usize;
        if flags % 2 == 1 && lbpuo != 0 {
            if lbpuo > n {
                return None;
            }
            local_base_path_unicode = match read_null_terminated_string(
                data,
                lbpuo,
                StringEncoding::Unicode,
            ) {
                Ok((s, _)) => Some(s.0),
                Err(_) => {
                    return None;
                },
            };
        }
        if cpsuo != 0 {
            if cpsuo > n {
                return None;
            }
            common_path_suffix_unicode = match read_null_terminated_string(
                data,
                cpsuo,
                StringEncoding::Unicode,
            ) {
                Ok((s, _)) => Some(s.0),
                Err(_) => {
                    return None;
                },
            };
        }
    }
    Some(
        LinkInfo {
            code_page: cp,
            link_info_flags: flags,
            volume_id,
            local_base_path,
            common_network_relative_link,
            common_path_suffix,
            local_base_path_unicode,
            common_path_suffix_unicode,
            raw: c,
        },
    )
}

/// A well-formed LinkInfo's bytes, wherever they stand, parse back to
/// the very same bytes.
pub proof fn lemma_parse_link_info_of_chunk(cp: CodePage, s: Seq<u8>, i: int, c: Seq<u8>)
    requires
        0 <= i,
        i + c.len() <= s.len(),
        linkinfo_ok(cp, c),
        s.subrange(i, i + c.len()) == c,
    ensures
        parse_link_info(cp, s, i) == Decoded::Found(c, i + c.len()),
{
    reveal(parse_link_info);
    reveal(linkinfo_ok);
    assert forall|k: int| 0 <= k < c.len() implies s[i + k] == #[trigger] c[k] by {
        assert(s.subrange(i, i + c.len() as int)[k] == s[i + k]);
    }
    assert(s[i + 0] == c[0] && s[i + 1] == c[1] && s[i + 2] == c[2] && s[i + 3] == c[3]);
    assert(le32_at(s, i) == le32_at(c, 0));
    assert(s.subrange(i, i + c.len() as int) =~= c);
}

/// Appends the wire form of `li`: its raw bytes, kept verbatim.
pub fn write_link_info(out: &mut Vec<u8>, li: &LinkInfo)
    ensures
        final(out)@ =~= old(out)@ + li.bytes(),
{
    let mut copy = crate::strings::copy_range(li.raw.as_slice(), 0, li.raw.len());
    out.append(&mut copy);
}

} // verus!
