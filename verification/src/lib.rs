//! A verified codec for the Windows Shell Link (`.lnk`) binary format:
//! a fixed header, an optional target ID list, optional link
//! information, five optional strings and a chain of extension blocks,
//! all little-endian, decoded and encoded byte-exactly.

use vstd::prelude::*;

pub mod bytes;
pub mod current_offset;
pub mod extradata;
pub mod filetime;
pub mod flags;
pub mod guid;
pub mod header;
pub mod itemid;
pub mod linkinfo;
pub mod linktarget;
pub mod stringdata;
pub mod strings;
pub mod text;

use crate::bytes::{le16_at, le32_at, read_u32, Decoded};
use crate::extradata::{
    block_raws, cat_raws, lemma_parse_blocks_of_chunks, lemma_wf_chunk_ok, parse_blocks,
    read_extra_data, term_view, write_extra_data, ExtraData,
};
use crate::flags::{
    LinkFlags, LINK_FLAGS_MASK, HAS_ARGUMENTS, HAS_ICON_LOCATION, HAS_LINK_INFO, HAS_LINK_TARGET_ID_LIST, HAS_NAME,
    HAS_RELATIVE_PATH, HAS_WORKING_DIR,
};
use crate::header::{
    header_body_ok, lemma_header_read_back, magic_ok, read_header, write_header, ShellLinkHeader,
};
use crate::linkinfo::{
    has_network_bit, lemma_parse_link_info_of_chunk, parse_link_info, read_link_info,
    write_link_info, LinkInfo,
};
use crate::linktarget::{
    items_datas, lemma_read_back, parse_items, read_link_target_id_list,
    write_link_target_id_list, LinkTargetIdList,
};
use crate::strings::CodePage;
use crate::stringdata::{
    consistent, lemma_parse_string_data_at, parse_string_data, read_string_data, slot_views,
    string_data_bytes, write_string_data, StringData,
};

verus! {

/// The errors a decode or encode can end in: the input is not a shell
/// link at all, or a structural rule of the format is violated at a
/// known offset.
#[derive(Debug)]
pub enum Error {
    NotAShellLink,
    Parse { offset: u64, message: String },
}

impl Error {
    /// The offset a parse error carries, if it is one.
    pub open spec fn spec_offset(self) -> int {
        match self {
            Error::NotAShellLink => 0,
            Error::Parse { offset, .. } => offset as int,
        }
    }

    /// A short account of the error.
    pub fn describe(&self) -> (r: &str) {
        match self {
            Error::NotAShellLink => "the input is not a shell link",
            Error::Parse { message, .. } => message.as_str(),
        }
    }
}

/// A whole shell link: the header, the optional target ID list, the
/// optional link information, the five string slots and the extension
/// block chain.
#[derive(Clone, Debug, PartialEq)]
pub struct ShellLink {
    pub header: ShellLinkHeader,
    pub linktarget_id_list: Option<LinkTargetIdList>,
    pub link_info: Option<LinkInfo>,
    pub string_data: StringData,
    pub extra_data: ExtraData,
}

impl ShellLink {
    /// A link is well formed when its header is, each optional
    /// structure is present exactly as the header flags say, every
    /// structure is itself well formed, and each string slot is
    /// present exactly as its flag says.
    pub open spec fn wf(self) -> bool {
        &&& self.header.wf()
        &&& (self.linktarget_id_list is Some)
            == self.header.link_flags.spec_has_link_target_id_list()
        &&& (self.link_info is Some) == self.header.link_flags.spec_has_link_info()
        &&& match self.linktarget_id_list {
            Some(l) => l.wf(),
            None => true,
        }
        &&& match self.link_info {
            Some(li) => li.wf(),
            None => true,
        }
        &&& consistent(self.string_data, self.header.link_flags)
        &&& self.extra_data.wf()
    }

    /// What a writer needs of a link: a well-formed header apart from
    /// its presence bits, which are recomputed, and well-formed
    /// substructures.
    pub open spec fn writable(self) -> bool {
        &&& self.header.wf()
        &&& match self.linktarget_id_list {
            Some(l) => l.wf(),
            None => true,
        }
        &&& match self.link_info {
            Some(li) => li.wf(),
            None => true,
        }
        &&& self.extra_data.wf()
    }

    /// The header's flags with every presence bit set to whether its
    /// structure is present: the header is not authoritative at write.
    pub open spec fn spec_recomputed_flags(self) -> LinkFlags {
        self.header.link_flags.spec_update(
            HAS_LINK_TARGET_ID_LIST,
            self.linktarget_id_list is Some,
        ).spec_update(HAS_LINK_INFO, self.link_info is Some).spec_update(
            HAS_NAME,
            self.string_data.name_string is Some,
        ).spec_update(HAS_RELATIVE_PATH, self.string_data.relative_path is Some).spec_update(
            HAS_WORKING_DIR,
            self.string_data.working_dir is Some,
        ).spec_update(HAS_ARGUMENTS, self.string_data.command_line_arguments is Some).spec_update(
            HAS_ICON_LOCATION,
            self.string_data.icon_location is Some,
        )
    }

    /// The wire form of a whole link, under its stored flags and the
    /// given code page: nothing where some present string slot has no
    /// wire form.
    pub open spec fn spec_bytes(self, cp: CodePage) -> Option<Seq<u8>> {
        let hb = self.header.bytes();
        let ib = match self.linktarget_id_list {
            Some(l) => l.bytes(),
            None => Seq::empty(),
        };
        let lb = match self.link_info {
            Some(li) => li.bytes(),
            None => Seq::empty(),
        };
        match string_data_bytes(self.string_data, self.header.link_flags, cp) {
            Some(sb) => Some(hb + ib + lb + sb + self.extra_data.bytes()),
            None => None,
        }
    }
}

/// The flags word a shell link input stores.
pub open spec fn spec_flags_of(s: Seq<u8>) -> LinkFlags {
    LinkFlags { bits: le32_at(s, 20) }
}

/// Where the target ID list ends: just after its sentinel; at the
/// header's end where the flags call for none.
pub open spec fn spec_ids_end(s: Seq<u8>) -> int {
    if spec_flags_of(s).spec_has_link_target_id_list() {
        match parse_items(s, 78, 78 + le16_at(s, 76)) {
            Decoded::Found(p, e) => e,
            Decoded::Fail(o) => 76,
        }
    } else {
        76
    }
}

/// Whether the target ID list decodes, where the flags call for one:
/// room for its size word, and items ending with their sentinel.
pub open spec fn spec_ids_ok(s: Seq<u8>) -> bool {
    spec_flags_of(s).spec_has_link_target_id_list() ==> s.len() >= 78 && (parse_items(
        s,
        78,
        78 + le16_at(s, 76),
    ) matches Decoded::Found(p, e) && p.1)
}

/// Where the link information ends; where the ID list ended where the
/// flags call for none.
pub open spec fn spec_li_end(s: Seq<u8>, cp: CodePage) -> int {
    if spec_flags_of(s).spec_has_link_info() {
        match parse_link_info(cp, s, spec_ids_end(s)) {
            Decoded::Found(c, e) => e,
            Decoded::Fail(o) => spec_ids_end(s),
        }
    } else {
        spec_ids_end(s)
    }
}

/// Whether the link information decodes, where the flags call for one.
pub open spec fn spec_li_ok(s: Seq<u8>, cp: CodePage) -> bool {
    spec_flags_of(s).spec_has_link_info() ==> parse_link_info(cp, s, spec_ids_end(s)) is Found
}

/// Where the string section ends.
pub open spec fn spec_sd_end(s: Seq<u8>, cp: CodePage) -> int {
    match parse_string_data(s, spec_li_end(s, cp), spec_flags_of(s), cp) {
        Decoded::Found(vs, e) => e,
        Decoded::Fail(o) => spec_li_end(s, cp),
    }
}

/// Whether the string section decodes under the stored flags.
pub open spec fn spec_sd_ok(s: Seq<u8>, cp: CodePage) -> bool {
    parse_string_data(s, spec_li_end(s, cp), spec_flags_of(s), cp) is Found
}

/// Whether the extension chain decodes.
pub open spec fn spec_ed_ok(s: Seq<u8>, cp: CodePage) -> bool {
    parse_blocks(s, spec_sd_end(s, cp)) is Found
}

/// Whether a byte sequence decodes as a whole shell link: the header
/// passes every check and each flag-gated layer decodes at the
/// previous layer's end.
pub open spec fn parse_ok(s: Seq<u8>, cp: CodePage) -> bool {
    &&& s.len() >= 76
    &&& magic_ok(s, 0)
    &&& header_body_ok(s, 0)
    &&& spec_ids_ok(s)
    &&& spec_li_ok(s, cp)
    &&& spec_sd_ok(s, cp)
    &&& spec_ed_ok(s, cp)
}

impl Default for ShellLink {
    /// A blank link: a default header, no optional structures, empty
    /// string slots, an empty extension chain.
    fn default() -> (r: Self)
        ensures
            r.wf(),
            crate::guid::is_link_clsid(r.header.link_clsid),
            r.header.link_flags.bits == crate::flags::IS_UNICODE,
            r.header.file_attributes.bits == crate::flags::FILE_ATTRIBUTE_NORMAL,
            r.header.creation_time.raw == 0,
            r.header.access_time.raw == 0,
            r.header.write_time.raw == 0,
            r.header.file_size == 0,
            r.header.icon_index == 0,
            r.header.show_command == crate::header::ShowCommand::ShowNormal,
            r.header.hotkey == 0,
            r.linktarget_id_list is None,
            r.link_info is None,
            r.string_data.name_string is None,
            r.string_data.relative_path is None,
            r.string_data.working_dir is None,
            r.string_data.command_line_arguments is None,
            r.string_data.icon_location is None,
            r.extra_data.blocks@.len() == 0,
            (r.extra_data.terminal matches Some(t) && t@ == seq![0u8, 0u8, 0u8, 0u8]),
    {
        let r = ShellLink {
            header: ShellLinkHeader::default(),
            linktarget_id_list: None,
            link_info: None,
            string_data: StringData::default(),
            extra_data: ExtraData::default(),
        };
        proof {
            let b = r.header.link_flags.bits;
            assert(!(b & HAS_LINK_TARGET_ID_LIST == HAS_LINK_TARGET_ID_LIST) && !(b
                & HAS_LINK_INFO == HAS_LINK_INFO)) by (bit_vector)
                requires
                    b == 0x80u32,
            ;
            assert forall|k: int| 0 <= k < 5 implies (#[trigger] slot_views(r.string_data)[k]
                is Some) == crate::stringdata::slot_flags(r.header.link_flags)[k] by {
                assert(!(b & HAS_NAME == HAS_NAME) && !(b & HAS_RELATIVE_PATH
                    == HAS_RELATIVE_PATH) && !(b & HAS_WORKING_DIR == HAS_WORKING_DIR) && !(b
                    & HAS_ARGUMENTS == HAS_ARGUMENTS) && !(b & HAS_ICON_LOCATION
                    == HAS_ICON_LOCATION)) by (bit_vector)
                    requires
                        b == 0x80u32,
                ;
            }
        }
        r
    }
}

impl ShellLink {
    /// Decodes a whole shell link from its bytes, with the caller's
    /// default code page for non-Unicode strings, succeeding exactly
    /// when the input does decode: the header's flags gate each
    /// optional structure, reading stops after the extension chain,
    /// and whatever was read re-emits byte-identically. A target ID
    /// list must end with its sentinel inside its budget: an item loop
    /// that merely exhausts the budget leaves nothing that could be
    /// re-emitted faithfully, so it is rejected here.
    #[verifier::spinoff_prover]
    #[verifier::rlimit(100)]
    pub fn parse(data: &[u8], default_code_page: CodePage) -> (r: Result<ShellLink, Error>)
        ensures
            (r is Ok) == parse_ok(data@, default_code_page),
            ({
                let s = data@;
                match r {
                    Ok(link) => {
                        &&& link.wf()
                        &&& s.len() >= 76
                        &&& magic_ok(s, 0)
                        &&& header_body_ok(s, 0)
                        &&& (link.link_info matches Some(li) ==> li.code_page
                            == default_code_page)
                        &&& (link.spec_bytes(default_code_page) matches Some(b) && b.len()
                            <= s.len() && b == s.subrange(0, b.len() as int))
                    },
                    Err(e) => true,
                }
            }),
            (r matches Err(e) && e is NotAShellLink) <==> (data@.len() < 4 || le32_at(data@, 0)
                != 0x4C || (data@.len() >= 76 && !magic_ok(data@, 0))),
            (data@.len() >= 76 && magic_ok(data@, 0) && !header_body_ok(data@, 0)) ==> (
            r matches Err(e) && e matches Error::Parse { offset, .. } && offset == if le32_at(
                data@,
                20,
            ) >= 0x0800_0000 {
                24int
            } else if le32_at(data@, 24) >= 0x8000 {
                28int
            } else if crate::header::ShowCommand::spec_of_word(le32_at(data@, 60)) is None {
                60int
            } else if le16_at(data@, 66) != 0 {
                66int
            } else if le32_at(data@, 68) != 0 {
                68int
            } else {
                72int
            }),
    {
        let n = data.len();
        if n < 4 {
            return Err(Error::NotAShellLink);
        }
        if read_u32(data, 0) != 0x4C {
            return Err(Error::NotAShellLink);
        }
        if n < 76 {
            proof {
                assert(!(data@.len() >= 76 && !magic_ok(data@, 0)));
            }
            return Err(
                Error::Parse { offset: n as u64, message: crate::text::short_input_message() },
            );
        }
        let header = match read_header(data, 0) {
            Ok(h) => h,
            Err(e) => {
                return Err(e);
            },
        };
        Self::parse_rest(data, header, default_code_page)
    }

    /// Decodes everything after the header: the flag-gated structures,
    /// the strings and the extension chain.
    #[verifier::spinoff_prover]
    #[verifier::rlimit(100)]
    fn parse_rest(data: &[u8], header: ShellLinkHeader, cp: CodePage) -> (r: Result<ShellLink, Error>)
        requires
            data@.len() >= 76,
            header.wf(),
            header.bytes() == data@.subrange(0, 76),
            header.is_read_of(data@, 0),
        ensures
            (r is Ok) == (spec_ids_ok(data@) && spec_li_ok(data@, cp) && spec_sd_ok(data@, cp)
                && spec_ed_ok(data@, cp)),
            ({
                let s = data@;
                match r {
                    Ok(link) => {
                        &&& link.wf()
                        &&& link.header == header
                        &&& (link.link_info matches Some(li) ==> li.code_page == cp)
                        &&& (link.spec_bytes(cp) matches Some(b) && b.len() <= s.len() && b
                            == s.subrange(0, b.len() as int))
                    },
                    Err(e) => e matches Error::Parse { .. },
                }
            }),
    {
        let n = data.len();
        let flags = header.link_flags;
        let mut cur: usize = 76;
        let ghost s = data@;
        proof {
            assert(spec_flags_of(s) == header.link_flags);
        }

        let mut linktarget_id_list: Option<LinkTargetIdList> = None;
        let ghost mut ids_end: int = 76;
        if flags.contains(HAS_LINK_TARGET_ID_LIST) {
            if n - cur < 2 {
                return Err(
                    Error::Parse { offset: n as u64, message: crate::text::short_input_message() },
                );
            }
            let (l, end, sentinel) = match read_link_target_id_list(data, cur) {
                Ok(v) => v,
                Err(e) => {
                    return Err(e);
                },
            };
            if !sentinel {
                return Err(
                    Error::Parse {
                        offset: end as u64,
                        message: crate::text::terminator_message(),
                    },
                );
            }
            linktarget_id_list = Some(l);
            cur = end;
            proof {
                ids_end = end as int;
            }
        }
        let ghost p2 = cur as int;
        proof {
            assert(spec_ids_ok(s) && spec_ids_end(s) == p2);
        }
        let mut link_info: Option<LinkInfo> = None;
        if flags.contains(HAS_LINK_INFO) {
            let (li, end) = match read_link_info(data, cur, cp) {
                Ok(v) => v,
                Err(e) => {
                    return Err(e);
                },
            };
            link_info = Some(li);
            cur = end;
        }
        let ghost p3 = cur as int;
        proof {
            assert(spec_li_ok(s, cp) && spec_li_end(s, cp) == p3);
        }
        let (string_data, sd_end) = match read_string_data(data, cur, &flags, cp) {
            Ok(v) => v,
            Err(e) => {
                return Err(e);
            },
        };
        cur = sd_end;
        let ghost p4 = cur as int;
        proof {
            assert(spec_sd_ok(s, cp) && spec_sd_end(s, cp) == p4);
        }
        let (extra_data, ed_end) = match read_extra_data(data, cur) {
            Ok(v) => v,
            Err(e) => {
                return Err(e);
            },
        };
        let link = ShellLink { header, linktarget_id_list, link_info, string_data, extra_data };
        proof {
            let b_end = ed_end as int;
            let ghost lt = link.linktarget_id_list;
            match lt {
                Some(l) => {
                    assert(l.bytes() =~= s.subrange(76, ids_end));
                },
                None => {},
            }
            lemma_assemble_link(link, cp, s, ids_end, p2, p3, p4, b_end);
        }
        Ok(link)
    }

    /// Encodes a whole shell link, with the caller's default code page
    /// for non-Unicode strings, recomputing every presence bit from
    /// its structure's presence before emitting the header. Fails, with
    /// nothing emitted, exactly when some present string slot cannot be
    /// encoded. What was emitted parses back, layer by layer, to the
    /// very same header fields, item payloads, link information bytes,
    /// string slots and extension blocks: writing and then reading
    /// preserves the whole link.
    #[verifier::spinoff_prover]
    #[verifier::rlimit(100)]
    pub fn to_bytes(&self, default_code_page: CodePage) -> (r: Result<Vec<u8>, Error>)
        requires
            self.writable(),
            (self.link_info matches Some(li) ==> li.code_page == default_code_page),
        ensures
            ({
                let cp = default_code_page;
                let flags = self.spec_recomputed_flags();
                let hdr = ShellLinkHeader { link_flags: flags, ..self.header };
                (r is Ok) == (string_data_bytes(self.string_data, flags, cp) is Some)
                    && match r {
                    Ok(out) => {
                        let adjusted = ShellLink { header: hdr, ..*self };
                        let p1 = 76int;
                        let ib = match self.linktarget_id_list {
                            Some(l) => l.bytes(),
                            None => Seq::<u8>::empty(),
                        };
                        let lb = match self.link_info {
                            Some(li) => li.bytes(),
                            None => Seq::<u8>::empty(),
                        };
                        let sb = match string_data_bytes(self.string_data, flags, cp) {
                            Some(b) => b,
                            None => Seq::<u8>::empty(),
                        };
                        let p2 = p1 + ib.len() as int;
                        let p3 = p2 + lb.len() as int;
                        let p4 = p3 + sb.len() as int;
                        &&& Some(out@) == adjusted.spec_bytes(cp)
                        &&& out@.len() == p4 + self.extra_data.bytes().len()
                        &&& hdr.wf()
                        &&& magic_ok(out@, 0)
                        &&& header_body_ok(out@, 0)
                        &&& hdr.is_read_of(out@, 0)
                        &&& match self.linktarget_id_list {
                            Some(l) => le16_at(out@, p1) == l.size && parse_items(
                                out@,
                                p1 + 2,
                                p1 + 2 + l.size,
                            ) == Decoded::Found((items_datas(l.items@), true), p2),
                            None => true,
                        }
                        &&& match self.link_info {
                            Some(li) => parse_link_info(cp, out@, p2) == Decoded::Found(
                                li.raw@,
                                p3,
                            ),
                            None => true,
                        }
                        &&& parse_string_data(out@, p3, flags, cp) == Decoded::Found(
                            slot_views(self.string_data),
                            p4,
                        )
                        &&& parse_blocks(out@, p4) == Decoded::Found(
                            (block_raws(self.extra_data.blocks@), term_view(
                                self.extra_data.terminal,
                            )),
                            out@.len() as int,
                        )
                        &&& parse_ok(out@, cp)
                    },
                    Err(e) => e matches Error::Parse { .. },
                }
            }),
    {
        let cp = default_code_page;
        proof {
            lemma_recomputed_flags(*self);
        }
        let flags = self.recomputed_flags();
        let hdr = ShellLinkHeader { link_flags: flags, ..self.header };
        let mut out: Vec<u8> = Vec::new();
        write_header(&mut out, &hdr);
        let ghost s1 = out@;
        let p1 = out.len();
        match &self.linktarget_id_list {
            Some(l) => {
                write_link_target_id_list(&mut out, l);
            },
            None => {},
        }
        let ghost s2 = out@;
        let p2 = out.len();
        match &self.link_info {
            Some(li) => {
                write_link_info(&mut out, li);
            },
            None => {},
        }
        let ghost s3 = out@;
        let p3 = out.len();
        match write_string_data(&mut out, &self.string_data, &flags, cp) {
            Ok(()) => {},
            Err(e) => {
                return Err(e);
            },
        }
        let p4 = out.len();
        let ghost s4 = out@;
        write_extra_data(&mut out, &self.extra_data);
        proof {
            let s = out@;
            let ghost slt = self.linktarget_id_list;
            let ghost sli = self.link_info;
            let ib = match slt {
                Some(l) => l.bytes(),
                None => Seq::<u8>::empty(),
            };
            let lb = match sli {
                Some(li) => li.bytes(),
                None => Seq::<u8>::empty(),
            };
            let sb = s4.subrange(p3 as int, p4 as int);
            assert(s2 =~= s1 + ib);
            assert(s3 =~= s2 + lb);
            assert(s4 =~= s3 + sb);
            assert(s =~= s4 + self.extra_data.bytes());
            assert(s.subrange(0, 76) =~= s1) by {
                crate::bytes::lemma_prefix_subrange(s4, self.extra_data.bytes(), 0, 76);
                crate::bytes::lemma_prefix_subrange(s3, sb, 0, 76);
                crate::bytes::lemma_prefix_subrange(s2, lb, 0, 76);
                crate::bytes::lemma_prefix_subrange(s1, ib, 0, 76);
                assert(s1.subrange(0, 76) =~= s1);
            }
            lemma_header_read_back(hdr, s, 0);
            let ghost lt = self.linktarget_id_list;
            match lt {
                Some(l) => {
                    assert(s.subrange(p1 as int, p2 as int) =~= l.bytes()) by {
                        crate::bytes::lemma_prefix_subrange(
                            s4,
                            self.extra_data.bytes(),
                            p1 as int,
                            p2 as int,
                        );
                        crate::bytes::lemma_prefix_subrange(s3, sb, p1 as int, p2 as int);
                        crate::bytes::lemma_prefix_subrange(s2, lb, p1 as int, p2 as int);
                        assert(s2.subrange(p1 as int, p2 as int) =~= l.bytes());
                    }
                    crate::linktarget::lemma_items_bytes_len(items_datas(l.items@));
                    lemma_read_back(l, s, p1 as int, p2 as int);
                },
                None => {},
            }
            let ghost lio = self.link_info;
            match lio {
                Some(li) => {
                    reveal(crate::linkinfo::LinkInfo::wf);
                    assert(s.subrange(p2 as int, p3 as int) =~= li.raw@) by {
                        crate::bytes::lemma_prefix_subrange(
                            s4,
                            self.extra_data.bytes(),
                            p2 as int,
                            p3 as int,
                        );
                        crate::bytes::lemma_prefix_subrange(s3, sb, p2 as int, p3 as int);
                        assert(s3.subrange(p2 as int, p3 as int) =~= li.raw@);
                    }
                    lemma_parse_link_info_of_chunk(cp, s, p2 as int, li.raw@);
                },
                None => {},
            }
            assert(s.subrange(p3 as int, p4 as int) =~= s4.subrange(p3 as int, p4 as int)) by {
                crate::bytes::lemma_prefix_subrange(
                    s4,
                    self.extra_data.bytes(),
                    p3 as int,
                    p4 as int,
                );
            }
            lemma_parse_string_data_at(
                s4,
                p3 as int,
                s,
                p3 as int,
                slot_views(self.string_data),
                p4 as int,
                flags,
                cp,
            );
            assert(s.subrange(p4 as int, s.len() as int) =~= self.extra_data.bytes());
            lemma_assemble_extra(s, p4 as int, self.extra_data);
            assert(Some(s) == (ShellLink { header: hdr, ..*self }).spec_bytes(cp)) by {
                assert(s =~= hdr.bytes() + ib + lb + sb + self.extra_data.bytes());
            }
            assert(spec_flags_of(s) == flags);
            assert(spec_ids_ok(s) && spec_ids_end(s) == p2 as int) by {
                match lt {
                    Some(l) => {
                        crate::linktarget::lemma_items_bytes_len(items_datas(l.items@));
                    },
                    None => {
                        assert(ib =~= Seq::<u8>::empty());
                    },
                }
            }
            assert(spec_li_ok(s, cp) && spec_li_end(s, cp) == p3 as int) by {
                match lio {
                    Some(li) => {},
                    None => {
                        assert(lb =~= Seq::<u8>::empty());
                    },
                }
            }
            assert(spec_sd_ok(s, cp) && spec_sd_end(s, cp) == p4 as int);
            assert(spec_ed_ok(s, cp));
        }
        Ok(out)
    }

    /// Builds a link for a file-system target, from what the file
    /// system reports of it: a directory target carries the directory
    /// attribute; a file target carries a relative path to its name
    /// and its parent directory as the working directory. The caller
    /// looks the target up and hands in what it found.
    pub fn new_simple(is_directory: bool, file_name: &str, parent: &str) -> (r: ShellLink)
        ensures
            r.wf(),
            crate::guid::is_link_clsid(r.header.link_clsid),
            r.header.creation_time.raw == 0,
            r.header.access_time.raw == 0,
            r.header.write_time.raw == 0,
            r.header.file_size == 0,
            r.header.icon_index == 0,
            r.header.show_command == crate::header::ShowCommand::ShowNormal,
            r.header.hotkey == 0,
            r.linktarget_id_list is None,
            r.link_info is None,
            r.extra_data.blocks@.len() == 0,
            (r.extra_data.terminal matches Some(t) && t@ == seq![0u8, 0u8, 0u8, 0u8]),
            r.header.file_attributes.bits == if is_directory {
                crate::flags::FILE_ATTRIBUTE_DIRECTORY
            } else {
                crate::flags::FILE_ATTRIBUTE_NORMAL
            },
            r.string_data.name_string is None,
            r.string_data.command_line_arguments is None,
            r.string_data.icon_location is None,
            is_directory ==> r.header.link_flags.bits == crate::flags::IS_UNICODE
                && r.string_data.relative_path is None && r.string_data.working_dir is None,
            !is_directory ==> {
                &&& (r.string_data.relative_path matches Some(p) && p@ == seq!['.', '\\']
                    + file_name@)
                &&& (r.string_data.working_dir matches Some(w) && w@ == parent@)
            },
    {
        let mut r = ShellLink::default();
        if is_directory {
            r.header.file_attributes = crate::flags::FileAttributeFlags {
                bits: crate::flags::FILE_ATTRIBUTE_DIRECTORY,
            };
            r
        } else {
            r.header.file_attributes = crate::flags::FileAttributeFlags {
                bits: crate::flags::FILE_ATTRIBUTE_NORMAL,
            };
            let mut rel = (".\\").to_owned();
            rel.append(file_name);
            proof {
                reveal_strlit(".\\");
                assert((".\\")@ =~= seq!['.', '\\']);
            }
            r.set_relative_path(Some(rel));
            r.set_working_dir(Some(parent.to_owned()));
            proof {
                lemma_new_simple_flags(r.header.link_flags);
            }
            r
        }
    }

    /// Decodes a link and encodes it again, with every presence bit
    /// recomputed: the one-call form of reading and saving. It succeeds
    /// exactly when the input decodes, and then returns the very prefix
    /// of the input that was decoded: on a parsed link, recomputing
    /// presence changes nothing and every structure re-emits verbatim.
    #[verifier::spinoff_prover]
    #[verifier::rlimit(100)]
    pub fn rewrite(data: &[u8], default_code_page: CodePage) -> (r: Result<Vec<u8>, Error>)
        ensures
            (r is Ok) == parse_ok(data@, default_code_page),
            r matches Ok(out) ==> out@.len() <= data@.len() && out@ == data@.subrange(
                0,
                out@.len() as int,
            ),
            (r matches Err(e) && e is NotAShellLink) <==> (data@.len() < 4 || le32_at(data@, 0)
                != 0x4C || (data@.len() >= 76 && !magic_ok(data@, 0))),
    {
        let link = match Self::parse(data, default_code_page) {
            Ok(l) => l,
            Err(e) => {
                return Err(e);
            },
        };
        proof {
            lemma_recompute_noop(link);
        }
        let out = match link.to_bytes(default_code_page) {
            Ok(o) => o,
            Err(e) => {
                return Err(e);
            },
        };
        proof {
            let hdr = ShellLinkHeader {
                link_flags: link.spec_recomputed_flags(),
                ..link.header
            };
            assert(hdr == link.header);
            assert(ShellLink { header: hdr, ..link } == link);
        }
        Ok(out)
    }

    /// Computes the header flags with every presence bit recomputed.
    fn recomputed_flags(&self) -> (r: LinkFlags)
        ensures
            r == self.spec_recomputed_flags(),
    {
        let f = self.header.link_flags.update(
            HAS_LINK_TARGET_ID_LIST,
            self.linktarget_id_list.is_some(),
        );
        let f = f.update(HAS_LINK_INFO, self.link_info.is_some());
        let f = f.update(HAS_NAME, self.string_data.name_string.is_some());
        let f = f.update(HAS_RELATIVE_PATH, self.string_data.relative_path.is_some());
        let f = f.update(HAS_WORKING_DIR, self.string_data.working_dir.is_some());
        let f = f.update(HAS_ARGUMENTS, self.string_data.command_line_arguments.is_some());
        let f = f.update(HAS_ICON_LOCATION, self.string_data.icon_location.is_some());
        f
    }

    /// The header.
    pub fn header(&self) -> (r: &ShellLinkHeader)
        ensures
            r == self.header,
    {
        &self.header
    }

    /// The target ID list, where one is present.
    pub fn linktarget_id_list(&self) -> (r: &Option<LinkTargetIdList>)
        ensures
            r == self.linktarget_id_list,
    {
        &self.linktarget_id_list
    }

    /// The link information, where it is present.
    pub fn link_info(&self) -> (r: &Option<LinkInfo>)
        ensures
            r == self.link_info,
    {
        &self.link_info
    }

    /// The five string slots.
    pub fn string_data(&self) -> (r: &StringData)
        ensures
            r == self.string_data,
    {
        &self.string_data
    }

    /// The extension block chain.
    pub fn extra_data(&self) -> (r: &ExtraData)
        ensures
            r == self.extra_data,
    {
        &self.extra_data
    }

    /// The full path of the link target, composed from the link
    /// information: the network share name or the local base path,
    /// a separator where one is needed, and the common path suffix,
    /// preferring the UTF-16 mirrors. Nothing without link information.
    pub fn link_target(&self) -> (r: Option<String>)
        ensures
            opt_string_view(r) == spec_link_target(*self),
    {
        match &self.link_info {
            None => None,
            Some(info) => {
                let base: String = if info.has_common_network_relative_link_and_path_suffix() {
                    match info.common_network_relative_link() {
                        Some(c) => c.name(),
                        None => {
                            return None;
                        },
                    }
                } else {
                    match info.local_base_path_unicode() {
                        Some(s) => clone_string(s),
                        None => match info.local_base_path() {
                            Some(s) => clone_string(s),
                            None => {
                                return None;
                            },
                        },
                    }
                };
                let suffix: &String = match info.common_path_suffix_unicode() {
                    Some(s) => s,
                    None => info.common_path_suffix(),
                };
                let blen = base.as_str().unicode_len();
                let sep = if blen > 0 && base.as_str().get_char(blen - 1) == '\\' {
                    ""
                } else {
                    "\\"
                };
                proof {
                    reveal_strlit("");
                    reveal_strlit("\\");
                }
                let joined = base.concat(sep).concat(suffix.as_str());
                proof {
                    assert(joined@ =~= spec_link_target(*self).unwrap());
                }
                Some(joined)
            },
        }
    }

    /// Sets the name slot and its presence bit together.
    pub fn set_name(&mut self, name: Option<String>)
        ensures
            final(self).string_data.name_string == name,
            final(self).header.link_flags == old(self).header.link_flags.spec_update(
                HAS_NAME,
                name is Some,
            ),
            *final(self) == (ShellLink {
                header: final(self).header,
                string_data: final(self).string_data,
                ..*old(self)
            }),
            final(self).header == (ShellLinkHeader {
                link_flags: final(self).header.link_flags,
                ..old(self).header
            }),
            final(self).string_data == (StringData {
                name_string: name,
                ..old(self).string_data
            }),
    {
        let present = name.is_some();
        self.header.update_link_flags(LinkFlags { bits: HAS_NAME }, present);
        self.string_data.name_string = name;
    }

    /// Sets the relative path slot and its presence bit together.
    pub fn set_relative_path(&mut self, relative_path: Option<String>)
        ensures
            final(self).string_data.relative_path == relative_path,
            final(self).header.link_flags == old(self).header.link_flags.spec_update(
                HAS_RELATIVE_PATH,
                relative_path is Some,
            ),
            *final(self) == (ShellLink {
                header: final(self).header,
                string_data: final(self).string_data,
                ..*old(self)
            }),
            final(self).header == (ShellLinkHeader {
                link_flags: final(self).header.link_flags,
                ..old(self).header
            }),
            final(self).string_data == (StringData {
                relative_path: relative_path,
                ..old(self).string_data
            }),
    {
        let present = relative_path.is_some();
        self.header.update_link_flags(LinkFlags { bits: HAS_RELATIVE_PATH }, present);
        self.string_data.relative_path = relative_path;
    }

    /// Sets the working directory slot and its presence bit together.
    pub fn set_working_dir(&mut self, working_dir: Option<String>)
        ensures
            final(self).string_data.working_dir == working_dir,
            final(self).header.link_flags == old(self).header.link_flags.spec_update(
                HAS_WORKING_DIR,
                working_dir is Some,
            ),
            *final(self) == (ShellLink {
                header: final(self).header,
                string_data: final(self).string_data,
                ..*old(self)
            }),
            final(self).header == (ShellLinkHeader {
                link_flags: final(self).header.link_flags,
                ..old(self).header
            }),
            final(self).string_data == (StringData {
                working_dir: working_dir,
                ..old(self).string_data
            }),
    {
        let present = working_dir.is_some();
        self.header.update_link_flags(LinkFlags { bits: HAS_WORKING_DIR }, present);
        self.string_data.working_dir = working_dir;
    }

    /// Sets the command line arguments slot and its presence bit
    /// together.
    pub fn set_arguments(&mut self, arguments: Option<String>)
        ensures
            final(self).string_data.command_line_arguments == arguments,
            final(self).header.link_flags == old(self).header.link_flags.spec_update(
                HAS_ARGUMENTS,
                arguments is Some,
            ),
            *final(self) == (ShellLink {
                header: final(self).header,
                string_data: final(self).string_data,
                ..*old(self)
            }),
            final(self).header == (ShellLinkHeader {
                link_flags: final(self).header.link_flags,
                ..old(self).header
            }),
            final(self).string_data == (StringData {
                command_line_arguments: arguments,
                ..old(self).string_data
            }),
    {
        let present = arguments.is_some();
        self.header.update_link_flags(LinkFlags { bits: HAS_ARGUMENTS }, present);
        self.string_data.command_line_arguments = arguments;
    }

    /// Sets the icon location slot and its presence bit together.
    pub fn set_icon_location(&mut self, icon_location: Option<String>)
        ensures
            final(self).string_data.icon_location == icon_location,
            final(self).header.link_flags == old(self).header.link_flags.spec_update(
                HAS_ICON_LOCATION,
                icon_location is Some,
            ),
            *final(self) == (ShellLink {
                header: final(self).header,
                string_data: final(self).string_data,
                ..*old(self)
            }),
            final(self).header == (ShellLinkHeader {
                link_flags: final(self).header.link_flags,
                ..old(self).header
            }),
            final(self).string_data == (StringData {
                icon_location: icon_location,
                ..old(self).string_data
            }),
    {
        let present = icon_location.is_some();
        self.header.update_link_flags(LinkFlags { bits: HAS_ICON_LOCATION }, present);
        self.string_data.icon_location = icon_location;
    }
}

/// The character view of an optional string.
pub open spec fn opt_string_view(v: Option<String>) -> Option<Seq<char>> {
    match v {
        Some(s) => Some(s@),
        None => None,
    }
}

/// The full target path a link's link information composes: share name
/// or local base path, a backslash where the base does not end in one,
/// then the common path suffix, preferring the UTF-16 mirrors.
pub open spec fn spec_link_target(link: ShellLink) -> Option<Seq<char>> {
    match link.link_info {
        None => None,
        Some(info) => {
            let base = if has_network_bit(info.link_info_flags) {
                match info.common_network_relative_link {
                    Some(c) => Some(c.net_name@),
                    None => None,
                }
            } else {
                match info.local_base_path_unicode {
                    Some(s) => Some(s@),
                    None => match info.local_base_path {
                        Some(s) => Some(s@),
                        None => None,
                    },
                }
            };
            match base {
                None => None,
                Some(b) => {
                    let suffix = match info.common_path_suffix_unicode {
                        Some(s) => s@,
                        None => info.common_path_suffix@,
                    };
                    let sep: Seq<char> = if b.len() > 0 && b[b.len() - 1] == '\\' {
                        Seq::empty()
                    } else {
                        seq!['\\']
                    };
                    Some(b + sep + suffix)
                },
            }
        },
    }
}

/// Clones a string.
fn clone_string(s: &String) -> (r: String)
    ensures
        r@ == s@,
{
    let t = s.as_str();
    t.to_owned()
}

/// Setting a single defined bit to the value it already has changes
/// nothing.
proof fn lemma_set_noop(f: LinkFlags, m: u32, v: bool)
    requires
        m != 0,
        m & ((m - 1) as u32) == 0,
        f.flag(m) == v,
    ensures
        f.spec_update(m, v) == f,
{
    let b = f.bits;
    if v {
        assert(b | m == b) by (bit_vector)
            requires
                b & m == m,
        ;
    } else {
        assert(b & !m == b) by (bit_vector)
            requires
                !(b & m == m),
                m != 0,
                m & ((m - 1) as u32) == 0,
        ;
    }
}

/// On a well-formed link the presence bits already equal each
/// structure's presence, so recomputing them changes nothing.
proof fn lemma_recompute_noop(link: ShellLink)
    requires
        link.wf(),
    ensures
        link.spec_recomputed_flags() == link.header.link_flags,
{
    assert(HAS_LINK_TARGET_ID_LIST != 0 && HAS_LINK_TARGET_ID_LIST & 0u32 == 0 && HAS_LINK_INFO
        != 0 && HAS_LINK_INFO & 1u32 == 0 && HAS_NAME != 0 && HAS_NAME & 3u32 == 0
        && HAS_RELATIVE_PATH != 0 && HAS_RELATIVE_PATH & 7u32 == 0 && HAS_WORKING_DIR != 0
        && HAS_WORKING_DIR & 0xFu32 == 0 && HAS_ARGUMENTS != 0 && HAS_ARGUMENTS & 0x1Fu32 == 0
        && HAS_ICON_LOCATION != 0 && HAS_ICON_LOCATION & 0x3Fu32 == 0) by (bit_vector);
    let f = link.header.link_flags;
    assert(crate::stringdata::slot_views(link.string_data)[0] == crate::stringdata::opt_view(
        link.string_data.name_string,
    ));
    assert(crate::stringdata::slot_views(link.string_data)[1] == crate::stringdata::opt_view(
        link.string_data.relative_path,
    ));
    assert(crate::stringdata::slot_views(link.string_data)[2] == crate::stringdata::opt_view(
        link.string_data.working_dir,
    ));
    assert(crate::stringdata::slot_views(link.string_data)[3] == crate::stringdata::opt_view(
        link.string_data.command_line_arguments,
    ));
    assert(crate::stringdata::slot_views(link.string_data)[4] == crate::stringdata::opt_view(
        link.string_data.icon_location,
    ));
    lemma_set_noop(f, HAS_LINK_TARGET_ID_LIST, link.linktarget_id_list is Some);
    lemma_set_noop(f, HAS_LINK_INFO, link.link_info is Some);
    lemma_set_noop(f, HAS_NAME, link.string_data.name_string is Some);
    lemma_set_noop(f, HAS_RELATIVE_PATH, link.string_data.relative_path is Some);
    lemma_set_noop(f, HAS_WORKING_DIR, link.string_data.working_dir is Some);
    lemma_set_noop(f, HAS_ARGUMENTS, link.string_data.command_line_arguments is Some);
    lemma_set_noop(f, HAS_ICON_LOCATION, link.string_data.icon_location is Some);
}

/// Setting the relative-path and working-directory bits on the blank
/// flags word sets exactly those two presence bits.
proof fn lemma_new_simple_flags(f: LinkFlags)
    requires
        f == (LinkFlags { bits: crate::flags::IS_UNICODE }).spec_update(
            HAS_RELATIVE_PATH,
            true,
        ).spec_update(HAS_WORKING_DIR, true),
    ensures
        f.wf(),
        !f.spec_has_link_target_id_list(),
        !f.spec_has_link_info(),
        !f.spec_has_name(),
        f.spec_has_relative_path(),
        f.spec_has_working_dir(),
        !f.spec_has_arguments(),
        !f.spec_has_icon_location(),
{
    let b = f.bits;
    assert(b == (0x80u32 | 0x8u32) | 0x10u32);
    assert({
        let v = (0x80u32 | 0x8u32) | 0x10u32;
        &&& v < 0x0800_0000
        &&& !(v & HAS_LINK_TARGET_ID_LIST == HAS_LINK_TARGET_ID_LIST)
        &&& !(v & HAS_LINK_INFO == HAS_LINK_INFO)
        &&& !(v & HAS_NAME == HAS_NAME)
        &&& v & HAS_RELATIVE_PATH == HAS_RELATIVE_PATH
        &&& v & HAS_WORKING_DIR == HAS_WORKING_DIR
        &&& !(v & HAS_ARGUMENTS == HAS_ARGUMENTS)
        &&& !(v & HAS_ICON_LOCATION == HAS_ICON_LOCATION)
    }) by (bit_vector);
}

/// Recomputing the presence bits leaves a well-formed flags word whose
/// every presence bit equals its structure's presence, with the
/// encoding bit untouched.
proof fn lemma_recomputed_flags(link: ShellLink)
    requires
        link.header.link_flags.wf(),
    ensures
        ({
            let f = link.spec_recomputed_flags();
            &&& f.wf()
            &&& f.spec_has_link_target_id_list() == (link.linktarget_id_list is Some)
            &&& f.spec_has_link_info() == (link.link_info is Some)
            &&& f.spec_has_name() == (link.string_data.name_string is Some)
            &&& f.spec_has_relative_path() == (link.string_data.relative_path is Some)
            &&& f.spec_has_working_dir() == (link.string_data.working_dir is Some)
            &&& f.spec_has_arguments() == (link.string_data.command_line_arguments is Some)
            &&& f.spec_has_icon_location() == (link.string_data.icon_location is Some)
            &&& f.spec_is_unicode() == link.header.link_flags.spec_is_unicode()
            &&& consistent(link.string_data, f)
        }),
{
    assert(HAS_LINK_TARGET_ID_LIST & LINK_FLAGS_MASK == HAS_LINK_TARGET_ID_LIST && HAS_LINK_INFO
        & LINK_FLAGS_MASK == HAS_LINK_INFO && HAS_NAME & LINK_FLAGS_MASK == HAS_NAME
        && HAS_RELATIVE_PATH & LINK_FLAGS_MASK == HAS_RELATIVE_PATH && HAS_WORKING_DIR
        & LINK_FLAGS_MASK == HAS_WORKING_DIR && HAS_ARGUMENTS & LINK_FLAGS_MASK == HAS_ARGUMENTS
        && HAS_ICON_LOCATION & LINK_FLAGS_MASK == HAS_ICON_LOCATION && HAS_LINK_TARGET_ID_LIST
        & HAS_LINK_INFO == 0 && HAS_LINK_TARGET_ID_LIST & HAS_NAME == 0
        && HAS_LINK_TARGET_ID_LIST & HAS_RELATIVE_PATH == 0 && HAS_LINK_TARGET_ID_LIST
        & HAS_WORKING_DIR == 0 && HAS_LINK_TARGET_ID_LIST & HAS_ARGUMENTS == 0
        && HAS_LINK_TARGET_ID_LIST & HAS_ICON_LOCATION == 0 && HAS_LINK_INFO & HAS_NAME == 0
        && HAS_LINK_INFO & HAS_RELATIVE_PATH == 0 && HAS_LINK_INFO & HAS_WORKING_DIR == 0
        && HAS_LINK_INFO & HAS_ARGUMENTS == 0 && HAS_LINK_INFO & HAS_ICON_LOCATION == 0
        && HAS_NAME & HAS_RELATIVE_PATH == 0 && HAS_NAME & HAS_WORKING_DIR == 0 && HAS_NAME
        & HAS_ARGUMENTS == 0 && HAS_NAME & HAS_ICON_LOCATION == 0 && HAS_RELATIVE_PATH
        & HAS_WORKING_DIR == 0 && HAS_RELATIVE_PATH & HAS_ARGUMENTS == 0 && HAS_RELATIVE_PATH
        & HAS_ICON_LOCATION == 0 && HAS_WORKING_DIR & HAS_ARGUMENTS == 0 && HAS_WORKING_DIR
        & HAS_ICON_LOCATION == 0 && HAS_ARGUMENTS & HAS_ICON_LOCATION == 0
        && crate::flags::IS_UNICODE & HAS_LINK_TARGET_ID_LIST == 0 && crate::flags::IS_UNICODE
        & HAS_LINK_INFO == 0 && crate::flags::IS_UNICODE & HAS_NAME == 0
        && crate::flags::IS_UNICODE & HAS_RELATIVE_PATH == 0 && crate::flags::IS_UNICODE
        & HAS_WORKING_DIR == 0 && crate::flags::IS_UNICODE & HAS_ARGUMENTS == 0
        && crate::flags::IS_UNICODE & HAS_ICON_LOCATION == 0) by (bit_vector);
    let f0 = link.header.link_flags;
    let v1 = link.linktarget_id_list is Some;
    let v2 = link.link_info is Some;
    let v3 = link.string_data.name_string is Some;
    let v4 = link.string_data.relative_path is Some;
    let v5 = link.string_data.working_dir is Some;
    let v6 = link.string_data.command_line_arguments is Some;
    let v7 = link.string_data.icon_location is Some;
    let f1 = f0.spec_update(HAS_LINK_TARGET_ID_LIST, v1);
    let f2 = f1.spec_update(HAS_LINK_INFO, v2);
    let f3 = f2.spec_update(HAS_NAME, v3);
    let f4 = f3.spec_update(HAS_RELATIVE_PATH, v4);
    let f5 = f4.spec_update(HAS_WORKING_DIR, v5);
    let f6 = f5.spec_update(HAS_ARGUMENTS, v6);
    let f7 = f6.spec_update(HAS_ICON_LOCATION, v7);
    crate::flags::lemma_update_flag(f0, HAS_LINK_TARGET_ID_LIST, v1, crate::flags::IS_UNICODE);
    crate::flags::lemma_update_flag(f1, HAS_LINK_INFO, v2, HAS_LINK_TARGET_ID_LIST);
    crate::flags::lemma_update_flag(f1, HAS_LINK_INFO, v2, crate::flags::IS_UNICODE);
    crate::flags::lemma_update_flag(f2, HAS_NAME, v3, HAS_LINK_TARGET_ID_LIST);
    crate::flags::lemma_update_flag(f2, HAS_NAME, v3, HAS_LINK_INFO);
    crate::flags::lemma_update_flag(f2, HAS_NAME, v3, crate::flags::IS_UNICODE);
    crate::flags::lemma_update_flag(f3, HAS_RELATIVE_PATH, v4, HAS_LINK_TARGET_ID_LIST);
    crate::flags::lemma_update_flag(f3, HAS_RELATIVE_PATH, v4, HAS_LINK_INFO);
    crate::flags::lemma_update_flag(f3, HAS_RELATIVE_PATH, v4, HAS_NAME);
    crate::flags::lemma_update_flag(f3, HAS_RELATIVE_PATH, v4, crate::flags::IS_UNICODE);
    crate::flags::lemma_update_flag(f4, HAS_WORKING_DIR, v5, HAS_LINK_TARGET_ID_LIST);
    crate::flags::lemma_update_flag(f4, HAS_WORKING_DIR, v5, HAS_LINK_INFO);
    crate::flags::lemma_update_flag(f4, HAS_WORKING_DIR, v5, HAS_NAME);
    crate::flags::lemma_update_flag(f4, HAS_WORKING_DIR, v5, HAS_RELATIVE_PATH);
    crate::flags::lemma_update_flag(f4, HAS_WORKING_DIR, v5, crate::flags::IS_UNICODE);
    crate::flags::lemma_update_flag(f5, HAS_ARGUMENTS, v6, HAS_LINK_TARGET_ID_LIST);
    crate::flags::lemma_update_flag(f5, HAS_ARGUMENTS, v6, HAS_LINK_INFO);
    crate::flags::lemma_update_flag(f5, HAS_ARGUMENTS, v6, HAS_NAME);
    crate::flags::lemma_update_flag(f5, HAS_ARGUMENTS, v6, HAS_RELATIVE_PATH);
    crate::flags::lemma_update_flag(f5, HAS_ARGUMENTS, v6, HAS_WORKING_DIR);
    crate::flags::lemma_update_flag(f5, HAS_ARGUMENTS, v6, crate::flags::IS_UNICODE);
    crate::flags::lemma_update_flag(f6, HAS_ICON_LOCATION, v7, HAS_LINK_TARGET_ID_LIST);
    crate::flags::lemma_update_flag(f6, HAS_ICON_LOCATION, v7, HAS_LINK_INFO);
    crate::flags::lemma_update_flag(f6, HAS_ICON_LOCATION, v7, HAS_NAME);
    crate::flags::lemma_update_flag(f6, HAS_ICON_LOCATION, v7, HAS_RELATIVE_PATH);
    crate::flags::lemma_update_flag(f6, HAS_ICON_LOCATION, v7, HAS_WORKING_DIR);
    crate::flags::lemma_update_flag(f6, HAS_ICON_LOCATION, v7, HAS_ARGUMENTS);
    crate::flags::lemma_update_flag(f6, HAS_ICON_LOCATION, v7, crate::flags::IS_UNICODE);
    assert(consistent(link.string_data, f7)) by {
        assert forall|k: int| 0 <= k < 5 implies (#[trigger] slot_views(link.string_data)[k]
            is Some) == crate::stringdata::slot_flags(f7)[k] by {
        }
    }
}

/// Carries each layer's parse fact over the whole input: what a parsed
/// link re-emits is the very prefix it was read from.
proof fn lemma_assemble_link(
    link: ShellLink,
    cp: CodePage,
    s: Seq<u8>,
    ids_end: int,
    p2: int,
    p3: int,
    p4: int,
    b_end: int,
)
    requires
        76 <= ids_end <= p2 <= p3 <= p4 <= b_end <= s.len(),
        link.header.bytes() == s.subrange(0, 76),
        match link.linktarget_id_list {
            Some(l) => l.bytes() == s.subrange(76, ids_end) && p2 == ids_end,
            None => ids_end == 76 && p2 == 76,
        },
        match link.link_info {
            Some(li) => li.bytes() == s.subrange(p2, p3),
            None => p3 == p2,
        },
        string_data_bytes(link.string_data, link.header.link_flags, cp) == Some(
            s.subrange(p3, p4),
        ),
        link.extra_data.bytes() == s.subrange(p4, b_end),
    ensures
        link.spec_bytes(cp) matches Some(b) && b.len() == b_end && b == s.subrange(0, b_end),
{
    let hb = link.header.bytes();
    let ib = match link.linktarget_id_list {
        Some(l) => l.bytes(),
        None => Seq::<u8>::empty(),
    };
    let lb = match link.link_info {
        Some(li) => li.bytes(),
        None => Seq::<u8>::empty(),
    };
    let sb = s.subrange(p3, p4);
    let eb = link.extra_data.bytes();
    assert(ib =~= s.subrange(76, p2));
    assert(lb =~= s.subrange(p2, p3));
    assert(hb + ib + lb + sb + eb =~= s.subrange(0, b_end));
}

/// Carries the extension chain's structure over the final buffer: what
/// the writer emitted parses back to the same blocks and terminal.
proof fn lemma_assemble_extra(s: Seq<u8>, i: int, ed: ExtraData)
    requires
        0 <= i,
        ed.wf(),
        s.len() == i + ed.bytes().len(),
        s.subrange(i, s.len() as int) == ed.bytes(),
    ensures
        parse_blocks(s, i) == Decoded::Found(
            (block_raws(ed.blocks@), term_view(ed.terminal)),
            s.len() as int,
        ),
{
    let raws = block_raws(ed.blocks@);
    let body = cat_raws(raws);
    assert forall|k: int| 0 <= k < raws.len() implies crate::extradata::chunk_ok(
        #[trigger] raws[k],
    ) by {
        assert(ed.blocks@[k].wf());
        lemma_wf_chunk_ok(ed.blocks@[k]);
        assert(raws[k] == ed.blocks@[k].raw_bytes());
    }
    assert(s.subrange(i, i + body.len() as int) =~= body) by {
        assert forall|k: int| 0 <= k < body.len() implies s[i + k] == #[trigger] body[k] by {
            assert(s.subrange(i, s.len() as int)[k] == s[i + k]);
            assert(ed.bytes()[k] == (body + (match ed.terminal {
                Some(t) => t@,
                None => Seq::<u8>::empty(),
            }))[k]);
        }
    }
    match ed.terminal {
        Some(t) => {
            assert(s.subrange(i + body.len() as int, s.len() as int) =~= t@) by {
                assert forall|k: int| 0 <= k < 4 implies s[i + body.len() + k] == #[trigger] t@[k]
                    by {
                    assert(s.subrange(i, s.len() as int)[body.len() + k] == s[i + body.len() + k]);
                    assert(ed.bytes()[body.len() + k] == (body + t@)[body.len() + k]);
                }
            }
            lemma_parse_blocks_of_chunks(s, i, raws, Some(t@));
        },
        None => {
            lemma_parse_blocks_of_chunks(s, i, raws, None);
        },
    }
}

} // verus!
