//! The two bitset fields of the header: LinkFlags and FileAttributeFlags.
//! Each holds a 32-bit word of named bits; a raw word with bits outside
//! the defined mask is rejected when read, so every held value re-emits
//! faithfully.

use vstd::prelude::*;

use crate::bytes::{enc_u32, le32_at, lemma_enc_le32, read_u32, write_u32};

verus! {

/// The shell link is saved with an item ID list.
pub const HAS_LINK_TARGET_ID_LIST: u32 = 0x0000_0001;

/// The shell link is saved with link information.
pub const HAS_LINK_INFO: u32 = 0x0000_0002;

/// The shell link is saved with a name string.
pub const HAS_NAME: u32 = 0x0000_0004;

/// The shell link is saved with a relative path string.
pub const HAS_RELATIVE_PATH: u32 = 0x0000_0008;

/// The shell link is saved with a working directory string.
pub const HAS_WORKING_DIR: u32 = 0x0000_0010;

/// The shell link is saved with command line arguments.
pub const HAS_ARGUMENTS: u32 = 0x0000_0020;

/// The shell link is saved with an icon location string.
pub const HAS_ICON_LOCATION: u32 = 0x0000_0040;

/// The StringData section holds UTF-16 strings; otherwise it holds
/// strings in the default code page.
pub const IS_UNICODE: u32 = 0x0000_0080;

/// The LinkInfo structure is ignored.
pub const FORCE_NO_LINK_INFO: u32 = 0x0000_0100;

/// The shell link is saved with an EnvironmentVariable extension block.
pub const HAS_EXP_STRING: u32 = 0x0000_0200;

/// A 16-bit target is run in a separate virtual machine.
pub const RUN_IN_SEPARATE_PROCESS: u32 = 0x0000_0400;

/// A bit that is undefined and must be ignored.
pub const UNUSED1: u32 = 0x0000_0800;

/// The shell link is saved with a Darwin extension block.
pub const HAS_DARWIN_ID: u32 = 0x0000_1000;

/// The application is run as a different user.
pub const RUN_AS_USER: u32 = 0x0000_2000;

/// The shell link is saved with an IconEnvironment extension block.
pub const HAS_EXP_ICON: u32 = 0x0000_4000;

/// The file system location is represented in the shell namespace.
pub const NO_PIDL_ALIAS: u32 = 0x0000_8000;

/// A bit that is undefined and must be ignored.
pub const UNUSED2: u32 = 0x0001_0000;

/// The shell link is saved with a Shim extension block.
pub const RUN_WITH_SHIM_LAYER: u32 = 0x0002_0000;

/// The Tracker extension block is ignored.
pub const FORCE_NO_LINK_TRACK: u32 = 0x0004_0000;

/// Target properties are collected into the PropertyStore block.
pub const ENABLE_TARGET_METADATA: u32 = 0x0008_0000;

/// The EnvironmentVariable extension block is ignored.
pub const DISABLE_LINK_PATH_TRACKING: u32 = 0x0010_0000;

/// The SpecialFolder and KnownFolder extension blocks are ignored.
pub const DISABLE_KNOWN_FOLDER_TRACKING: u32 = 0x0020_0000;

/// The unaliased form of the known folder ID list is used.
pub const DISABLE_KNOWN_FOLDER_ALIAS: u32 = 0x0040_0000;

/// A link may reference another link.
pub const ALLOW_LINK_TO_LINK: u32 = 0x0080_0000;

/// The unaliased form is used when saving under a known folder.
pub const UNALIAS_ON_SAVE: u32 = 0x0100_0000;

/// The path from the EnvironmentVariable block refers to the target.
pub const PREFER_ENVIRONMENT_PATH: u32 = 0x0200_0000;

/// A local path ID list is stored for UNC targets on the local machine.
pub const KEEP_LOCAL_ID_LIST_FOR_UNC_TARGET: u32 = 0x0400_0000;

/// Every defined LinkFlags bit.
pub const LINK_FLAGS_MASK: u32 = 0x07FF_FFFF;

/// Every defined FileAttributeFlags bit.
pub const FILE_ATTRIBUTES_MASK: u32 = 0x0000_7FFF;

/// The target is read-only.
pub const FILE_ATTRIBUTE_READONLY: u32 = 0x0000_0001;

/// The target is hidden.
pub const FILE_ATTRIBUTE_HIDDEN: u32 = 0x0000_0002;

/// The target is part of the operating system.
pub const FILE_ATTRIBUTE_SYSTEM: u32 = 0x0000_0004;

/// The target is a directory instead of a file.
pub const FILE_ATTRIBUTE_DIRECTORY: u32 = 0x0000_0010;

/// The target is an archive file.
pub const FILE_ATTRIBUTE_ARCHIVE: u32 = 0x0000_0020;

/// The target has no other attributes set.
pub const FILE_ATTRIBUTE_NORMAL: u32 = 0x0000_0080;

/// The target is used for temporary storage.
pub const FILE_ATTRIBUTE_TEMPORARY: u32 = 0x0000_0100;

/// The target is a sparse file.
pub const FILE_ATTRIBUTE_SPARSE_FILE: u32 = 0x0000_0200;

/// The target has an associated reparse point.
pub const FILE_ATTRIBUTE_REPARSE_POINT: u32 = 0x0000_0400;

/// The target is compressed.
pub const FILE_ATTRIBUTE_COMPRESSED: u32 = 0x0000_0800;

/// The target's data is not immediately available.
pub const FILE_ATTRIBUTE_OFFLINE: u32 = 0x0000_1000;

/// The target's contents need to be indexed.
pub const FILE_ATTRIBUTE_NOT_CONTENT_INDEXED: u32 = 0x0000_2000;

/// The target is encrypted.
pub const FILE_ATTRIBUTE_ENCRYPTED: u32 = 0x0000_4000;

/// The LinkFlags bitset: which optional structures follow the header,
/// how StringData is encoded, and how the target is resolved.
#[derive(Clone, Copy, Debug, PartialEq, Eq, Structural)]
pub struct LinkFlags {
    pub bits: u32,
}

impl LinkFlags {
    /// A value is well formed when it holds defined bits only.
    pub open spec fn wf(self) -> bool {
        self.bits < 0x0800_0000
    }

    /// Whether every bit of `mask` is set.
    pub open spec fn flag(self, mask: u32) -> bool {
        self.bits & mask == mask
    }

    /// The four-byte little-endian wire form.
    pub open spec fn bytes(self) -> Seq<u8> {
        enc_u32(self.bits)
    }

    /// Whether a LinkTargetIdList follows the header.
    pub open spec fn spec_has_link_target_id_list(self) -> bool {
        self.flag(HAS_LINK_TARGET_ID_LIST)
    }

    /// Whether a LinkInfo structure is present.
    pub open spec fn spec_has_link_info(self) -> bool {
        self.flag(HAS_LINK_INFO)
    }

    /// Whether the name string slot is present.
    pub open spec fn spec_has_name(self) -> bool {
        self.flag(HAS_NAME)
    }

    /// Whether the relative path slot is present.
    pub open spec fn spec_has_relative_path(self) -> bool {
        self.flag(HAS_RELATIVE_PATH)
    }

    /// Whether the working directory slot is present.
    pub open spec fn spec_has_working_dir(self) -> bool {
        self.flag(HAS_WORKING_DIR)
    }

    /// Whether the command line arguments slot is present.
    pub open spec fn spec_has_arguments(self) -> bool {
        self.flag(HAS_ARGUMENTS)
    }

    /// Whether the icon location slot is present.
    pub open spec fn spec_has_icon_location(self) -> bool {
        self.flag(HAS_ICON_LOCATION)
    }

    /// Whether StringData is stored as UTF-16.
    pub open spec fn spec_is_unicode(self) -> bool {
        self.flag(IS_UNICODE)
    }

    /// Builds a value from a raw word; a well-formed value needs the
    /// word to hold defined bits only.
    pub fn from_bits(bits: u32) -> (r: LinkFlags)
        ensures
            r.bits == bits,
    {
        LinkFlags { bits }
    }

    /// The blank value: every bit clear.
    pub fn empty() -> (r: LinkFlags)
        ensures
            r.bits == 0,
    {
        LinkFlags { bits: 0 }
    }

    /// Whether every bit of `mask` is set.
    pub fn contains(&self, mask: u32) -> (r: bool)
        ensures
            r == self.flag(mask),
    {
        self.bits & mask == mask
    }

    /// The value with every bit of `mask` set to `value` and every
    /// other bit kept.
    pub open spec fn spec_update(self, mask: u32, value: bool) -> LinkFlags {
        if value {
            LinkFlags { bits: self.bits | mask }
        } else {
            LinkFlags { bits: self.bits & !mask }
        }
    }

    /// Sets or clears every bit of `mask`.
    pub fn update(&self, mask: u32, value: bool) -> (r: LinkFlags)
        ensures
            r == self.spec_update(mask, value),
    {
        if value {
            LinkFlags { bits: self.bits | mask }
        } else {
            LinkFlags { bits: self.bits & !mask }
        }
    }
}

/// Setting or clearing a defined flag bit leaves a well-formed value,
/// makes that flag equal the given value, and leaves every bit outside
/// `mask` as it was.
pub proof fn lemma_update_flag(f: LinkFlags, mask: u32, value: bool, other: u32)
    requires
        f.wf(),
        mask & LINK_FLAGS_MASK == mask,
        other & mask == 0,
        mask != 0,
    ensures
        f.spec_update(mask, value).wf(),
        f.spec_update(mask, value).flag(mask) == value,
        f.spec_update(mask, value).flag(other) == f.flag(other),
{
    let b = f.bits;
    assert((b | mask) < 0x0800_0000 && (b & !mask) < 0x0800_0000 && ((b | mask) & mask == mask)
        && !((b & !mask) & mask == mask) && (((b | mask) & other == other) == (b & other == other))
        && (((b & !mask) & other == other) == (b & other == other))) by (bit_vector)
        requires
            b < 0x0800_0000,
            mask & 0x07FF_FFFF == mask,
            other & mask == 0,
            mask != 0,
    ;
}

/// Reads a LinkFlags word at `pos`. A raw word with any of its five
/// undefined high bits set is rejected, with the offset just after the
/// word, as the field could not be re-emitted faithfully.
pub fn read_link_flags(data: &[u8], pos: usize) -> (r: Result<LinkFlags, crate::Error>)
    requires
        pos + 4 <= data@.len(),
    ensures
        match r {
            Ok(f) => f.bits == le32_at(data@, pos as int) && f.wf() && f.bytes() =~= data@.subrange(
                pos as int,
                pos + 4,
            ),
            Err(e) => e matches crate::Error::Parse { offset, .. } && offset == pos + 4,
        },
        (r is Ok) == (le32_at(data@, pos as int) < 0x0800_0000),
{
    let n = data.len();
    let raw = read_u32(data, pos);
    if raw >= 0x0800_0000 {
        return Err(
            crate::Error::Parse {
                offset: (pos + 4) as u64,
                message: crate::text::unknown_bits_message(),
            },
        );
    }
    proof {
        lemma_enc_le32(data@, pos as int);
    }
    Ok(LinkFlags { bits: raw })
}

/// Appends the wire form of `f`.
pub fn write_link_flags(out: &mut Vec<u8>, f: &LinkFlags)
    ensures
        final(out)@ =~= old(out)@ + f.bytes(),
{
    write_u32(out, f.bits);
}

/// The FileAttributeFlags bitset: the file-system attributes of the
/// link target.
#[derive(Clone, Copy, Debug, PartialEq, Eq, Structural)]
pub struct FileAttributeFlags {
    pub bits: u32,
}

impl FileAttributeFlags {
    /// A value is well formed when it holds defined bits only.
    pub open spec fn wf(self) -> bool {
        self.bits < 0x8000
    }

    /// Whether every bit of `mask` is set.
    pub open spec fn flag(self, mask: u32) -> bool {
        self.bits & mask == mask
    }

    /// The four-byte little-endian wire form.
    pub open spec fn bytes(self) -> Seq<u8> {
        enc_u32(self.bits)
    }

    /// Builds a value from a raw word.
    pub fn from_bits(bits: u32) -> (r: FileAttributeFlags)
        ensures
            r.bits == bits,
    {
        FileAttributeFlags { bits }
    }

    /// Whether every bit of `mask` is set.
    pub fn contains(&self, mask: u32) -> (r: bool)
        ensures
            r == self.flag(mask),
    {
        self.bits & mask == mask
    }
}

/// Reads a FileAttributeFlags word at `pos`. A raw word with any of its
/// seventeen undefined high bits set is rejected, with the offset just
/// after the word.
pub fn read_file_attributes(data: &[u8], pos: usize) -> (r: Result<
    FileAttributeFlags,
    crate::Error,
>)
    requires
        pos + 4 <= data@.len(),
    ensures
        match r {
            Ok(f) => f.bits == le32_at(data@, pos as int) && f.wf() && f.bytes() =~= data@.subrange(
                pos as int,
                pos + 4,
            ),
            Err(e) => e matches crate::Error::Parse { offset, .. } && offset == pos + 4,
        },
        (r is Ok) == (le32_at(data@, pos as int) < 0x8000),
{
    let n = data.len();
    let raw = read_u32(data, pos);
    if raw >= 0x8000 {
        return Err(
            crate::Error::Parse {
                offset: (pos + 4) as u64,
                message: crate::text::unknown_bits_message(),
            },
        );
    }
    proof {
        lemma_enc_le32(data@, pos as int);
    }
    Ok(FileAttributeFlags { bits: raw })
}

/// Appends the wire form of `f`.
pub fn write_file_attributes(out: &mut Vec<u8>, f: &FileAttributeFlags)
    ensures
        final(out)@ =~= old(out)@ + f.bytes(),
{
    write_u32(out, f.bits);
}

} // verus!
