//! ExtraData: the chain of self-describing extension blocks that ends a
//! shell link. Each block is a 32-bit size, a 32-bit signature and a
//! payload; a block whose size is below four ends the chain. Every block
//! keeps its raw bytes alongside its decoded view, so an unmodified
//! chain re-emits byte-identically.

use vstd::prelude::*;

use crate::bytes::{le16_at, le32_at, read_u16, read_u32, Decoded};
use crate::guid::{read_guid_le, Guid};
use crate::itemid::ItemID;
use crate::linktarget::{items_datas, parse_items};
use crate::strings::{
    cp1252_chars_of, spec_trim_nul, trim_nul_terminated_string, units_at, utf16_chars_of,
};
use crate::Error;

verus! {

/// The signature of the EnvironmentVariable block.
pub const SIG_ENVIRONMENT: u32 = 0xA000_0001;

/// The signature of the ConsoleData block.
pub const SIG_CONSOLE: u32 = 0xA000_0002;

/// The signature of the Tracker block.
pub const SIG_TRACKER: u32 = 0xA000_0003;

/// The signature of the ConsoleFE block.
pub const SIG_CONSOLE_FE: u32 = 0xA000_0004;

/// The signature of the SpecialFolder block.
pub const SIG_SPECIAL_FOLDER: u32 = 0xA000_0005;

/// The signature of the Darwin block.
pub const SIG_DARWIN: u32 = 0xA000_0006;

/// The signature of the IconEnvironment block.
pub const SIG_ICON_ENVIRONMENT: u32 = 0xA000_0007;

/// The signature of the Shim block.
pub const SIG_SHIM: u32 = 0xA000_0008;

/// The signature of the PropertyStore block.
pub const SIG_PROPERTY_STORE: u32 = 0xA000_0009;

/// The signature of the KnownFolder block.
pub const SIG_KNOWN_FOLDER: u32 = 0xA000_000B;

/// The signature of the VistaAndAboveIdList block.
pub const SIG_VISTA_ID_LIST: u32 = 0xA000_000C;

/// Whether a signature names a documented block.
pub open spec fn known_sig(sig: u32) -> bool {
    ||| sig == SIG_ENVIRONMENT
    ||| sig == SIG_CONSOLE
    ||| sig == SIG_TRACKER
    ||| sig == SIG_CONSOLE_FE
    ||| sig == SIG_SPECIAL_FOLDER
    ||| sig == SIG_DARWIN
    ||| sig == SIG_ICON_ENVIRONMENT
    ||| sig == SIG_SHIM
    ||| sig == SIG_PROPERTY_STORE
    ||| sig == SIG_KNOWN_FOLDER
    ||| sig == SIG_VISTA_ID_LIST
}

/// Whether a declared size suits a signature.
pub open spec fn sig_size_ok(sig: u32, len: int) -> bool {
    if sig == SIG_ENVIRONMENT || sig == SIG_DARWIN || sig == SIG_ICON_ENVIRONMENT {
        len == 0x314
    } else if sig == SIG_CONSOLE {
        len == 0xCC
    } else if sig == SIG_TRACKER {
        len == 0x60
    } else if sig == SIG_CONSOLE_FE {
        len == 0x0C
    } else if sig == SIG_SPECIAL_FOLDER {
        len == 0x10
    } else if sig == SIG_SHIM {
        len >= 0x88
    } else if sig == SIG_PROPERTY_STORE {
        len >= 0x0C
    } else if sig == SIG_KNOWN_FOLDER {
        len == 0x1C
    } else if sig == SIG_VISTA_ID_LIST {
        0x0A <= len <= 0xFFFF
    } else {
        false
    }
}

/// Whether a block's payload decodes: its fixed UTF-16 mirrors are
/// valid, its must-be values hold, and an embedded ID list fills its
/// room exactly.
#[verifier::opaque]
pub open spec fn content_ok(sig: u32, c: Seq<u8>) -> bool {
    if sig == SIG_ENVIRONMENT || sig == SIG_DARWIN || sig == SIG_ICON_ENVIRONMENT {
        utf16_chars_of(units_at(c, 268, 260)) is Some
    } else if sig == SIG_CONSOLE {
        utf16_chars_of(units_at(c, 44, 32)) is Some
    } else if sig == SIG_SHIM {
        utf16_chars_of(units_at(c, 8, (c.len() - 8) / 2)) is Some
    } else if sig == SIG_TRACKER {
        le32_at(c, 8) == 0x58 && le32_at(c, 12) == 0
    } else if sig == SIG_VISTA_ID_LIST {
        parse_items(c, 8, c.len() as int) == Decoded::<(Seq<Seq<u8>>, bool)>::Found(
            (vista_items_of(c), true),
            c.len() as int,
        )
    } else {
        true
    }
}

/// The payloads of the ID list a Vista block embeds, where it parses.
pub open spec fn vista_items_of(c: Seq<u8>) -> Seq<Seq<u8>> {
    match parse_items(c, 8, c.len() as int) {
        Decoded::Found((ds, sentinel), e) => ds,
        Decoded::Fail(o) => Seq::empty(),
    }
}

/// A raw chunk is a whole, well-formed block.
#[verifier::opaque]
pub open spec fn chunk_ok(c: Seq<u8>) -> bool {
    &&& c.len() >= 8
    &&& le32_at(c, 0) == c.len()
    &&& known_sig(le32_at(c, 4))
    &&& sig_size_ok(le32_at(c, 4), c.len() as int)
    &&& content_ok(le32_at(c, 4), c)
}

/// Parses the chain at `i`: blocks until a size below four (the
/// terminal, returned verbatim) or the input's end (no terminal).
#[verifier::opaque]
pub open spec fn parse_blocks(s: Seq<u8>, i: int) -> Decoded<(Seq<Seq<u8>>, Option<Seq<u8>>)>
    decreases s.len() - i,
{
    if i >= s.len() {
        Decoded::Found((Seq::empty(), None), i)
    } else if i + 4 > s.len() {
        Decoded::Fail(s.len() as int)
    } else {
        let size = le32_at(s, i) as int;
        if size < 4 {
            Decoded::Found((Seq::empty(), Some(s.subrange(i, i + 4))), i + 4)
        } else if i + 8 > s.len() {
            Decoded::Fail(s.len() as int)
        } else {
            let sig = le32_at(s, i + 4);
            if !known_sig(sig) {
                Decoded::Fail(i + 4)
            } else if !sig_size_ok(sig, size) {
                Decoded::Fail(i + 8)
            } else if i + size > s.len() {
                Decoded::Fail(s.len() as int)
            } else if !content_ok(sig, s.subrange(i, i + size)) {
                Decoded::Fail(i + size)
            } else {
                match parse_blocks(s, i + size) {
                    Decoded::Found((rest, t), e) => Decoded::Found(
                        (seq![s.subrange(i, i + size)] + rest, t),
                        e,
                    ),
                    Decoded::Fail(o) => Decoded::Fail(o),
                }
            }
        }
    }
}

/// An EnvironmentVariable block: a target path held as environment
/// variables, in the code page and an optional UTF-16 mirror.
#[derive(Clone, Debug, PartialEq, Eq)]
pub struct EnvironmentVariableDataBlock {
    pub raw: Vec<u8>,
    pub target_ansi: String,
    pub target_unicode: Option<String>,
}

/// A ConsoleData block: the console window's geometry, font, history
/// and colors.
#[derive(Clone, Debug, PartialEq, Eq)]
pub struct ConsoleDataBlock {
    pub raw: Vec<u8>,
    pub fill_attributes: u16,
    pub popup_fill_attributes: u16,
    pub screen_buffer_size_x: u16,
    pub screen_buffer_size_y: u16,
    pub window_size_x: u16,
    pub window_size_y: u16,
    pub window_origin_x: u16,
    pub window_origin_y: u16,
    pub font_size: u32,
    pub font_family: u32,
    pub font_weight: u32,
    pub face_name: String,
    pub cursor_size: u32,
    pub full_screen: u32,
    pub quick_edit: u32,
    pub insert_mode: u32,
    pub auto_position: u32,
    pub history_buffer_size: u32,
    pub number_of_history_buffers: u32,
    pub history_no_dup: u32,
    pub color_table: Vec<u32>,
}

/// A Tracker block: the link-tracking identifiers of the target.
#[derive(Clone, Debug, PartialEq, Eq)]
pub struct TrackerDataBlock {
    pub raw: Vec<u8>,
    pub machine_id: String,
    pub droid_volume: Guid,
    pub droid_file: Guid,
    pub droid_birth_volume: Guid,
    pub droid_birth_file: Guid,
}

/// A ConsoleFE block: the console's code page.
#[derive(Clone, Debug, PartialEq, Eq)]
pub struct ConsoleFEDataBlock {
    pub raw: Vec<u8>,
    pub code_page: u32,
}

/// A SpecialFolder block: a folder identifier and an offset into the
/// link's target ID list.
#[derive(Clone, Debug, PartialEq, Eq)]
pub struct SpecialFolderDataBlock {
    pub raw: Vec<u8>,
    pub special_folder_id: u32,
    pub offset: u32,
}

/// A Darwin block: an application identifier, in the code page and an
/// optional UTF-16 mirror.
#[derive(Clone, Debug, PartialEq, Eq)]
pub struct DarwinDataBlock {
    pub raw: Vec<u8>,
    pub darwin_data_ansi: String,
    pub darwin_data_unicode: Option<String>,
}

/// An IconEnvironment block: the path to an icon, held as environment
/// variables, in the code page and an optional UTF-16 mirror.
#[derive(Clone, Debug, PartialEq, Eq)]
pub struct IconEnvironmentDataBlock {
    pub raw: Vec<u8>,
    pub target_ansi: String,
    pub target_unicode: Option<String>,
}

impl IconEnvironmentDataBlock {
    /// The code-page form of the path.
    pub fn target_ansi(&self) -> (r: &String)
        ensures
            r@ == self.target_ansi@,
    {
        &self.target_ansi
    }

    /// The UTF-16 mirror of the path, where one is stored.
    pub fn target_unicode(&self) -> (r: &Option<String>)
        ensures
            r == self.target_unicode,
    {
        &self.target_unicode
    }
}

/// A Shim block: the name of the shim layer to run the target under.
#[derive(Clone, Debug, PartialEq, Eq)]
pub struct ShimDataBlock {
    pub raw: Vec<u8>,
    pub layer_name: String,
}

/// A PropertyStore block: a serialized property storage, kept opaque.
#[derive(Clone, Debug, PartialEq, Eq)]
pub struct PropertyStoreDataBlock {
    pub raw: Vec<u8>,
    pub store_data: Vec<u8>,
}

/// A KnownFolder block: a known-folder identifier and an offset into
/// the link's target ID list.
#[derive(Clone, Debug, PartialEq, Eq)]
pub struct KnownFolderDataBlock {
    pub raw: Vec<u8>,
    pub known_folder_id: Guid,
    pub offset: u32,
}

/// A VistaAndAboveIdList block: an embedded ID list.
#[derive(Clone, Debug, PartialEq, Eq)]
pub struct VistaAndAboveIdListDataBlock {
    pub raw: Vec<u8>,
    pub items: Vec<ItemID>,
}

/// One block of the chain, by signature.
#[derive(Clone, Debug, PartialEq, Eq)]
pub enum ExtraDataBlock {
    EnvironmentVariable(EnvironmentVariableDataBlock),
    Console(ConsoleDataBlock),
    Tracker(TrackerDataBlock),
    ConsoleFE(ConsoleFEDataBlock),
    SpecialFolder(SpecialFolderDataBlock),
    Darwin(DarwinDataBlock),
    IconEnvironment(IconEnvironmentDataBlock),
    Shim(ShimDataBlock),
    PropertyStore(PropertyStoreDataBlock),
    KnownFolder(KnownFolderDataBlock),
    VistaAndAboveIdList(VistaAndAboveIdListDataBlock),
}

/// The value of an optional fixed-size UTF-16 mirror: the characters
/// before the first NUL, or nothing where they are empty.
pub open spec fn fixed_uni_value(c: Seq<u8>, off: int, units: int) -> Option<Seq<char>> {
    match utf16_chars_of(units_at(c, off, units)) {
        Some(chs) => {
            let t = spec_trim_nul(chs);
            if t.len() == 0 {
                None
            } else {
                Some(t)
            }
        },
        None => None,
    }
}

/// The trimmed code-page string stored in a fixed field.
pub open spec fn fixed_ansi_value(c: Seq<u8>, off: int, len: int) -> Seq<char> {
    spec_trim_nul(cp1252_chars_of(c.subrange(off, off + len)))
}

impl ExtraDataBlock {
    /// The block's raw bytes, which are also its wire form.
    pub open spec fn raw_bytes(self) -> Seq<u8> {
        match self {
            ExtraDataBlock::EnvironmentVariable(b) => b.raw@,
            ExtraDataBlock::Console(b) => b.raw@,
            ExtraDataBlock::Tracker(b) => b.raw@,
            ExtraDataBlock::ConsoleFE(b) => b.raw@,
            ExtraDataBlock::SpecialFolder(b) => b.raw@,
            ExtraDataBlock::Darwin(b) => b.raw@,
            ExtraDataBlock::IconEnvironment(b) => b.raw@,
            ExtraDataBlock::Shim(b) => b.raw@,
            ExtraDataBlock::PropertyStore(b) => b.raw@,
            ExtraDataBlock::KnownFolder(b) => b.raw@,
            ExtraDataBlock::VistaAndAboveIdList(b) => b.raw@,
        }
    }

    /// A block is well formed when its raw bytes are a whole block of
    /// its own signature and every decoded field is the reading its
    /// raw bytes dictate.
    #[verifier::opaque]
    pub open spec fn wf(self) -> bool {
        let c = self.raw_bytes();
        &&& chunk_ok(c)
        &&& match self {
            ExtraDataBlock::EnvironmentVariable(b) => {
                &&& le32_at(c, 4) == SIG_ENVIRONMENT
                &&& b.target_ansi@ == fixed_ansi_value(c, 8, 260)
                &&& opt_str_view(b.target_unicode) == fixed_uni_value(c, 268, 260)
            },
            ExtraDataBlock::Console(b) => {
                &&& le32_at(c, 4) == SIG_CONSOLE
                &&& b.fill_attributes == le16_at(c, 8)
                &&& b.popup_fill_attributes == le16_at(c, 10)
                &&& b.screen_buffer_size_x == le16_at(c, 12)
                &&& b.screen_buffer_size_y == le16_at(c, 14)
                &&& b.window_size_x == le16_at(c, 16)
                &&& b.window_size_y == le16_at(c, 18)
                &&& b.window_origin_x == le16_at(c, 20)
                &&& b.window_origin_y == le16_at(c, 22)
                &&& b.font_size == le32_at(c, 32)
                &&& b.font_family == le32_at(c, 36)
                &&& b.font_weight == le32_at(c, 40)
                &&& Some(b.face_name@) == face_name_value(c)
                &&& b.cursor_size == le32_at(c, 108)
                &&& b.full_screen == le32_at(c, 112)
                &&& b.quick_edit == le32_at(c, 116)
                &&& b.insert_mode == le32_at(c, 120)
                &&& b.auto_position == le32_at(c, 124)
                &&& b.history_buffer_size == le32_at(c, 128)
                &&& b.number_of_history_buffers == le32_at(c, 132)
                &&& b.history_no_dup == le32_at(c, 136)
                &&& b.color_table@ =~= Seq::new(16, |k: int| le32_at(c, 140 + 4 * k))
            },
            ExtraDataBlock::Tracker(b) => {
                &&& le32_at(c, 4) == SIG_TRACKER
                &&& b.machine_id@ == fixed_ansi_value(c, 16, 16)
                &&& b.droid_volume.is_le_of(c, 32)
                &&& b.droid_file.is_le_of(c, 48)
                &&& b.droid_birth_volume.is_le_of(c, 64)
                &&& b.droid_birth_file.is_le_of(c, 80)
            },
            ExtraDataBlock::ConsoleFE(b) => {
                &&& le32_at(c, 4) == SIG_CONSOLE_FE
                &&& b.code_page == le32_at(c, 8)
            },
            ExtraDataBlock::SpecialFolder(b) => {
                &&& le32_at(c, 4) == SIG_SPECIAL_FOLDER
                &&& b.special_folder_id == le32_at(c, 8)
                &&& b.offset == le32_at(c, 12)
            },
            ExtraDataBlock::Darwin(b) => {
                &&& le32_at(c, 4) == SIG_DARWIN
                &&& b.darwin_data_ansi@ == fixed_ansi_value(c, 8, 260)
                &&& opt_str_view(b.darwin_data_unicode) == fixed_uni_value(c, 268, 260)
            },
            ExtraDataBlock::IconEnvironment(b) => {
                &&& le32_at(c, 4) == SIG_ICON_ENVIRONMENT
                &&& b.target_ansi@ == fixed_ansi_value(c, 8, 260)
                &&& opt_str_view(b.target_unicode) == fixed_uni_value(c, 268, 260)
            },
            ExtraDataBlock::Shim(b) => {
                &&& le32_at(c, 4) == SIG_SHIM
                &&& Some(b.layer_name@) == shim_name_value(c)
            },
            ExtraDataBlock::PropertyStore(b) => {
                &&& le32_at(c, 4) == SIG_PROPERTY_STORE
                &&& b.store_data@ == c.subrange(8, c.len() as int)
            },
            ExtraDataBlock::KnownFolder(b) => {
                &&& le32_at(c, 4) == SIG_KNOWN_FOLDER
                &&& b.known_folder_id.is_le_of(c, 8)
                &&& b.offset == le32_at(c, 24)
            },
            ExtraDataBlock::VistaAndAboveIdList(b) => {
                &&& le32_at(c, 4) == SIG_VISTA_ID_LIST
                &&& items_datas(b.items@) == vista_items_of(c)
            },
        }
    }
}

/// The character view of an optional string.
pub open spec fn opt_str_view(v: Option<String>) -> Option<Seq<char>> {
    match v {
        Some(s) => Some(s@),
        None => None,
    }
}

/// The console face name a ConsoleData block stores, where its units
/// are valid UTF-16.
pub open spec fn face_name_value(c: Seq<u8>) -> Option<Seq<char>> {
    match utf16_chars_of(units_at(c, 44, 32)) {
        Some(chs) => Some(spec_trim_nul(chs)),
        None => None,
    }
}

/// The shim layer name a Shim block stores, where its units are valid
/// UTF-16.
pub open spec fn shim_name_value(c: Seq<u8>) -> Option<Seq<char>> {
    match utf16_chars_of(units_at(c, 8, (c.len() - 8) / 2)) {
        Some(chs) => Some(spec_trim_nul(chs)),
        None => None,
    }
}

/// The raw chunks of a sequence of blocks.
pub open spec fn block_raws(v: Seq<ExtraDataBlock>) -> Seq<Seq<u8>> {
    v.map_values(|b: ExtraDataBlock| b.raw_bytes())
}

/// The whole ExtraData section: its blocks, in stored order, and the
/// terminal block's four bytes where one was present.
#[derive(Clone, Debug, PartialEq, Eq)]
pub struct ExtraData {
    pub blocks: Vec<ExtraDataBlock>,
    pub terminal: Option<Vec<u8>>,
}

impl ExtraData {
    /// A section is well formed when each block is and the terminal,
    /// where present, is four bytes declaring a size below four.
    pub open spec fn wf(self) -> bool {
        &&& forall|k: int| 0 <= k < self.blocks@.len() ==> (#[trigger] self.blocks@[k]).wf()
        &&& match self.terminal {
            Some(t) => t@.len() == 4 && le32_at(t@, 0) < 4,
            None => true,
        }
    }

    /// The wire form: each block's raw bytes, then the terminal.
    pub open spec fn bytes(self) -> Seq<u8> {
        cat_raws(block_raws(self.blocks@)) + (match self.terminal {
            Some(t) => t@,
            None => Seq::empty(),
        })
    }
}

impl Default for ExtraData {
    /// An empty chain, ended by the canonical all-zero terminal.
    fn default() -> (r: Self)
        ensures
            r.blocks@.len() == 0,
            r.terminal matches Some(t) && t@ =~= seq![0u8, 0u8, 0u8, 0u8],
            r.wf(),
    {
        let mut t: Vec<u8> = Vec::new();
        t.push(0);
        t.push(0);
        t.push(0);
        t.push(0);
        proof {
            assert(t@ =~= seq![0u8, 0u8, 0u8, 0u8]);
        }
        ExtraData { blocks: Vec::new(), terminal: Some(t) }
    }
}

/// The concatenation of raw chunks.
pub open spec fn cat_raws(rs: Seq<Seq<u8>>) -> Seq<u8>
    decreases rs.len(),
{
    if rs.len() == 0 {
        Seq::empty()
    } else {
        rs[0] + cat_raws(rs.drop_first())
    }
}

/// Appending one chunk appends its bytes.
pub proof fn lemma_cat_raws_app(rs: Seq<Seq<u8>>, r: Seq<u8>)
    ensures
        cat_raws(rs + seq![r]) =~= cat_raws(rs) + r,
    decreases rs.len(),
{
    let e = rs + seq![r];
    if rs.len() == 0 {
        assert(e[0] =~= r);
        assert(e.drop_first() =~= Seq::<Seq<u8>>::empty());
        assert(cat_raws(e) =~= e[0] + cat_raws(e.drop_first()));
    } else {
        lemma_cat_raws_app(rs.drop_first(), r);
        assert(e.drop_first() =~= rs.drop_first() + seq![r]);
        assert(e[0] =~= rs[0]);
        assert(cat_raws(e) =~= e[0] + cat_raws(e.drop_first()));
        assert(cat_raws(rs) =~= rs[0] + cat_raws(rs.drop_first()));
    }
}

/// Reads the trimmed code-page string stored in a fixed field. Unlike
/// StringData, whose page the caller supplies, extension-block strings
/// are fixed per block: the single-byte form is always Windows-1252.
fn fixed_ansi(c: &Vec<u8>, off: usize, len: usize) -> (r: String)
    requires
        off + len <= c@.len(),
    ensures
        r@ == fixed_ansi_value(c@, off as int, len as int),
{
    let n = c.len();
    let b = crate::strings::copy_range(c.as_slice(), off, off + len);
    let s = crate::strings::cp1252_decode(b.as_slice());
    trim_nul_terminated_string(s.as_str())
}

/// Reads an optional fixed-size UTF-16 mirror: the characters before
/// the first NUL, or nothing where they are empty or do not decode.
fn fixed_uni(c: &Vec<u8>, off: usize, units: usize) -> (r: Option<Option<String>>)
    requires
        off + 2 * units <= c@.len(),
    ensures
        (r is Some) == (utf16_chars_of(units_at(c@, off as int, units as int)) is Some),
        r matches Some(v) ==> opt_str_view(v) == fixed_uni_value(c@, off as int, units as int),
{
    let n = c.len();
    let u = crate::strings::read_units(c.as_slice(), off, units);
    match crate::strings::utf16_decode(u.as_slice()) {
        Some(s) => {
            let t = trim_nul_terminated_string(s.as_str());
            if t.unicode_len() == 0 {
                Some(None)
            } else {
                Some(Some(t))
            }
        },
        None => None,
    }
}

/// Reads a trimmed fixed-size UTF-16 string, empty allowed.
fn trimmed_uni(c: &Vec<u8>, off: usize, units: usize) -> (r: Option<String>)
    requires
        off + 2 * units <= c@.len(),
    ensures
        (r is Some) == (utf16_chars_of(units_at(c@, off as int, units as int)) is Some),
        r matches Some(s) ==> s@ == spec_trim_nul(
            utf16_chars_of(units_at(c@, off as int, units as int)).unwrap(),
        ),
{
    let n = c.len();
    let u = crate::strings::read_units(c.as_slice(), off, units);
    match crate::strings::utf16_decode(u.as_slice()) {
        Some(s) => Some(trim_nul_terminated_string(s.as_str())),
        None => None,
    }
}

/// Reads the ID list a Vista block embeds: items that, with their
/// sentinel, fill the block's payload exactly.
fn read_vista_items(c: &Vec<u8>) -> (r: Option<Vec<ItemID>>)
    requires
        c@.len() >= 8,
    ensures
        (r is Some) == (parse_items(c@, 8, c@.len() as int) matches Decoded::Found(
            (ds, sentinel),
            e,
        ) && sentinel && e == c@.len()),
        r matches Some(items) ==> items_datas(items@) == vista_items_of(c@),
{
    let n = c.len();
    let data = c.as_slice();
    let mut cur: usize = 8;
    let mut items: Vec<ItemID> = Vec::new();
    proof {
        assert(items_datas(items@) =~= Seq::<Seq<u8>>::empty());
    }
    loop
        invariant
            8 <= cur <= n,
            n == c@.len(),
            data@ == c@,
            match parse_items(c@, cur as int, n as int) {
                Decoded::Found((ds, sen), e) => parse_items(c@, 8, n as int) == Decoded::Found(
                    (items_datas(items@) + ds, sen),
                    e,
                ),
                Decoded::Fail(o) => parse_items(c@, 8, n as int) == Decoded::<(
                    Seq<Seq<u8>>,
                    bool,
                )>::Fail(o),
            },
        decreases n - cur,
    {
        if cur == n {
            return None;
        }
        if n - cur < 2 {
            return None;
        }
        let sz = read_u16(data, cur) as usize;
        if sz == 0 {
            if cur + 2 != n {
                proof {
                    assert(parse_items(c@, cur as int, n as int) == Decoded::Found(
                        (Seq::<Seq<u8>>::empty(), true),
                        cur + 2,
                    ));
                }
                return None;
            }
            proof {
                assert(parse_items(c@, cur as int, n as int) == Decoded::Found(
                    (Seq::<Seq<u8>>::empty(), true),
                    cur + 2,
                ));
                assert(items_datas(items@) + Seq::<Seq<u8>>::empty() =~= items_datas(items@));
            }
            return Some(items);
        }
        if sz <= 2 || sz > n - cur {
            return None;
        }
        let payload = crate::strings::copy_range(data, cur + 2, cur + sz);
        let item = ItemID { data: payload };
        let ghost before = items@;
        items.push(item);
        proof {
            assert(items_datas(items@) =~= items_datas(before) + seq![
                c@.subrange(cur + 2, cur + sz),
            ]);
        }
        cur = cur + sz;
        proof {
            assert(items_datas(before) + (seq![c@.subrange(cur - sz + 2, cur as int)] + match
                parse_items(c@, cur as int, n as int) {
                Decoded::Found((ds, _), _) => ds,
                Decoded::Fail(_) => Seq::empty(),
            }) =~= (items_datas(before) + seq![c@.subrange(cur - sz + 2, cur as int)]) + match
                parse_items(c@, cur as int, n as int) {
                Decoded::Found((ds, _), _) => ds,
                Decoded::Fail(_) => Seq::empty(),
            });
        }
    }
}

/// Reads the sixteen color-table entries of a ConsoleData block.
fn read_color_table(chunk: &Vec<u8>) -> (r: Vec<u32>)
    requires
        chunk@.len() == 0xCC,
    ensures
        r@ =~= Seq::new(16, |j: int| le32_at(chunk@, 140 + 4 * j)),
{
    let n = chunk.len();
    let data = chunk.as_slice();
    let mut color_table: Vec<u32> = Vec::new();
    let mut k: usize = 0;
    while k < 16
        invariant
            k <= 16,
            n == chunk@.len() == 0xCC,
            data@ == chunk@,
            color_table@ =~= Seq::new(k as nat, |j: int| le32_at(chunk@, 140 + 4 * j)),
        decreases 16 - k,
    {
        let v = read_u32(data, 140 + 4 * k);
        color_table.push(v);
        k = k + 1;
        proof {
            assert(color_table@ =~= Seq::new(k as nat, |j: int| le32_at(chunk@, 140 + 4 * j)));
        }
    }
    color_table
}

/// Decodes one whole chunk into its block, by signature. Fails exactly
/// when the payload does not decode.
fn decode_block(chunk: Vec<u8>) -> (r: Result<ExtraDataBlock, ()>)
    requires
        chunk@.len() >= 8,
        le32_at(chunk@, 0) == chunk@.len(),
        known_sig(le32_at(chunk@, 4)),
        sig_size_ok(le32_at(chunk@, 4), chunk@.len() as int),
    ensures
        (r is Ok) == content_ok(le32_at(chunk@, 4), chunk@),
        r matches Ok(b) ==> b.wf() && b.raw_bytes() == chunk@,
{
    proof {
        reveal(ExtraDataBlock::wf);
        reveal(chunk_ok);
        reveal(content_ok);
    }
    let n = chunk.len();
    let data = chunk.as_slice();
    let sig = read_u32(data, 4);
    if sig == SIG_ENVIRONMENT || sig == SIG_DARWIN || sig == SIG_ICON_ENVIRONMENT {
        let ansi = fixed_ansi(&chunk, 8, 260);
        let uni = match fixed_uni(&chunk, 268, 260) {
            Some(v) => v,
            None => {
                return Err(());
            },
        };
        if sig == SIG_ENVIRONMENT {
            Ok(
                ExtraDataBlock::EnvironmentVariable(
                    EnvironmentVariableDataBlock {
                        raw: chunk,
                        target_ansi: ansi,
                        target_unicode: uni,
                    },
                ),
            )
        } else if sig == SIG_DARWIN {
            Ok(
                ExtraDataBlock::Darwin(
                    DarwinDataBlock {
                        raw: chunk,
                        darwin_data_ansi: ansi,
                        darwin_data_unicode: uni,
                    },
                ),
            )
        } else {
            Ok(
                ExtraDataBlock::IconEnvironment(
                    IconEnvironmentDataBlock {
                        raw: chunk,
                        target_ansi: ansi,
                        target_unicode: uni,
                    },
                ),
            )
        }
    } else if sig == SIG_CONSOLE {
        let face_name = match trimmed_uni(&chunk, 44, 32) {
            Some(s) => s,
            None => {
                return Err(());
            },
        };
        let color_table = read_color_table(&chunk);
        Ok(
            ExtraDataBlock::Console(
                ConsoleDataBlock {
                    fill_attributes: read_u16(data, 8),
                    popup_fill_attributes: read_u16(data, 10),
                    screen_buffer_size_x: read_u16(data, 12),
                    screen_buffer_size_y: read_u16(data, 14),
                    window_size_x: read_u16(data, 16),
                    window_size_y: read_u16(data, 18),
                    window_origin_x: read_u16(data, 20),
                    window_origin_y: read_u16(data, 22),
                    font_size: read_u32(data, 32),
                    font_family: read_u32(data, 36),
                    font_weight: read_u32(data, 40),
                    face_name,
                    cursor_size: read_u32(data, 108),
                    full_screen: read_u32(data, 112),
                    quick_edit: read_u32(data, 116),
                    insert_mode: read_u32(data, 120),
                    auto_position: read_u32(data, 124),
                    history_buffer_size: read_u32(data, 128),
                    number_of_history_buffers: read_u32(data, 132),
                    history_no_dup: read_u32(data, 136),
                    color_table,
                    raw: chunk,
                },
            ),
        )
    } else if sig == SIG_TRACKER {
        if read_u32(data, 8) != 0x58 || read_u32(data, 12) != 0 {
            return Err(());
        }
        Ok(
            ExtraDataBlock::Tracker(
                TrackerDataBlock {
                    machine_id: fixed_ansi(&chunk, 16, 16),
                    droid_volume: read_guid_le(data, 32),
                    droid_file: read_guid_le(data, 48),
                    droid_birth_volume: read_guid_le(data, 64),
                    droid_birth_file: read_guid_le(data, 80),
                    raw: chunk,
                },
            ),
        )
    } else if sig == SIG_CONSOLE_FE {
        Ok(
            ExtraDataBlock::ConsoleFE(
                ConsoleFEDataBlock { code_page: read_u32(data, 8), raw: chunk },
            ),
        )
    } else if sig == SIG_SPECIAL_FOLDER {
        Ok(
            ExtraDataBlock::SpecialFolder(
                SpecialFolderDataBlock {
                    special_folder_id: read_u32(data, 8),
                    offset: read_u32(data, 12),
                    raw: chunk,
                },
            ),
        )
    } else if sig == SIG_SHIM {
        let layer_name = match trimmed_uni(&chunk, 8, (n - 8) / 2) {
            Some(s) => s,
            None => {
                return Err(());
            },
        };
        Ok(ExtraDataBlock::Shim(ShimDataBlock { layer_name, raw: chunk }))
    } else if sig == SIG_PROPERTY_STORE {
        let store_data = crate::strings::copy_range(data, 8, n);
        Ok(ExtraDataBlock::PropertyStore(PropertyStoreDataBlock { store_data, raw: chunk }))
    } else if sig == SIG_KNOWN_FOLDER {
        Ok(
            ExtraDataBlock::KnownFolder(
                KnownFolderDataBlock {
                    known_folder_id: read_guid_le(data, 8),
                    offset: read_u32(data, 24),
                    raw: chunk,
                },
            ),
        )
    } else {
        let items = match read_vista_items(&chunk) {
            Some(items) => items,
            None => {
                return Err(());
            },
        };
        Ok(
            ExtraDataBlock::VistaAndAboveIdList(
                VistaAndAboveIdListDataBlock { items, raw: chunk },
            ),
        )
    }
}

/// Reads the ExtraData chain at `pos`: blocks until a terminal block or
/// the input's end. What was read re-emits byte-identically: unmodified
/// blocks keep their raw bytes, and the terminal is kept verbatim.
pub fn read_extra_data(data: &[u8], pos: usize) -> (r: Result<(ExtraData, usize), Error>)
    requires
        pos <= data@.len(),
    ensures
        match r {
            Ok((ed, end)) => {
                &&& pos <= end <= data@.len()
                &&& ed.wf()
                &&& match parse_blocks(data@, pos as int) {
                    Decoded::Found((raws, term), e) => raws == block_raws(ed.blocks@) && e == end
                        && term == term_view(ed.terminal),
                    Decoded::Fail(o) => false,
                }
                &&& ed.bytes() =~= data@.subrange(pos as int, end as int)
            },
            Err(e) => {
                &&& parse_blocks(data@, pos as int) matches Decoded::Fail(o)
                &&& e matches Error::Parse { offset, .. } && offset == o
            },
        },
{
    let n = data.len();
    let mut cur: usize = pos;
    let mut blocks: Vec<ExtraDataBlock> = Vec::new();
    proof {
        assert(block_raws(blocks@) =~= Seq::<Seq<u8>>::empty());
        assert(cat_raws(block_raws(blocks@)) =~= Seq::<u8>::empty());
        reveal(parse_blocks);
        match parse_blocks(data@, cur as int) {
            Decoded::Found((rest, t), e) => {
                assert(block_raws(blocks@) + rest =~= rest);
            },
            Decoded::Fail(o) => {},
        }
    }
    loop
        invariant
            pos <= cur <= n,
            n == data@.len(),
            forall|k: int| 0 <= k < blocks@.len() ==> (#[trigger] blocks@[k]).wf(),
            cat_raws(block_raws(blocks@)) =~= data@.subrange(pos as int, cur as int),
            match parse_blocks(data@, cur as int) {
                Decoded::Found((rest, t), e) => parse_blocks(data@, pos as int) == Decoded::Found(
                    (block_raws(blocks@) + rest, t),
                    e,
                ),
                Decoded::Fail(o) => parse_blocks(data@, pos as int) == Decoded::<(
                    Seq<Seq<u8>>,
                    Option<Seq<u8>>,
                )>::Fail(o),
            },
        decreases n - cur,
    {
        if cur == n {
            let ed = ExtraData { blocks, terminal: None };
            proof {
                reveal(parse_blocks);
                assert(block_raws(ed.blocks@) + Seq::<Seq<u8>>::empty() =~= block_raws(
                    ed.blocks@,
                ));
                assert(ed.bytes() =~= data@.subrange(pos as int, cur as int));
            }
            return Ok((ed, cur));
        }
        if n - cur < 4 {
            proof {
                reveal(parse_blocks);
            }
            return Err(
                Error::Parse { offset: n as u64, message: crate::text::short_input_message() },
            );
        }
        let size = read_u32(data, cur) as usize;
        if size < 4 {
            let t = crate::strings::copy_range(data, cur, cur + 4);
            let ed = ExtraData { blocks, terminal: Some(t) };
            let end = cur + 4;
            proof {
                reveal(parse_blocks);
                assert(block_raws(ed.blocks@) + Seq::<Seq<u8>>::empty() =~= block_raws(
                    ed.blocks@,
                ));
                assert(ed.bytes() =~= data@.subrange(pos as int, cur as int) + data@.subrange(
                    cur as int,
                    end as int,
                ));
                assert(ed.bytes() =~= data@.subrange(pos as int, end as int));
            }
            return Ok((ed, end));
        }
        if n - cur < 8 {
            proof {
                reveal(parse_blocks);
            }
            return Err(
                Error::Parse { offset: n as u64, message: crate::text::short_input_message() },
            );
        }
        let sig = read_u32(data, cur + 4);
        let sig_known = sig == SIG_ENVIRONMENT || sig == SIG_CONSOLE || sig == SIG_TRACKER || sig
            == SIG_CONSOLE_FE || sig == SIG_SPECIAL_FOLDER || sig == SIG_DARWIN || sig
            == SIG_ICON_ENVIRONMENT || sig == SIG_SHIM || sig == SIG_PROPERTY_STORE || sig
            == SIG_KNOWN_FOLDER || sig == SIG_VISTA_ID_LIST;
        if !sig_known {
            proof {
                reveal(parse_blocks);
            }
            return Err(
                Error::Parse {
                    offset: (cur + 4) as u64,
                    message: crate::text::signature_message(),
                },
            );
        }
        let size_fits = if sig == SIG_ENVIRONMENT || sig == SIG_DARWIN || sig
            == SIG_ICON_ENVIRONMENT {
            size == 0x314
        } else if sig == SIG_CONSOLE {
            size == 0xCC
        } else if sig == SIG_TRACKER {
            size == 0x60
        } else if sig == SIG_CONSOLE_FE {
            size == 0x0C
        } else if sig == SIG_SPECIAL_FOLDER {
            size == 0x10
        } else if sig == SIG_SHIM {
            size >= 0x88
        } else if sig == SIG_PROPERTY_STORE {
            size >= 0x0C
        } else if sig == SIG_KNOWN_FOLDER {
            size == 0x1C
        } else {
            0x0A <= size && size <= 0xFFFF
        };
        if !size_fits {
            proof {
                reveal(parse_blocks);
            }
            return Err(
                Error::Parse {
                    offset: (cur + 8) as u64,
                    message: crate::text::block_size_message(),
                },
            );
        }
        if size > n - cur {
            proof {
                reveal(parse_blocks);
            }
            return Err(
                Error::Parse { offset: n as u64, message: crate::text::short_input_message() },
            );
        }
        let chunk = crate::strings::copy_range(data, cur, cur + size);
        let block = match decode_block(chunk) {
            Ok(b) => b,
            Err(()) => {
                proof {
                    reveal(parse_blocks);
                }
                return Err(
                    Error::Parse {
                        offset: (cur + size) as u64,
                        message: crate::text::decode_message(),
                    },
                );
            },
        };
        let ghost before = blocks@;
        blocks.push(block);
        proof {
            assert(block_raws(blocks@) =~= block_raws(before) + seq![
                data@.subrange(cur as int, cur + size),
            ]);
            lemma_cat_raws_app(block_raws(before), data@.subrange(cur as int, cur + size));
        }
        cur = cur + size;
        proof {
            reveal(parse_blocks);
            assert(cat_raws(block_raws(blocks@)) =~= data@.subrange(pos as int, cur - size)
                + data@.subrange(cur - size, cur as int));
            assert(cat_raws(block_raws(blocks@)) =~= data@.subrange(pos as int, cur as int));
            assert(block_raws(before) + (seq![data@.subrange(cur - size, cur as int)] + match
                parse_blocks(data@, cur as int) {
                Decoded::Found((rest, _), _) => rest,
                Decoded::Fail(_) => Seq::empty(),
            }) =~= (block_raws(before) + seq![data@.subrange(cur - size, cur as int)]) + match
                parse_blocks(data@, cur as int) {
                Decoded::Found((rest, _), _) => rest,
                Decoded::Fail(_) => Seq::empty(),
            });
        }
    }
}

/// The byte view of the stored terminal.
pub open spec fn term_view(t: Option<Vec<u8>>) -> Option<Seq<u8>> {
    match t {
        Some(t) => Some(t@),
        None => None,
    }
}

/// A chain of well-formed chunks, followed by its terminal, parses
/// back to exactly those chunks wherever it ends the input.
pub proof fn lemma_parse_blocks_of_chunks(s: Seq<u8>, i: int, raws: Seq<Seq<u8>>, term: Option<
    Seq<u8>,
>)
    requires
        0 <= i <= s.len(),
        forall|k: int| 0 <= k < raws.len() ==> chunk_ok(#[trigger] raws[k]),
        s.len() == i + cat_raws(raws).len() + (match term {
            Some(t) => 4int,
            None => 0int,
        }),
        s.subrange(i, i + cat_raws(raws).len()) == cat_raws(raws),
        match term {
            Some(t) => t.len() == 4 && le32_at(t, 0) < 4 && s.subrange(
                i + cat_raws(raws).len(),
                s.len() as int,
            ) == t,
            None => true,
        },
    ensures
        parse_blocks(s, i) == Decoded::Found((raws, term), s.len() as int),
    decreases raws.len(),
{
    reveal(parse_blocks);
    reveal(chunk_ok);
    let body = cat_raws(raws);
    if raws.len() == 0 {
        assert(body =~= Seq::<u8>::empty());
        assert(raws =~= Seq::<Seq<u8>>::empty());
        match term {
            Some(t) => {
                assert(s.subrange(i, s.len() as int) == t);
                assert forall|k: int| 0 <= k < 4 implies s[i + k] == #[trigger] t[k] by {
                    assert(s.subrange(i, s.len() as int)[k] == s[i + k]);
                }
                assert(le32_at(s, i) == le32_at(t, 0));
                assert(s.subrange(i, i + 4) =~= t);
                assert(parse_blocks(s, i) == Decoded::Found(
                    (Seq::<Seq<u8>>::empty(), Some(s.subrange(i, i + 4))),
                    i + 4,
                ));
            },
            None => {
                assert(i == s.len());
            },
        }
    } else {
        let c = raws[0];
        let rest = raws.drop_first();
        assert(chunk_ok(c));
        assert(body =~= c + cat_raws(rest));
        assert forall|k: int| 0 <= k < body.len() implies s[i + k] == #[trigger] body[k] by {
            assert(s.subrange(i, i + body.len() as int)[k] == s[i + k]);
        }
        let size = c.len() as int;
        assert(s.subrange(i, i + size) =~= c) by {
            assert forall|k: int| 0 <= k < size implies s[i + k] == #[trigger] c[k] by {
                assert(body[k] == c[k]);
            }
        }
        assert(le32_at(s, i) == le32_at(c, 0)) by {
            assert(s[i + 0] == c[0] && s[i + 1] == c[1] && s[i + 2] == c[2] && s[i + 3] == c[3]);
        }
        assert(le32_at(s, i + 4) == le32_at(c, 4)) by {
            assert(s[i + 4] == c[4] && s[i + 5] == c[5] && s[i + 6] == c[6] && s[i + 7] == c[7]);
        }
        assert(s.subrange(i + size, i + size + cat_raws(rest).len()) =~= cat_raws(rest)) by {
            assert forall|k: int| 0 <= k < cat_raws(rest).len() implies s[i + size + k]
                == #[trigger] cat_raws(rest)[k] by {
                assert(body[size + k] == cat_raws(rest)[k]);
            }
        }
        match term {
            Some(t) => {
                assert(s.subrange(i + size + cat_raws(rest).len(), s.len() as int) =~= t) by {
                    assert(s.subrange(i + body.len(), s.len() as int) == t);
                    assert forall|k: int| 0 <= k < 4 implies s[i + size + cat_raws(rest).len() + k]
                        == #[trigger] t[k] by {
                        assert(s.subrange(i + body.len(), s.len() as int)[k] == s[i + body.len()
                            + k]);
                    }
                }
            },
            None => {},
        }
        lemma_parse_blocks_of_chunks(s, i + size, rest, term);
        assert(seq![s.subrange(i, i + size)] + rest =~= raws);
    }
}

/// One standalone well-formed block followed by a terminal parses back
/// to exactly that block's bytes and that terminal: with the reader
/// returning only blocks whose raw bytes are the bytes consumed, and
/// the writer emitting raw bytes verbatim, every known block kind
/// round-trips byte-identically.
pub proof fn lemma_block_round_trip(c: Seq<u8>, t: Seq<u8>)
    requires
        chunk_ok(c),
        t.len() == 4,
        le32_at(t, 0) < 4,
    ensures
        parse_blocks(c + t, 0) == Decoded::Found((seq![c], Some(t)), c.len() as int + 4),
{
    let s = c + t;
    assert(seq![c].drop_first() =~= Seq::<Seq<u8>>::empty());
    assert(cat_raws(seq![c]) =~= seq![c][0] + cat_raws(seq![c].drop_first()));
    assert(cat_raws(seq![c]) =~= c);
    assert(s.subrange(0, c.len() as int) =~= c);
    assert(s.subrange(c.len() as int, s.len() as int) =~= t);
    lemma_parse_blocks_of_chunks(s, 0, seq![c], Some(t));
}

/// Appends the wire form of `ed`: each block's raw bytes, then the
/// terminal where one is held.
pub fn write_extra_data(out: &mut Vec<u8>, ed: &ExtraData)
    requires
        ed.wf(),
    ensures
        final(out)@ =~= old(out)@ + ed.bytes(),
{
    let count = ed.blocks.len();
    let mut k: usize = 0;
    while k < count
        invariant
            k <= count == ed.blocks@.len(),
            ed.wf(),
            out@ =~= old(out)@ + cat_raws(block_raws(ed.blocks@.subrange(0, k as int))),
        decreases count - k,
    {
        let raw = block_raw_ref(&ed.blocks[k]);
        let mut copy = crate::strings::copy_range(raw.as_slice(), 0, raw.len());
        out.append(&mut copy);
        k = k + 1;
        proof {
            assert(block_raws(ed.blocks@.subrange(0, k as int)) =~= block_raws(
                ed.blocks@.subrange(0, k - 1),
            ) + seq![ed.blocks@[k - 1].raw_bytes()]);
            lemma_cat_raws_app(
                block_raws(ed.blocks@.subrange(0, k - 1)),
                ed.blocks@[k - 1].raw_bytes(),
            );
        }
    }
    proof {
        assert(ed.blocks@.subrange(0, count as int) =~= ed.blocks@);
    }
    match &ed.terminal {
        Some(t) => {
            let mut copy = crate::strings::copy_range(t.as_slice(), 0, t.len());
            out.append(&mut copy);
        },
        None => {},
    }
    proof {
        assert(final(out)@ =~= old(out)@ + ed.bytes());
    }
}

/// A well-formed block's raw bytes are a whole block.
pub proof fn lemma_wf_chunk_ok(b: ExtraDataBlock)
    requires
        b.wf(),
    ensures
        chunk_ok(b.raw_bytes()),
{
    reveal(ExtraDataBlock::wf);
}

/// The raw bytes of one block.
fn block_raw_ref(b: &ExtraDataBlock) -> (r: &Vec<u8>)
    ensures
        r@ == b.raw_bytes(),
{
    match b {
        ExtraDataBlock::EnvironmentVariable(b) => &b.raw,
        ExtraDataBlock::Console(b) => &b.raw,
        ExtraDataBlock::Tracker(b) => &b.raw,
        ExtraDataBlock::ConsoleFE(b) => &b.raw,
        ExtraDataBlock::SpecialFolder(b) => &b.raw,
        ExtraDataBlock::Darwin(b) => &b.raw,
        ExtraDataBlock::IconEnvironment(b) => &b.raw,
        ExtraDataBlock::Shim(b) => &b.raw,
        ExtraDataBlock::PropertyStore(b) => &b.raw,
        ExtraDataBlock::KnownFolder(b) => &b.raw,
        ExtraDataBlock::VistaAndAboveIdList(b) => &b.raw,
    }
}

} // verus!
