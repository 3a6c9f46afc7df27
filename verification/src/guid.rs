//! The 16-byte GUID and its two wire layouts: Microsoft's little-endian
//! form, which byte-swaps the first three fields, and the big-endian form,
//! which stores the fields verbatim.

use vstd::prelude::*;

use crate::bytes::{
    be16_at, be32_at, enc_u16, enc_u16_be, enc_u32, enc_u32_be, le16_at, le32_at, lemma_enc_be16,
    lemma_enc_be32, lemma_enc_le16, lemma_enc_le32, read_u16, read_u16_be, read_u32, read_u32_be,
    write_u16, write_u16_be, write_u32, write_u32_be,
};

verus! {

/// A GUID, held as its four structured fields; `data4` is stored on the
/// wire verbatim in either endianness.
#[derive(Clone, Copy, Debug, PartialEq, Eq, Hash)]
pub struct Guid {
    pub data1: u32,
    pub data2: u16,
    pub data3: u16,
    pub data4: [u8; 8],
}

impl Guid {
    /// The little-endian wire form: the first three fields byte-swapped,
    /// the last eight bytes verbatim.
    pub open spec fn bytes_le(self) -> Seq<u8> {
        enc_u32(self.data1) + enc_u16(self.data2) + enc_u16(self.data3) + self.data4@
    }

    /// The big-endian wire form: all sixteen bytes as written.
    pub open spec fn bytes_be(self) -> Seq<u8> {
        enc_u32_be(self.data1) + enc_u16_be(self.data2) + enc_u16_be(self.data3) + self.data4@
    }

    /// What each field of a GUID read little-endian from `s` at `i` holds.
    pub open spec fn is_le_of(self, s: Seq<u8>, i: int) -> bool {
        &&& self.data1 == le32_at(s, i)
        &&& self.data2 == le16_at(s, i + 4)
        &&& self.data3 == le16_at(s, i + 6)
        &&& self.data4@ =~= s.subrange(i + 8, i + 16)
    }

    /// What each field of a GUID read big-endian from `s` at `i` holds.
    pub open spec fn is_be_of(self, s: Seq<u8>, i: int) -> bool {
        &&& self.data1 == be32_at(s, i)
        &&& self.data2 == be16_at(s, i + 4)
        &&& self.data3 == be16_at(s, i + 6)
        &&& self.data4@ =~= s.subrange(i + 8, i + 16)
    }
}

/// A GUID read little-endian re-encodes to the very bytes it came from.
pub proof fn lemma_guid_le_round_trip(g: Guid, s: Seq<u8>, i: int)
    requires
        0 <= i,
        i + 16 <= s.len(),
        g.is_le_of(s, i),
    ensures
        g.bytes_le() =~= s.subrange(i, i + 16),
{
    lemma_enc_le32(s, i);
    lemma_enc_le16(s, i + 4);
    lemma_enc_le16(s, i + 6);
}

/// A GUID read big-endian re-encodes to the very bytes it came from.
pub proof fn lemma_guid_be_round_trip(g: Guid, s: Seq<u8>, i: int)
    requires
        0 <= i,
        i + 16 <= s.len(),
        g.is_be_of(s, i),
    ensures
        g.bytes_be() =~= s.subrange(i, i + 16),
{
    lemma_enc_be32(s, i);
    lemma_enc_be16(s, i + 4);
    lemma_enc_be16(s, i + 6);
}

/// A GUID's fields can be read back off its own little-endian wire form.
pub proof fn lemma_guid_le_of_enc(g: Guid, s: Seq<u8>, i: int)
    requires
        0 <= i,
        i + 16 <= s.len(),
        s.subrange(i, i + 16) == g.bytes_le(),
    ensures
        g.is_le_of(s, i),
{
    let e = g.bytes_le();
    crate::bytes::lemma_le32_enc(g.data1);
    crate::bytes::lemma_le16_enc(g.data2);
    crate::bytes::lemma_le16_enc(g.data3);
    let c1 = enc_u32(g.data1);
    let c2 = enc_u16(g.data2);
    let c3 = enc_u16(g.data3);
    assert(e.subrange(0, 4) =~= c1);
    assert(e.subrange(4, 6) =~= c2);
    assert(e.subrange(6, 8) =~= c3);
    assert forall|k: int| 0 <= k < 16 implies s[i + k] == #[trigger] e[k] by {
        assert(s.subrange(i, i + 16)[k] == s[i + k]);
    }
    assert(s[i] == e[0] && s[i + 1] == e[1] && s[i + 2] == e[2] && s[i + 3] == e[3] && s[i + 4]
        == e[4] && s[i + 5] == e[5] && s[i + 6] == e[6] && s[i + 7] == e[7]);
    assert(e[0] == c1[0] && e[1] == c1[1] && e[2] == c1[2] && e[3] == c1[3]) by {
        assert(e.subrange(0, 4)[0] == e[0] && e.subrange(0, 4)[1] == e[1] && e.subrange(0, 4)[2]
            == e[2] && e.subrange(0, 4)[3] == e[3]);
    }
    assert(e[4] == c2[0] && e[5] == c2[1]) by {
        assert(e.subrange(4, 6)[0] == e[4] && e.subrange(4, 6)[1] == e[5]);
    }
    assert(e[6] == c3[0] && e[7] == c3[1]) by {
        assert(e.subrange(6, 8)[0] == e[6] && e.subrange(6, 8)[1] == e[7]);
    }
    assert(le32_at(s, i) == le32_at(c1, 0));
    assert(le16_at(s, i + 4) == le16_at(c2, 0));
    assert(le16_at(s, i + 6) == le16_at(c3, 0));
    assert forall|k: int| 0 <= k < 8 implies s.subrange(i + 8, i + 16)[k] == g.data4@[k] by {
        assert(s.subrange(i + 8, i + 16)[k] == s[i + 8 + k]);
        assert(s[i + (8 + k)] == e[8 + k]);
        assert(e[8 + k] == g.data4@[k]);
    }
    assert(s.subrange(i + 8, i + 16) =~= g.data4@);
}

/// Reads a GUID in the little-endian layout at `pos`.
pub fn read_guid_le(data: &[u8], pos: usize) -> (g: Guid)
    requires
        pos + 16 <= data@.len(),
    ensures
        g.is_le_of(data@, pos as int),
        g.bytes_le() =~= data@.subrange(pos as int, pos + 16),
{
    let n = data.len();
    let d4 = [
        data[pos + 8],
        data[pos + 9],
        data[pos + 10],
        data[pos + 11],
        data[pos + 12],
        data[pos + 13],
        data[pos + 14],
        data[pos + 15],
    ];
    let g = Guid {
        data1: read_u32(data, pos),
        data2: read_u16(data, pos + 4),
        data3: read_u16(data, pos + 6),
        data4: d4,
    };
    proof {
        assert(g.data4@ =~= data@.subrange(pos + 8, pos + 16));
        lemma_guid_le_round_trip(g, data@, pos as int);
    }
    g
}

/// Reads a GUID in the big-endian layout at `pos`.
pub fn read_guid_be(data: &[u8], pos: usize) -> (g: Guid)
    requires
        pos + 16 <= data@.len(),
    ensures
        g.is_be_of(data@, pos as int),
        g.bytes_be() =~= data@.subrange(pos as int, pos + 16),
{
    let n = data.len();
    let d4 = [
        data[pos + 8],
        data[pos + 9],
        data[pos + 10],
        data[pos + 11],
        data[pos + 12],
        data[pos + 13],
        data[pos + 14],
        data[pos + 15],
    ];
    let g = Guid {
        data1: read_u32_be(data, pos),
        data2: read_u16_be(data, pos + 4),
        data3: read_u16_be(data, pos + 6),
        data4: d4,
    };
    proof {
        assert(g.data4@ =~= data@.subrange(pos + 8, pos + 16));
        lemma_guid_be_round_trip(g, data@, pos as int);
    }
    g
}

/// Appends the little-endian wire form of `g`.
pub fn write_guid_le(out: &mut Vec<u8>, g: &Guid)
    ensures
        final(out)@ =~= old(out)@ + g.bytes_le(),
{
    write_u32(out, g.data1);
    write_u16(out, g.data2);
    write_u16(out, g.data3);
    let ghost mid = out@;
    for k in 0..8
        invariant
            out@ =~= mid + g.data4@.subrange(0, k as int),
    {
        out.push(g.data4[k]);
        proof {
            assert(g.data4@.subrange(0, k + 1) =~= g.data4@.subrange(0, k as int)
                + seq![g.data4@[k as int]]);
        }
    }
    proof {
        assert(g.data4@.subrange(0, 8) =~= g.data4@);
    }
}

/// Appends the big-endian wire form of `g`.
pub fn write_guid_be(out: &mut Vec<u8>, g: &Guid)
    ensures
        final(out)@ =~= old(out)@ + g.bytes_be(),
{
    write_u32_be(out, g.data1);
    write_u16_be(out, g.data2);
    write_u16_be(out, g.data3);
    let ghost mid = out@;
    for k in 0..8
        invariant
            out@ =~= mid + g.data4@.subrange(0, k as int),
    {
        out.push(g.data4[k]);
        proof {
            assert(g.data4@.subrange(0, k + 1) =~= g.data4@.subrange(0, k as int)
                + seq![g.data4@[k as int]]);
        }
    }
    proof {
        assert(g.data4@.subrange(0, 8) =~= g.data4@);
    }
}

/// True of the class identifier that every shell link header carries.
pub open spec fn is_link_clsid(g: Guid) -> bool {
    &&& g.data1 == 0x00021401
    &&& g.data2 == 0
    &&& g.data3 == 0
    &&& g.data4@[0] == 0xC0
    &&& g.data4@[1] == 0
    &&& g.data4@[2] == 0
    &&& g.data4@[3] == 0
    &&& g.data4@[4] == 0
    &&& g.data4@[5] == 0
    &&& g.data4@[6] == 0
    &&& g.data4@[7] == 0x46
}

/// Builds the class identifier of the shell link format.
pub fn link_clsid() -> (g: Guid)
    ensures
        is_link_clsid(g),
{
    Guid { data1: 0x00021401, data2: 0, data3: 0, data4: [0xC0, 0, 0, 0, 0, 0, 0, 0x46] }
}

/// Tests whether `g` is the class identifier of the shell link format.
pub fn check_link_clsid(g: &Guid) -> (b: bool)
    ensures
        b == is_link_clsid(*g),
{
    g.data1 == 0x00021401 && g.data2 == 0 && g.data3 == 0 && g.data4[0] == 0xC0 && g.data4[1] == 0
        && g.data4[2] == 0 && g.data4[3] == 0 && g.data4[4] == 0 && g.data4[5] == 0 && g.data4[6]
        == 0 && g.data4[7] == 0x46
}

} // verus!
