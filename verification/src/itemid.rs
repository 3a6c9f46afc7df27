//! A single item of a target ID list: a 16-bit size followed by opaque
//! shell data. The size counts itself, so it is zero (the sentinel) or
//! greater than two.

use vstd::prelude::*;

use crate::bytes::{enc_u16, write_u16};

verus! {

/// One item of an ID list, holding its opaque shell data. The wire form
/// prefixes the data with its length plus the two length bytes.
#[derive(Clone, Debug, PartialEq, Eq)]
pub struct ItemID {
    pub data: Vec<u8>,
}

impl ItemID {
    /// An item is well formed when its data is neither empty nor too
    /// long for the 16-bit size field.
    pub open spec fn wf(self) -> bool {
        1 <= self.data@.len() <= 0xFFFD
    }

    /// The declared size: the data and the two size bytes.
    pub open spec fn spec_size(self) -> int {
        self.data@.len() as int + 2
    }

    /// The wire form: the size, then the data.
    pub open spec fn bytes(self) -> Seq<u8> {
        enc_u16((self.data@.len() + 2) as u16) + self.data@
    }

    /// Builds an item over opaque data.
    pub fn new(data: Vec<u8>) -> (r: ItemID)
        requires
            1 <= data@.len() <= 0xFFFD,
        ensures
            r.data@ == data@,
            r.wf(),
    {
        ItemID { data }
    }

    /// The declared size of this item.
    pub fn size(&self) -> (r: u16)
        requires
            self.wf(),
        ensures
            r == self.spec_size(),
    {
        (self.data.len() + 2) as u16
    }

    /// The opaque shell data.
    pub fn data(&self) -> (r: &Vec<u8>)
        ensures
            r@ == self.data@,
    {
        &self.data
    }
}

/// Appends the wire form of `item`.
pub fn write_item_id(out: &mut Vec<u8>, item: &ItemID)
    requires
        item.wf(),
    ensures
        final(out)@ =~= old(out)@ + item.bytes(),
{
    write_u16(out, (item.data.len() + 2) as u16);
    let mut copy = crate::strings::copy_range(item.data.as_slice(), 0, item.data.len());
    proof {
        assert(copy@ =~= item.data@);
    }
    out.append(&mut copy);
}

} // verus!
