//! A zero-width read primitive: it consumes nothing and captures the
//! cursor's position, as a 32-bit offset. Offset tables such as the one
//! in LinkInfo are anchored against a position captured this way.

use vstd::prelude::*;

verus! {

/// A captured cursor position.
#[derive(Clone, Copy, Debug, PartialEq, Eq, Structural)]
pub struct CurrentOffset(pub u32);

impl CurrentOffset {
    /// The captured position.
    pub fn value(&self) -> (r: u32)
        ensures
            r == self.0,
    {
        self.0
    }
}

/// Captures the cursor position at `pos` without consuming anything.
/// The format's offsets are 32-bit, so the position must fit them.
pub fn read_current_offset(pos: usize) -> (r: CurrentOffset)
    requires
        pos <= 0xFFFF_FFFF,
    ensures
        r.0 == pos,
{
    CurrentOffset(pos as u32)
}

} // verus!
