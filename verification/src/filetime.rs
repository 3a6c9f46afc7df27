//! The FILETIME codec: a 64-bit count of 100-nanosecond ticks since
//! 1601-01-01 UTC, stored little-endian. The raw value is preserved
//! verbatim across a round-trip; the civil reading is a derived, lossy
//! accessor and is never used for re-encoding.

use vstd::prelude::*;

use chrono::{Datelike, Timelike};

use crate::bytes::{enc_u64, le64_at, lemma_enc_le64, lemma_le64_enc, read_u64, write_u64};

verus! {

/// A FILETIME value, held as its raw tick count.
#[derive(Clone, Copy, Debug, PartialEq, Eq, Structural)]
pub struct FileTime {
    pub raw: u64,
}

/// A civil (calendar and wall-clock) date-time, at microsecond
/// resolution: the derived reading of a FILETIME.
#[derive(Clone, Copy, Debug, PartialEq, Eq, Structural)]
pub struct CivilDateTime {
    pub year: i32,
    pub month: u32,
    pub day: u32,
    pub hour: u32,
    pub minute: u32,
    pub second: u32,
    pub nanosecond: u32,
}

/// The civil reading of a tick count: a function of the ticks alone.
pub uninterp spec fn civil_of(ticks: u64) -> (i32, u32, u32, u32, u32, u32, u32);

/// Relies on winstructs::timestamp::WinTimestamp::to_datetime and chrono's
/// Datelike/Timelike accessors: the civil reading of a FILETIME tick count,
/// truncated to microseconds, depends on the ticks alone.
#[verifier::external_body]
fn civil_parts(ticks: u64) -> (r: (i32, u32, u32, u32, u32, u32, u32))
    ensures
        r == civil_of(ticks),
{
    let ts = winstructs::timestamp::WinTimestamp::new(&ticks.to_le_bytes()).unwrap();
    let dt = ts.to_datetime().naive_utc();
    (dt.year(), dt.month(), dt.day(), dt.hour(), dt.minute(), dt.second(), dt.nanosecond())
}

impl FileTime {
    /// The tuple view of a civil date-time.
    pub open spec fn spec_datetime(self) -> (i32, u32, u32, u32, u32, u32, u32) {
        civil_of(self.raw)
    }

    /// A FILETIME from its raw tick count.
    pub fn new(raw: u64) -> (r: FileTime)
        ensures
            r.raw == raw,
    {
        FileTime { raw }
    }

    /// The raw tick count.
    pub fn raw(&self) -> (r: u64)
        ensures
            r == self.raw,
    {
        self.raw
    }

    /// The civil reading of this FILETIME. It is derived from the raw
    /// value alone: equal raw values give equal civil readings.
    pub fn datetime(&self) -> (r: CivilDateTime)
        ensures
            (r.year, r.month, r.day, r.hour, r.minute, r.second, r.nanosecond)
                == self.spec_datetime(),
    {
        let (year, month, day, hour, minute, second, nanosecond) = civil_parts(self.raw);
        CivilDateTime { year, month, day, hour, minute, second, nanosecond }
    }

    /// The eight-byte wire form.
    pub open spec fn bytes(self) -> Seq<u8> {
        enc_u64(self.raw)
    }
}

impl Default for FileTime {
    /// The unset FILETIME: all ticks zero.
    fn default() -> (r: Self)
        ensures
            r.raw == 0,
    {
        FileTime { raw: 0 }
    }
}

/// Reads a FILETIME at `pos`: the raw loaded value, whatever it is.
pub fn read_filetime(data: &[u8], pos: usize) -> (r: FileTime)
    requires
        pos + 8 <= data@.len(),
    ensures
        r.raw == le64_at(data@, pos as int),
        r.bytes() =~= data@.subrange(pos as int, pos + 8),
{
    let r = FileTime { raw: read_u64(data, pos) };
    proof {
        lemma_enc_le64(data@, pos as int);
    }
    r
}

/// Appends the wire form of `t`.
pub fn write_filetime(out: &mut Vec<u8>, t: &FileTime)
    ensures
        final(out)@ =~= old(out)@ + t.bytes(),
{
    write_u64(out, t.raw);
}

/// Parsing a FILETIME and emitting it again yields the identical
/// eight-byte little-endian encoding, and the derived civil time is
/// unchanged by the round-trip.
pub proof fn lemma_filetime_round_trip(t: u64)
    ensures
        enc_u64(t).len() == 8,
        le64_at(enc_u64(t), 0) == t,
        civil_of(le64_at(enc_u64(t), 0)) == civil_of(t),
{
    lemma_le64_enc(t);
}

} // verus!
