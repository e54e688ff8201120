//! The raw device record and its validated deserialization.
//!
//! A device file yields a stream of fixed-size binary records; each holds a
//! timestamp, a kind, a code and a value in little-endian byte order. The
//! reader hands the bytes of one record to `parse_record`, which constructs
//! the record field by field instead of reinterpreting memory.

use vstd::prelude::*;

verus! {

/// The size in bytes of one raw record on a 64-bit little-endian device:
/// two 8-byte timestamp words, two 2-byte fields and one 4-byte field.
pub const RECORD_SIZE: usize = 24;

/// One raw input record as read verbatim from a device file.
#[derive(Clone, Copy, Debug, PartialEq, Eq, Structural)]
pub struct InputRecord {
    /// Seconds part of the kernel timestamp.
    pub seconds: i64,
    /// Microseconds part of the kernel timestamp.
    pub microseconds: i64,
    /// The event kind (synchronization, key, absolute axis, ...).
    pub kind: u16,
    /// The event code within its kind.
    pub code: u16,
    /// The event value.
    pub value: i32,
}

/// The unsigned 16-bit integer held little-endian in two bytes.
pub open spec fn le16(b0: u8, b1: u8) -> u16 {
    (b0 + b1 * 0x100) as u16
}

/// The unsigned 32-bit integer held little-endian in four bytes.
pub open spec fn le32(b0: u8, b1: u8, b2: u8, b3: u8) -> u32 {
    (b0 + b1 * 0x100 + b2 * 0x1_0000 + b3 * 0x100_0000) as u32
}

/// The unsigned 64-bit integer held little-endian in eight bytes.
pub open spec fn le64(s: Seq<u8>) -> u64
    recommends
        s.len() == 8,
{
    (le32(s[0], s[1], s[2], s[3]) + le32(s[4], s[5], s[6], s[7]) * 0x1_0000_0000) as u64
}

/// The record held in one `RECORD_SIZE`-byte little-endian buffer.
pub open spec fn record_of(s: Seq<u8>) -> InputRecord
    recommends
        s.len() == RECORD_SIZE,
{
    InputRecord {
        seconds: le64(s.subrange(0, 8)) as i64,
        microseconds: le64(s.subrange(8, 16)) as i64,
        kind: le16(s[16], s[17]),
        code: le16(s[18], s[19]),
        value: le32(s[20], s[21], s[22], s[23]) as i32,
    }
}

fn read_le16(bytes: &[u8], at: usize) -> (r: u16)
    requires
        at + 2 <= bytes@.len(),
    ensures
        r == le16(bytes@[at as int], bytes@[at + 1]),
{
    let b0: u16 = bytes[at] as u16;
    let b1: u16 = bytes[at + 1] as u16;
    b0 + b1 * 0x100
}

fn read_le32(bytes: &[u8], at: usize) -> (r: u32)
    requires
        at + 4 <= bytes@.len(),
    ensures
        r == le32(bytes@[at as int], bytes@[at + 1], bytes@[at + 2], bytes@[at + 3]),
{
    let b0: u32 = bytes[at] as u32;
    let b1: u32 = bytes[at + 1] as u32;
    let b2: u32 = bytes[at + 2] as u32;
    let b3: u32 = bytes[at + 3] as u32;
    b0 + b1 * 0x100 + b2 * 0x1_0000 + b3 * 0x100_0000
}

fn read_le64(bytes: &[u8], at: usize) -> (r: u64)
    requires
        at + 8 <= bytes@.len(),
    ensures
        r == le64(bytes@.subrange(at as int, at + 8)),
{
    // The slice length fits in a usize, so the offsets below cannot overflow.
    let _n: usize = bytes.len();
    let lo: u64 = read_le32(bytes, at) as u64;
    let hi: u64 = read_le32(bytes, at + 4) as u64;
    proof {
        let s = bytes@.subrange(at as int, at + 8);
        assert(s[0] == bytes@[at as int]);
        assert(s[1] == bytes@[at + 1]);
        assert(s[2] == bytes@[at + 2]);
        assert(s[3] == bytes@[at + 3]);
        assert(s[4] == bytes@[at + 4]);
        assert(s[5] == bytes@[at + 5]);
        assert(s[6] == bytes@[at + 6]);
        assert(s[7] == bytes@[at + 7]);
    }
    lo + hi * 0x1_0000_0000
}

/// Builds one record from exactly `RECORD_SIZE` little-endian bytes;
/// any other byte count is a decode error.
pub fn parse_record(bytes: &[u8]) -> (r: Option<InputRecord>)
    ensures
        bytes@.len() == RECORD_SIZE ==> r == Some(record_of(bytes@)),
        bytes@.len() != RECORD_SIZE ==> r is None,
{
    if bytes.len() != RECORD_SIZE {
        return None;
    }
    let seconds: i64 = read_le64(bytes, 0) as i64;
    let microseconds: i64 = read_le64(bytes, 8) as i64;
    let kind: u16 = read_le16(bytes, 16);
    let code: u16 = read_le16(bytes, 18);
    let value: i32 = read_le32(bytes, 20) as i32;
    Some(InputRecord { seconds, microseconds, kind, code, value })
}

} // verus!
