//! The scalar side of array marshalling: the host counts array elements in a
//! signed 32-bit integer and holds a boolean in one byte, the native side
//! counts in `usize`. A length that does not fit is refused, never cut.

use vstd::prelude::*;

verus! {

/// The host's byte for a flag: 1 for true, 0 for false.
pub fn host_flag(flag: bool) -> (byte: u8)
    ensures
        byte == (if flag { 1u8 } else { 0u8 }),
{
    if flag {
        1
    } else {
        0
    }
}

/// The length of the host array that holds a native sequence of `len`
/// elements, if the host can count that far.
pub fn host_length(len: usize) -> (host: Option<i32>)
    ensures
        len <= i32::MAX ==> host == Some(len as i32),
        len > i32::MAX ==> host is None,
{
    if len <= 0x7fff_ffff {
        Some(len as i32)
    } else {
        None
    }
}

/// The length of the native view of a host array that reports `len`
/// elements, unless the report is negative.
pub fn native_length(len: i32) -> (native: Option<usize>)
    ensures
        len >= 0 ==> native == Some(len as usize),
        len < 0 ==> native is None,
{
    if len >= 0 {
        Some(len as usize)
    } else {
        None
    }
}

/// A length that went to the host and came back is the same length.
pub proof fn law_length_round_trip(len: usize)
    requires
        len <= i32::MAX,
    ensures
        0 <= len as i32,
        (len as i32) as usize == len,
{
}

} // verus!
