//! Handles: the integer under which a host runtime knows a native address.
//!
//! The host keeps a signed 64-bit integer and hands it back with every call.
//! A handle has the bits of the address it stands for, so that the address is
//! found again from the handle alone. Turning an object into an address, and
//! an address into a reference, is the caller's business; so is the promise
//! that a handle is decoded only between the creation and the destruction of
//! its object.

use vstd::prelude::*;

verus! {

/// The handle that stands for `address`: the same 64 bits, read as signed.
pub open spec fn handle_of(address: u64) -> i64 {
    if address <= i64::MAX as u64 {
        address as i64
    } else {
        (address - 0x1_0000_0000_0000_0000) as i64
    }
}

/// The address that `handle` stands for: the same 64 bits, read as unsigned.
pub open spec fn address_of(handle: i64) -> u64 {
    if handle >= 0 {
        handle as u64
    } else {
        (handle + 0x1_0000_0000_0000_0000) as u64
    }
}

/// Turns a native address into the handle given to the host.
pub fn encode(address: u64) -> (handle: i64)
    ensures
        handle == handle_of(address),
{
    let handle: i64 = address as i64;
    assert(address <= 0x7fff_ffff_ffff_ffffu64 ==> address as i64 == address) by (bit_vector);
    assert(address > 0x7fff_ffff_ffff_ffffu64 ==> address as i64 == address
        - 0x1_0000_0000_0000_0000) by (bit_vector);
    handle
}

/// Turns a handle that came back from the host into the native address.
pub fn decode(handle: i64) -> (address: u64)
    ensures
        address == address_of(handle),
{
    let address: u64 = handle as u64;
    assert(handle >= 0 ==> handle as u64 == handle) by (bit_vector);
    assert(handle < 0 ==> handle as u64 == handle + 0x1_0000_0000_0000_0000) by (bit_vector);
    address
}

/// Decoding the handle of an address gives the address back.
pub proof fn law_address_round_trip(address: u64)
    ensures
        address_of(handle_of(address)) == address,
{
}

/// Encoding the address of a handle gives the handle back.
pub proof fn law_handle_round_trip(handle: i64)
    ensures
        handle_of(address_of(handle)) == handle,
{
}

/// Two addresses never share a handle.
pub proof fn law_handles_are_distinct(a: u64, b: u64)
    requires
        handle_of(a) == handle_of(b),
    ensures
        a == b,
{
    law_address_round_trip(a);
    law_address_round_trip(b);
}

} // verus!
