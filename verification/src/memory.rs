//! What the driver needs of the machine: buffer addresses and memory barriers.
use core::sync::atomic::fence;
use core::sync::atomic::Ordering;
use vstd::prelude::*;

verus! {

/// Address of a value, for a descriptor to name.
///
/// Calls `core::ptr::from_ref`, which turns a reference into a pointer to the same place.
/// Nothing is claimed of the number: it is where the machine happened to put the value.
#[verifier::external_body]
pub(crate) fn address_of<T>(value: &T) -> (address: u64) {
    core::ptr::from_ref(value) as u64
}

/// A buffer together with its address.
///
/// One is only made by [`Placed::of`], so that the address of one buffer cannot pass for that of
/// another.
pub struct Placed<'a> {
    bytes: &'a [u8],
    addr: u64,
}

impl<'a> Placed<'a> {
    /// The contents of the buffer.
    pub closed spec fn bytes(self) -> Seq<u8> {
        self.bytes@
    }

    /// The address of the buffer.
    pub closed spec fn addr(self) -> u64 {
        self.addr
    }

    /// Finds out where a buffer stands.
    pub(crate) fn of(buffer: &'a [u8]) -> (placed: Self)
        requires
            buffer@.len() > 0,
        ensures
            placed.bytes() == buffer@,
    {
        Placed { bytes: buffer, addr: address_of(&buffer[0]) }
    }

    /// The address of the buffer.
    pub(crate) fn address(&self) -> (address: u64)
        ensures
            address == self.addr(),
    {
        self.addr
    }
}

/// `core::sync::atomic::fence` orders memory accesses around it and returns nothing. It panics
/// when asked for the relaxed ordering, which the precondition rules out.
pub assume_specification[ fence ](order: Ordering)
    requires
        !(order is Relaxed),
;

/// Makes every earlier write visible to the device before any later write.
pub(crate) fn write_barrier() {
    fence(Ordering::Release);
}

/// Makes every later read see what the device wrote before the index just read.
pub(crate) fn read_barrier() {
    fence(Ordering::Acquire);
}

} // verus!
