//! The contract between the machine and a memory-mapped device.
use vstd::prelude::*;

verus! {

/// A device on the bus. It takes one slot of the address space, named by
/// `address`, and answers byte loads and stores made to that slot.
///
/// Nothing is promised about what a device answers or how it changes: the
/// machine is verified for every answer.
pub trait Device {
    /// Reads a byte. `addr` is the offset of the access within the device's slot.
    fn load(&mut self, addr: u8) -> u8;

    /// Writes a byte. `addr` is the offset of the access within the device's slot.
    fn push(&mut self, addr: u8, data: u8);

    /// The address of the device's slot. It is asked once, when the device is
    /// attached.
    fn address(&self) -> u8;
}

} // verus!
