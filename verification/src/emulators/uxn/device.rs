use vstd::prelude::*;

use crate::uxninterface::{RAM_SIZE, Uxn, UxnError, UxnState};

verus! {

/// What a device list did with a write: either a device took it, or it is addressed to the
/// system device, which the machine itself handles, at the given port.
#[derive(Debug, PartialEq, Eq, Clone, Copy)]
pub enum DeviceWriteReturnCode {
    Success,
    WriteToSystemDevice(u8),
}

/// What a device list did with a read: either the result of a device's read (an error for an
/// address that no device answers), or a read of the system device at the given port.
#[derive(Debug, PartialEq, Eq, Clone, Copy)]
pub enum DeviceReadReturnCode {
    Success(Result<u8, UxnError>),
    ReadFromSystemDevice(u8),
}

/// A collection of devices addressed by the high nibble of a device address.
pub trait DeviceList {
    /// Passes `val` on to the device that `device_address` names. A system device port is
    /// the low nibble of the address.
    fn write_to_device<M: MainRamInterface>(
        &mut self,
        device_address: u8,
        val: u8,
        main_ram: &mut M,
    ) -> (r: DeviceWriteReturnCode)
        requires
            old(main_ram).ok(),
        ensures
            r matches DeviceWriteReturnCode::WriteToSystemDevice(port) ==> port == device_address % 16,
            ram_only_changed(old(main_ram), final(main_ram)),
    ;

    /// Reads from the device that `device_address` names. A system device port is always one
    /// nibble.
    fn read_from_device(&mut self, device_address: u8) -> (r: DeviceReadReturnCode)
        ensures
            r matches DeviceReadReturnCode::ReadFromSystemDevice(port) ==> port <= 0xf,
    ;

    /// Takes the text that the system device prints when asked for its debug output.
    fn write_debug_output(&mut self, output: &[u8]);
}

/// An access made to a device: a read of a port, with the value it gave, or a write of a value
/// to a port.
pub enum DeviceAccess {
    Read(u8, u8),
    Write(u8, u8),
}

/// A device with sixteen ports. A write may move data to or from main memory, through the
/// memory interface only.
pub trait Device {
    /// Every access made to the device so far, in order. Each implementation keeps its own
    /// record of them.
    open spec fn accesses(&self) -> Seq<DeviceAccess> {
        Seq::empty()
    }

    fn write<M: MainRamInterface>(&mut self, port: u8, val: u8, main_ram: &mut M)
        requires
            port <= 0xf,
            old(main_ram).ok(),
        ensures
            ram_only_changed(old(main_ram), final(main_ram)),
            final(self).accesses() == old(self).accesses().push(DeviceAccess::Write(port, val)),
    ;

    fn read(&mut self, port: u8) -> (r: u8)
        requires
            port <= 0xf,
        ensures
            final(self).accesses() == old(self).accesses().push(DeviceAccess::Read(port, r)),
    ;
}

#[derive(Debug, PartialEq, Eq, Clone, Copy)]
pub enum MainRamInterfaceError {
    AddressOutOfBounds,
}

impl MainRamInterfaceError {
    /// Human readable description of the error.
    pub fn message(&self) -> (s: &'static str)
        ensures
            s@ == "attempt to access out of range memory address"@,
    {
        match self {
            MainRamInterfaceError::AddressOutOfBounds => "attempt to access out of range memory address",
        }
    }
}

/// Whether `bytes` fits in main memory from `address` on.
pub open spec fn fits(address: u16, len: int) -> bool {
    address + len <= RAM_SIZE
}

/// `new` is a machine that may differ from `old` in its memory alone.
pub open spec fn ram_only_changed<M: Uxn>(old: &M, new: &M) -> bool {
    &&& new.ok()
    &&& new.ram().len() == old.ram().len()
    &&& new.pc() == old.pc()
    &&& new.wst() == old.wst()
    &&& new.rst() == old.rst()
    &&& new.device_writes() == old.device_writes()
    &&& new.device_reads() == old.device_reads()
}

/// Access to the machine's main memory for devices that move blocks of data.
pub trait MainRamInterface: Uxn {
    /// The `num_bytes` bytes from `address` on; an error where they run past the end of memory.
    fn read(&self, address: u16, num_bytes: u16) -> (r: Result<Vec<u8>, MainRamInterfaceError>)
        requires
            self.ok(),
        ensures
            match r {
                Ok(v) => fits(address, num_bytes as int) && v@ == self.ram().subrange(
                    address as int,
                    address + num_bytes,
                ),
                Err(e) => !fits(address, num_bytes as int) && e == MainRamInterfaceError::AddressOutOfBounds,
            },
    ;

    /// Writes `bytes` from `address` on and gives their number; where they run past the end of
    /// memory, writes nothing and gives an error.
    fn write(&mut self, address: u16, bytes: &[u8]) -> (r: Result<usize, MainRamInterfaceError>)
        requires
            old(self).ok(),
        ensures
            ram_only_changed(old(self), final(self)),
            match r {
                Ok(n) => {
                    &&& fits(address, bytes@.len() as int)
                    &&& n == bytes@.len()
                    &&& final(self).ram() == old(self).ram().subrange(0, address as int) + bytes@
                        + old(self).ram().subrange(address + bytes@.len(), RAM_SIZE as int)
                },
                Err(e) => {
                    &&& !fits(address, bytes@.len() as int)
                    &&& e == MainRamInterfaceError::AddressOutOfBounds
                    &&& final(self).ram() == old(self).ram()
                },
            },
    ;
}

} // verus!
