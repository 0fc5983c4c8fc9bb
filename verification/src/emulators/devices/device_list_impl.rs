use vstd::prelude::*;

use crate::emulators::uxn::device::{
    Device, DeviceAccess, DeviceList, DeviceReadReturnCode, DeviceWriteReturnCode,
    MainRamInterface,
};
use crate::uxninterface::UxnError;

verus! {

/// Number of device slots: a device address names its device by its high nibble.
pub const DEVICE_SLOTS: usize = 16;

/// What a device slot holds: a device, or the place of the system device, which keeps the
/// debug text that the system device prints.
pub enum DeviceEntry<D: Device> {
    Device(D),
    SystemPlaceHolder(Vec<u8>),
}

/// The entry that the last pair with index `i` in `entries` gives, if any.
pub open spec fn latest_entry<D: Device>(entries: Seq<(u8, DeviceEntry<D>)>, i: int) -> Option<DeviceEntry<D>>
    decreases entries.len(),
{
    if entries.len() == 0 {
        None
    } else if entries.last().0 == i {
        Some(entries.last().1)
    } else {
        latest_entry(entries.drop_last(), i)
    }
}

/// A device list with sixteen slots, one for each high nibble of a device address.
pub struct DeviceListImpl<D: Device> {
    list: Vec<Option<DeviceEntry<D>>>,
    debug_slot: usize,
}

/// The slot that a device address names, and the port within that device.
pub open spec fn slot_of(device_address: u8) -> int {
    (device_address / 16) as int
}

pub open spec fn port_of(device_address: u8) -> u8 {
    device_address % 16
}

fn split_address(device_address: u8) -> (r: (usize, u8))
    ensures
        r.0 == slot_of(device_address),
        r.1 == port_of(device_address),
        r.0 < DEVICE_SLOTS,
        r.1 <= 0xf,
{
    let index = device_address >> 4;
    let port = device_address & 0xf;
    assert(device_address >> 4 == device_address / 16) by (bit_vector);
    assert(device_address & 0xf == device_address % 16) by (bit_vector);
    (index as usize, port)
}

impl<D: Device> DeviceListImpl<D> {
    pub closed spec fn slots(&self) -> Seq<Option<DeviceEntry<D>>> {
        self.list@
    }

    /// The slot whose system device was written to last.
    pub closed spec fn debug_slot(&self) -> int {
        self.debug_slot as int
    }

    pub open spec fn wf(&self) -> bool {
        self.slots().len() == DEVICE_SLOTS
    }

    /// A device list holding each entry at the slot that its index names; where an index
    /// occurs twice the later entry is kept, and an index past the last slot names none.
    pub fn new(list: Vec<(u8, DeviceEntry<D>)>) -> (r: Self)
        ensures
            r.wf(),
            forall|i: int| 0 <= i < DEVICE_SLOTS ==> #[trigger] r.slots()[i] == latest_entry(list@, i),
    {
        let ghost orig = list@;
        let mut entries = list;
        let mut slots: Vec<Option<DeviceEntry<D>>> = Vec::new();
        let mut k: usize = 0;
        while k < DEVICE_SLOTS
            invariant
                k <= DEVICE_SLOTS,
                slots@.len() == k,
                forall|i: int| 0 <= i < k ==> #[trigger] slots@[i] == None::<DeviceEntry<D>>,
            decreases DEVICE_SLOTS - k,
        {
            slots.push(None);
            k = k + 1;
        }
        let ghost mut done: int = 0;
        while entries.len() > 0
            invariant
                0 <= done <= orig.len(),
                entries@ == orig.subrange(done, orig.len() as int),
                slots@.len() == DEVICE_SLOTS,
                forall|i: int| 0 <= i < DEVICE_SLOTS ==> #[trigger] slots@[i] == latest_entry(orig.take(done), i),
            decreases entries.len(),
        {
            let (index, entry) = entries.remove(0);
            proof {
                assert(orig.take(done + 1).drop_last() =~= orig.take(done));
                assert(orig.take(done + 1).last() == orig[done]);
            }
            if (index as usize) < DEVICE_SLOTS {
                slots.set(index as usize, Some(entry));
            }
            proof {
                done = done + 1;
                assert(entries@ =~= orig.subrange(done, orig.len() as int));
            }
        }
        assert(orig.take(done) =~= orig);
        DeviceListImpl { list: slots, debug_slot: DEVICE_SLOTS }
    }

    /// Takes the debug text that the system device at slot `index` has printed, leaving it
    /// empty; nothing where the slot holds no system device.
    pub fn take_debug_output(&mut self, index: u8) -> (r: Vec<u8>)
        ensures
            old(self).wf() ==> final(self).wf(),
            final(self).debug_slot() == old(self).debug_slot(),
            old(self).wf() ==> match old(self).slots()[index as int] {
                Some(DeviceEntry::SystemPlaceHolder(text)) if (index as int) < DEVICE_SLOTS => {
                    &&& r@ == text@
                    &&& final(self).slots()[index as int] matches Some(DeviceEntry::SystemPlaceHolder(t)) && t@.len() == 0
                    &&& final(self).slots() == old(self).slots().update(
                        index as int,
                        final(self).slots()[index as int],
                    )
                },
                _ => r@.len() == 0 && final(self).slots() == old(self).slots(),
            },
    {
        let i = index as usize;
        if i >= self.list.len() || i >= DEVICE_SLOTS {
            return Vec::new();
        }
        let entry = self.list.remove(i);
        match entry {
            Some(DeviceEntry::SystemPlaceHolder(text)) => {
                self.list.insert(i, Some(DeviceEntry::SystemPlaceHolder(Vec::new())));
                proof {
                    assert(self.list@ =~= old(self).list@.update(i as int, self.list@[i as int]));
                }
                text
            },
            other => {
                self.list.insert(i, other);
                proof {
                    assert(self.list@ =~= old(self).list@);
                }
                Vec::new()
            },
        }
    }
}

impl<D: Device> DeviceList for DeviceListImpl<D> {
    fn write_to_device<M: MainRamInterface>(
        &mut self,
        device_address: u8,
        val: u8,
        main_ram: &mut M,
    ) -> (r: DeviceWriteReturnCode)
        ensures
            old(self).wf() ==> {
                &&& final(self).wf()
                &&& match old(self).slots()[slot_of(device_address)] {
                    Some(DeviceEntry::SystemPlaceHolder(_)) => {
                        &&& r == DeviceWriteReturnCode::WriteToSystemDevice(port_of(device_address))
                        &&& final(self).slots() == old(self).slots()
                        &&& final(self).debug_slot() == slot_of(device_address)
                    },
                    Some(DeviceEntry::Device(d)) => {
                        &&& r == DeviceWriteReturnCode::Success
                        &&& final(self).slots()[slot_of(device_address)] matches Some(DeviceEntry::Device(d2))
                            && d2.accesses() == d.accesses().push(DeviceAccess::Write(port_of(device_address), val))
                        &&& final(self).slots() == old(self).slots().update(
                            slot_of(device_address),
                            final(self).slots()[slot_of(device_address)],
                        )
                        &&& final(self).debug_slot() == old(self).debug_slot()
                    },
                    None => {
                        &&& r == DeviceWriteReturnCode::Success
                        &&& final(self).slots() == old(self).slots()
                        &&& final(self).debug_slot() == old(self).debug_slot()
                    },
                }
            },
    {
        let (i, port) = split_address(device_address);
        if i >= self.list.len() {
            return DeviceWriteReturnCode::Success;
        }
        let entry = self.list.remove(i);
        match entry {
            Some(DeviceEntry::Device(mut device)) => {
                device.write(port, val, main_ram);
                self.list.insert(i, Some(DeviceEntry::Device(device)));
                DeviceWriteReturnCode::Success
            },
            Some(DeviceEntry::SystemPlaceHolder(text)) => {
                self.list.insert(i, Some(DeviceEntry::SystemPlaceHolder(text)));
                proof {
                    assert(self.list@ =~= old(self).list@);
                }
                self.debug_slot = i;
                DeviceWriteReturnCode::WriteToSystemDevice(port)
            },
            None => {
                self.list.insert(i, None);
                proof {
                    assert(self.list@ =~= old(self).list@);
                }
                DeviceWriteReturnCode::Success
            },
        }
    }

    fn read_from_device(&mut self, device_address: u8) -> (r: DeviceReadReturnCode)
        ensures
            old(self).wf() ==> {
                &&& final(self).wf()
                &&& final(self).debug_slot() == old(self).debug_slot()
                &&& match old(self).slots()[slot_of(device_address)] {
                    Some(DeviceEntry::SystemPlaceHolder(_)) => {
                        &&& r == DeviceReadReturnCode::ReadFromSystemDevice(port_of(device_address))
                        &&& final(self).slots() == old(self).slots()
                    },
                    Some(DeviceEntry::Device(d)) => {
                        &&& r matches DeviceReadReturnCode::Success(Ok(v))
                            && final(self).slots()[slot_of(device_address)] matches Some(DeviceEntry::Device(d2))
                            && d2.accesses() == d.accesses().push(DeviceAccess::Read(port_of(device_address), v))
                        &&& final(self).slots() == old(self).slots().update(
                            slot_of(device_address),
                            final(self).slots()[slot_of(device_address)],
                        )
                    },
                    None => {
                        &&& r == DeviceReadReturnCode::Success(Err(UxnError::UnrecognisedDevice))
                        &&& final(self).slots() == old(self).slots()
                    },
                }
            },
    {
        let (i, port) = split_address(device_address);
        if i >= self.list.len() {
            return DeviceReadReturnCode::Success(Err(UxnError::UnrecognisedDevice));
        }
        let entry = self.list.remove(i);
        match entry {
            Some(DeviceEntry::Device(mut device)) => {
                let v = device.read(port);
                self.list.insert(i, Some(DeviceEntry::Device(device)));
                DeviceReadReturnCode::Success(Ok(v))
            },
            Some(DeviceEntry::SystemPlaceHolder(text)) => {
                self.list.insert(i, Some(DeviceEntry::SystemPlaceHolder(text)));
                proof {
                    assert(self.list@ =~= old(self).list@);
                }
                DeviceReadReturnCode::ReadFromSystemDevice(port)
            },
            None => {
                self.list.insert(i, None);
                proof {
                    assert(self.list@ =~= old(self).list@);
                }
                DeviceReadReturnCode::Success(Err(UxnError::UnrecognisedDevice))
            },
        }
    }

    fn write_debug_output(&mut self, output: &[u8])
        ensures
            old(self).wf() ==> {
                &&& final(self).wf()
                &&& final(self).debug_slot() == old(self).debug_slot()
                &&& match old(self).slots()[old(self).debug_slot()] {
                    Some(DeviceEntry::SystemPlaceHolder(text)) if old(self).debug_slot() < DEVICE_SLOTS => {
                        final(self).slots()[old(self).debug_slot()] matches Some(DeviceEntry::SystemPlaceHolder(t))
                            && t@ == text@ + output@ && final(self).slots() == old(self).slots().update(
                            old(self).debug_slot(),
                            final(self).slots()[old(self).debug_slot()],
                        )
                    },
                    _ => final(self).slots() == old(self).slots(),
                }
            },
    {
        let i = self.debug_slot;
        if i >= self.list.len() || i >= DEVICE_SLOTS {
            return;
        }
        let entry = self.list.remove(i);
        match entry {
            Some(DeviceEntry::SystemPlaceHolder(mut text)) => {
                let mut j: usize = 0;
                let ghost start = text@;
                while j < output.len()
                    invariant
                        j <= output@.len(),
                        text@ == start + output@.take(j as int),
                    decreases output.len() - j,
                {
                    text.push(output[j]);
                    assert(output@.take(j + 1) =~= output@.take(j as int).push(output@[j as int]));
                    j = j + 1;
                }
                assert(output@.take(output@.len() as int) =~= output@);
                self.list.insert(i, Some(DeviceEntry::SystemPlaceHolder(text)));
            },
            other => {
                self.list.insert(i, other);
                proof {
                    assert(self.list@ =~= old(self).list@);
                }
            },
        }
    }
}

/// A device list lent out to a run stays with its owner.
impl<'a, K: DeviceList> DeviceList for &'a mut K {
    fn write_to_device<M: MainRamInterface>(
        &mut self,
        device_address: u8,
        val: u8,
        main_ram: &mut M,
    ) -> (r: DeviceWriteReturnCode) {
        (**self).write_to_device(device_address, val, main_ram)
    }

    fn read_from_device(&mut self, device_address: u8) -> (r: DeviceReadReturnCode) {
        (**self).read_from_device(device_address)
    }

    fn write_debug_output(&mut self, output: &[u8]) {
        (**self).write_debug_output(output)
    }
}

} // verus!
