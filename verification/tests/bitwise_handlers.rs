use rusty_uxn::emulators::devices::system::UxnSystemInterface;
use rusty_uxn::emulators::uxn::device::{
    DeviceList, DeviceReadReturnCode, DeviceWriteReturnCode, MainRamInterface,
};
use rusty_uxn::emulators::uxn::{UxnImpl, UxnWithDevicesImpl};
use rusty_uxn::ops::op_handlers::bitwise::{and_handler, eor_handler, ora_handler, sft_handler};
use rusty_uxn::ops::OpObjectFactory;
use rusty_uxn::uxninterface::Uxn;

struct NoDevices {}

impl DeviceList for NoDevices {
    fn write_to_device<M: MainRamInterface>(
        &mut self,
        _device_address: u8,
        _val: u8,
        _main_ram: &mut M,
    ) -> DeviceWriteReturnCode {
        DeviceWriteReturnCode::Success
    }

    fn read_from_device(&mut self, _device_address: u8) -> DeviceReadReturnCode {
        DeviceReadReturnCode::Success(Ok(0))
    }

    fn write_debug_output(&mut self, _output: &[u8]) {}
}

type Machine = UxnWithDevicesImpl<UxnImpl<OpObjectFactory>, NoDevices>;

// a machine whose stacks hold the given bytes, the last one on top
fn machine(wst: &[u8], rst: &[u8]) -> Machine {
    let mut uxn = UxnImpl::new(&[], OpObjectFactory {}).unwrap();
    for b in wst {
        uxn.push_to_working_stack(*b).unwrap();
    }
    for b in rst {
        uxn.push_to_return_stack(*b).unwrap();
    }
    UxnWithDevicesImpl::new(uxn, NoDevices {})
}

// the stack that a sequence of pops, top first, came from
fn popped(values: &[u8]) -> Vec<u8> {
    values.iter().rev().copied().collect()
}

#[test]
fn test_and_handler() {
    let mut m = machine(&popped(&[0x0a, 0xaa]), &popped(&[]));

    and_handler(&mut m, false, false, false).unwrap();

    assert_eq!(m.uxn.get_working_stack().to_vec(), Vec::<u8>::from([0x0a]));
    assert_eq!(m.uxn.get_return_stack().to_vec(), Vec::<u8>::new());
}

#[test]
fn test_and_handler_keep_short_return_mode() {
    let mut m = machine(&popped(&[]), &popped(&[0x0a, 0x0b, 0xaa, 0xbb]));

    and_handler(&mut m, true, true, true).unwrap();

    assert_eq!(m.uxn.get_working_stack().to_vec(), Vec::<u8>::new());
    assert_eq!(m.uxn.get_return_stack().to_vec(), Vec::<u8>::from([0xbb, 0xaa, 0x0b, 0x0a, 0x0b, 0x0a]));
}

#[test]
fn test_ora_handler() {
    let mut m = machine(&popped(&[0x0a, 0xa0]), &popped(&[]));

    ora_handler(&mut m, false, false, false).unwrap();

    assert_eq!(m.uxn.get_working_stack().to_vec(), Vec::<u8>::from([0xaa]));
    assert_eq!(m.uxn.get_return_stack().to_vec(), Vec::<u8>::new());
}

#[test]
fn test_ora_handler_keep_short_return_mode() {
    let mut m = machine(&popped(&[]), &popped(&[0x0a, 0x0b, 0xa0, 0xb0]));

    ora_handler(&mut m, true, true, true).unwrap();

    assert_eq!(m.uxn.get_working_stack().to_vec(), Vec::<u8>::new());
    assert_eq!(m.uxn.get_return_stack().to_vec(), Vec::<u8>::from([0xb0, 0xa0, 0x0b, 0x0a, 0xbb, 0xaa]));
}

#[test]
fn test_eor_handler() {
    let mut m = machine(&popped(&[0x0a, 0xa0]), &popped(&[]));

    eor_handler(&mut m, false, false, false).unwrap();

    assert_eq!(m.uxn.get_working_stack().to_vec(), Vec::<u8>::from([0xaa]));
    assert_eq!(m.uxn.get_return_stack().to_vec(), Vec::<u8>::new());
}

#[test]
fn test_eor_handler_keep_short_return_mode() {
    let mut m = machine(&popped(&[]), &popped(&[0x0a, 0x0b, 0xa0, 0xb0]));

    eor_handler(&mut m, true, true, true).unwrap();

    assert_eq!(m.uxn.get_working_stack().to_vec(), Vec::<u8>::new());
    assert_eq!(m.uxn.get_return_stack().to_vec(), Vec::<u8>::from([0xb0, 0xa0, 0x0b, 0x0a, 0xbb, 0xaa]));
}

#[test]
fn test_sft_handler() {
    let mut m = machine(&popped(&[0x21, 0xff]), &popped(&[]));

    sft_handler(&mut m, false, false, false).unwrap();

    assert_eq!(m.uxn.get_working_stack().to_vec(), Vec::<u8>::from([0xfc]));
    assert_eq!(m.uxn.get_return_stack().to_vec(), Vec::<u8>::new());
}

#[test]
fn test_sft_handler_keep_short_return_mode() {
    let mut m = machine(&popped(&[]), &popped(&[0x21, 0xff, 0xff]));

    sft_handler(&mut m, true, true, true).unwrap();

    assert_eq!(m.uxn.get_working_stack().to_vec(), Vec::<u8>::new());
    assert_eq!(m.uxn.get_return_stack().to_vec(), Vec::<u8>::from([0xff, 0xff, 0x21, 0xff, 0xfc]));
}
