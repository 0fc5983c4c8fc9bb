use rusty_uxn::emulators::devices::system::UxnSystemInterface;
use rusty_uxn::emulators::uxn::device::{
    DeviceList, DeviceReadReturnCode, DeviceWriteReturnCode, MainRamInterface,
};
use rusty_uxn::emulators::uxn::{UxnImpl, UxnWithDevicesImpl};
use rusty_uxn::ops::op_handlers::arithmetic::{add_handler, div_handler, mul_handler, sub_handler};
use rusty_uxn::ops::OpObjectFactory;
use rusty_uxn::uxninterface::Uxn;

struct NoDevices {}

impl DeviceList for NoDevices {
    fn write_to_device<M: MainRamInterface>(
        &mut self,
        _device_address: u8,
        _val: u8,
        _main_ram: &mut M,
    ) -> DeviceWriteReturnCode {
        DeviceWriteReturnCode::Success
    }

    fn read_from_device(&mut self, _device_address: u8) -> DeviceReadReturnCode {
        DeviceReadReturnCode::Success(Ok(0))
    }

    fn write_debug_output(&mut self, _output: &[u8]) {}
}

type Machine = UxnWithDevicesImpl<UxnImpl<OpObjectFactory>, NoDevices>;

// a machine whose stacks hold the given bytes, the last one on top
fn machine(wst: &[u8], rst: &[u8]) -> Machine {
    let mut uxn = UxnImpl::new(&[], OpObjectFactory {}).unwrap();
    for b in wst {
        uxn.push_to_working_stack(*b).unwrap();
    }
    for b in rst {
        uxn.push_to_return_stack(*b).unwrap();
    }
    UxnWithDevicesImpl::new(uxn, NoDevices {})
}

// the stack that a sequence of pops, top first, came from
fn popped(values: &[u8]) -> Vec<u8> {
    values.iter().rev().copied().collect()
}

#[test]
fn test_add_handler() {
    let mut m = machine(&popped(&[0x11, 0x12]), &popped(&[]));

    add_handler(&mut m, false, false, false).unwrap();

    assert_eq!(m.uxn.get_working_stack().to_vec(), Vec::<u8>::from([0x23]));
    assert_eq!(m.uxn.get_return_stack().to_vec(), Vec::<u8>::new());
}

#[test]
fn test_add_handler_keep_short_return_mode() {
    let mut m = machine(&popped(&[]), &popped(&[0x11, 0x12, 0x13, 0x14]));

    add_handler(&mut m, true, true, true).unwrap();

    assert_eq!(m.uxn.get_working_stack().to_vec(), Vec::<u8>::new());
    assert_eq!(m.uxn.get_return_stack().to_vec(), Vec::<u8>::from([0x14, 0x13, 0x12, 0x11, 0x26, 0x24]));
}

#[test]
fn test_sub_handler() {
    let mut m = machine(&popped(&[0x11, 0x14]), &popped(&[]));

    sub_handler(&mut m, false, false, false).unwrap();

    assert_eq!(m.uxn.get_working_stack().to_vec(), Vec::<u8>::from([0x03]));
    assert_eq!(m.uxn.get_return_stack().to_vec(), Vec::<u8>::new());
}

#[test]
fn test_sub_handler_keep_short_return_mode() {
    let mut m = machine(&popped(&[]), &popped(&[0x12, 0x12, 0x13, 0x14]));

    sub_handler(&mut m, true, true, true).unwrap();

    assert_eq!(m.uxn.get_working_stack().to_vec(), Vec::<u8>::new());
    assert_eq!(m.uxn.get_return_stack().to_vec(), Vec::<u8>::from([0x14, 0x13, 0x12, 0x12, 0x02, 0x01]));
}

#[test]
fn test_mul_handler() {
    let mut m = machine(&popped(&[0x02, 0x02]), &popped(&[]));

    mul_handler(&mut m, false, false, false).unwrap();

    assert_eq!(m.uxn.get_working_stack().to_vec(), Vec::<u8>::from([0x04]));
    assert_eq!(m.uxn.get_return_stack().to_vec(), Vec::<u8>::new());
}

#[test]
fn test_mul_handler_keep_short_return_mode() {
    let mut m = machine(&popped(&[]), &popped(&[0x11, 0x00, 0x14, 0x00]));

    mul_handler(&mut m, true, true, true).unwrap();

    assert_eq!(m.uxn.get_working_stack().to_vec(), Vec::<u8>::new());
    assert_eq!(m.uxn.get_return_stack().to_vec(), Vec::<u8>::from([0x00, 0x14, 0x00, 0x11, 0x01, 0x54]));
}

#[test]
fn test_div_handler() {
    let mut m = machine(&popped(&[0x02, 0x08]), &popped(&[]));

    div_handler(&mut m, false, false, false).unwrap();

    assert_eq!(m.uxn.get_working_stack().to_vec(), Vec::<u8>::from([0x04]));
    assert_eq!(m.uxn.get_return_stack().to_vec(), Vec::<u8>::new());
}

#[test]
fn test_div_handler_keep_short_return_mode() {
    let mut m = machine(&popped(&[]), &popped(&[0x03, 0x00, 0x51, 0x03]));

    div_handler(&mut m, true, true, true).unwrap();

    assert_eq!(m.uxn.get_working_stack().to_vec(), Vec::<u8>::new());
    assert_eq!(m.uxn.get_return_stack().to_vec(), Vec::<u8>::from([0x03, 0x51, 0x00, 0x03, 0x01, 0x1b]));
}
