use rusty_uxn::emulators::devices::system::UxnSystemInterface;
use rusty_uxn::emulators::uxn::device::{
    DeviceList, DeviceReadReturnCode, DeviceWriteReturnCode, MainRamInterface,
};
use rusty_uxn::emulators::uxn::{UxnImpl, UxnWithDevicesImpl};
use rusty_uxn::ops::op_handlers::logic::{equ_handler, gth_handler, lth_handler, neq_handler};
use rusty_uxn::ops::OpObjectFactory;
use rusty_uxn::uxninterface::Uxn;

struct NoDevices {}

impl DeviceList for NoDevices {
    fn write_to_device<M: MainRamInterface>(
        &mut self,
        _device_address: u8,
        _val: u8,
        _main_ram: &mut M,
    ) -> DeviceWriteReturnCode {
        DeviceWriteReturnCode::Success
    }

    fn read_from_device(&mut self, _device_address: u8) -> DeviceReadReturnCode {
        DeviceReadReturnCode::Success(Ok(0))
    }

    fn write_debug_output(&mut self, _output: &[u8]) {}
}

type Machine = UxnWithDevicesImpl<UxnImpl<OpObjectFactory>, NoDevices>;

// a machine whose stacks hold the given bytes, the last one on top
fn machine(wst: &[u8], rst: &[u8]) -> Machine {
    let mut uxn = UxnImpl::new(&[], OpObjectFactory {}).unwrap();
    for b in wst {
        uxn.push_to_working_stack(*b).unwrap();
    }
    for b in rst {
        uxn.push_to_return_stack(*b).unwrap();
    }
    UxnWithDevicesImpl::new(uxn, NoDevices {})
}

// the stack that a sequence of pops, top first, came from
fn popped(values: &[u8]) -> Vec<u8> {
    values.iter().rev().copied().collect()
}

#[test]
fn test_equ_handler() {
    let mut m = machine(&popped(&[0xaa, 0xaa]), &popped(&[]));

    equ_handler(&mut m, false, false, false).unwrap();

    assert_eq!(m.uxn.get_working_stack().to_vec(), Vec::<u8>::from([0x01]));
    assert_eq!(m.uxn.get_return_stack().to_vec(), Vec::<u8>::new());
}

#[test]
fn test_equ_handler_keep_short_return_mode() {
    let mut m = machine(&popped(&[]), &popped(&[0xaa, 0xba, 0xaa, 0xba]));

    equ_handler(&mut m, true, true, true).unwrap();

    assert_eq!(m.uxn.get_working_stack().to_vec(), Vec::<u8>::new());
    assert_eq!(m.uxn.get_return_stack().to_vec(), Vec::<u8>::from([0xba, 0xaa, 0xba, 0xaa, 0x01]));
}

#[test]
fn test_neq_handler() {
    let mut m = machine(&popped(&[0xaa, 0xaa]), &popped(&[]));

    neq_handler(&mut m, false, false, false).unwrap();

    assert_eq!(m.uxn.get_working_stack().to_vec(), Vec::<u8>::from([0x00]));
    assert_eq!(m.uxn.get_return_stack().to_vec(), Vec::<u8>::new());
}

#[test]
fn test_neq_handler_keep_short_return_mode() {
    let mut m = machine(&popped(&[]), &popped(&[0xaa, 0xba, 0xaa, 0xba]));

    neq_handler(&mut m, true, true, true).unwrap();

    assert_eq!(m.uxn.get_working_stack().to_vec(), Vec::<u8>::new());
    assert_eq!(m.uxn.get_return_stack().to_vec(), Vec::<u8>::from([0xba, 0xaa, 0xba, 0xaa, 0x00]));
}

#[test]
fn test_gth_handler() {
    let mut m = machine(&popped(&[0x03, 0x05]), &popped(&[]));

    gth_handler(&mut m, false, false, false).unwrap();

    assert_eq!(m.uxn.get_working_stack().to_vec(), Vec::<u8>::from([0x01]));
    assert_eq!(m.uxn.get_return_stack().to_vec(), Vec::<u8>::new());
}

#[test]
fn test_gth_handler_keep_short_return_mode() {
    let mut m = machine(&popped(&[]), &popped(&[0xaa, 0xba, 0xaa, 0xbb]));

    gth_handler(&mut m, true, true, true).unwrap();

    assert_eq!(m.uxn.get_working_stack().to_vec(), Vec::<u8>::new());
    assert_eq!(m.uxn.get_return_stack().to_vec(), Vec::<u8>::from([0xbb, 0xaa, 0xba, 0xaa, 0x01]));
}

#[test]
fn test_lth_handler() {
    let mut m = machine(&popped(&[0x03, 0x05]), &popped(&[]));

    lth_handler(&mut m, false, false, false).unwrap();

    assert_eq!(m.uxn.get_working_stack().to_vec(), Vec::<u8>::from([0x00]));
    assert_eq!(m.uxn.get_return_stack().to_vec(), Vec::<u8>::new());
}

#[test]
fn test_lth_handler_keep_short_return_mode() {
    let mut m = machine(&popped(&[]), &popped(&[0xaa, 0xba, 0xaa, 0xbb]));

    lth_handler(&mut m, true, true, true).unwrap();

    assert_eq!(m.uxn.get_working_stack().to_vec(), Vec::<u8>::new());
    assert_eq!(m.uxn.get_return_stack().to_vec(), Vec::<u8>::from([0xbb, 0xaa, 0xba, 0xaa, 0x00]));
}
