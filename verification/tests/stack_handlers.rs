use rusty_uxn::emulators::devices::system::UxnSystemInterface;
use rusty_uxn::emulators::uxn::device::{
    DeviceList, DeviceReadReturnCode, DeviceWriteReturnCode, MainRamInterface,
};
use rusty_uxn::emulators::uxn::{UxnImpl, UxnWithDevicesImpl};
use rusty_uxn::ops::op_handlers::stack::{
    dup_handler, inc_handler, lit_handler, nip_handler, ovr_handler, pop_handler, rot_handler,
    swp_handler,
};
use rusty_uxn::ops::OpObjectFactory;
use rusty_uxn::uxninterface::Uxn;

struct NoDevices {}

impl DeviceList for NoDevices {
    fn write_to_device<M: MainRamInterface>(
        &mut self,
        _device_address: u8,
        _val: u8,
        _main_ram: &mut M,
    ) -> DeviceWriteReturnCode {
        DeviceWriteReturnCode::Success
    }

    fn read_from_device(&mut self, _device_address: u8) -> DeviceReadReturnCode {
        DeviceReadReturnCode::Success(Ok(0))
    }

    fn write_debug_output(&mut self, _output: &[u8]) {}
}

type Machine = UxnWithDevicesImpl<UxnImpl<OpObjectFactory>, NoDevices>;

// a machine whose stacks hold the given bytes, the last one on top
fn machine(rom: &[u8], wst: &[u8], rst: &[u8]) -> Machine {
    let mut uxn = UxnImpl::new(rom, OpObjectFactory {}).unwrap();
    for b in wst {
        uxn.push_to_working_stack(*b).unwrap();
    }
    for b in rst {
        uxn.push_to_return_stack(*b).unwrap();
    }
    UxnWithDevicesImpl::new(uxn, NoDevices {})
}

// the stack that a sequence of pops, top first, came from
fn popped(values: &[u8]) -> Vec<u8> {
    values.iter().rev().copied().collect()
}

fn wst(m: &Machine) -> Vec<u8> {
    m.uxn.get_working_stack().to_vec()
}

fn rst(m: &Machine) -> Vec<u8> {
    m.uxn.get_return_stack().to_vec()
}

#[test]
fn test_lit_handler() {
    let mut m = machine(&[0xaa], &[], &[]);
    m.set_program_counter(0x100);

    lit_handler(&mut m, false, false, false).unwrap();

    assert_eq!(m.get_program_counter(), Ok(0x101));
    assert_eq!(wst(&m), vec![0xaa]);
    assert_eq!(rst(&m), Vec::<u8>::new());
}

#[test]
fn test_lit_handler_short_mode() {
    let mut m = machine(&[0xaa, 0xab], &[], &[]);
    m.set_program_counter(0x100);

    lit_handler(&mut m, false, true, false).unwrap();

    assert_eq!(m.get_program_counter(), Ok(0x102));
    assert_eq!(wst(&m), vec![0xaa, 0xab]);
    assert_eq!(rst(&m), Vec::<u8>::new());
}

#[test]
fn test_lit_handler_ret_mode() {
    let mut m = machine(&[0xaa], &[], &[]);
    m.set_program_counter(0x100);

    lit_handler(&mut m, false, false, true).unwrap();

    assert_eq!(m.get_program_counter(), Ok(0x101));
    assert_eq!(wst(&m), Vec::<u8>::new());
    assert_eq!(rst(&m), vec![0xaa]);
}

#[test]
fn test_inc_handler() {
    let mut m = machine(&[], &popped(&[0xaa]), &[]);

    inc_handler(&mut m, false, false, false).unwrap();

    assert_eq!(wst(&m), vec![0xab]);
}

#[test]
fn test_inc_handler_keep_short_return_mode() {
    // will be treated as the short 0xaaab
    let mut m = machine(&[], &[], &popped(&[0xab, 0xaa]));

    inc_handler(&mut m, true, true, true).unwrap();

    assert_eq!(rst(&m), vec![0xaa, 0xab, 0xaa, 0xac]);
}

#[test]
fn test_pop_handler() {
    let mut m = machine(&[], &popped(&[0xaa]), &[]);

    pop_handler(&mut m, false, false, false).unwrap();

    assert_eq!(wst(&m), Vec::<u8>::new());
}

#[test]
fn test_pop_handler_short_return_mode() {
    let mut m = machine(&[], &[], &popped(&[0xaa, 0xab]));

    pop_handler(&mut m, false, true, true).unwrap();

    assert_eq!(rst(&m), Vec::<u8>::new());
}

#[test]
fn test_dup_handler() {
    let mut m = machine(&[], &popped(&[0xaa]), &[]);

    dup_handler(&mut m, false, false, false).unwrap();

    assert_eq!(wst(&m), vec![0xaa, 0xaa]);
}

#[test]
fn test_dup_handler_keep_short_return_mode() {
    let mut m = machine(&[], &[], &popped(&[0xaa, 0xbb]));

    // will push one short because in 'keep mode', and two shorts
    // to duplicate the short popped
    dup_handler(&mut m, true, true, true).unwrap();

    assert_eq!(rst(&m), vec![0xbb, 0xaa, 0xbb, 0xaa, 0xbb, 0xaa]);
}

#[test]
fn test_nip_handler() {
    let mut m = machine(&[], &popped(&[0xaa, 0xab]), &[]);

    nip_handler(&mut m, false, false, false).unwrap();

    assert_eq!(wst(&m), vec![0xaa]);
}

#[test]
fn test_nip_handler_keep_short_return_mode() {
    let mut m = machine(&[], &[], &popped(&[0xaa, 0xab, 0xac, 0xad]));

    nip_handler(&mut m, true, true, true).unwrap();

    assert_eq!(rst(&m), vec![0xad, 0xac, 0xab, 0xaa, 0xab, 0xaa]);
}

#[test]
fn test_swp_handler() {
    let mut m = machine(&[], &popped(&[0xaa, 0xab]), &[]);

    swp_handler(&mut m, false, false, false).unwrap();

    assert_eq!(wst(&m), vec![0xaa, 0xab]);
}

#[test]
fn test_swp_handler_keep_short_return_mode() {
    let mut m = machine(&[], &[], &popped(&[0xaa, 0xab, 0xac, 0xad]));

    swp_handler(&mut m, true, true, true).unwrap();

    assert_eq!(rst(&m), vec![0xad, 0xac, 0xab, 0xaa, 0xab, 0xaa, 0xad, 0xac]);
}

#[test]
fn test_ovr_handler() {
    let mut m = machine(&[], &popped(&[0xaa, 0xab]), &[]);

    ovr_handler(&mut m, false, false, false).unwrap();

    assert_eq!(wst(&m), vec![0xab, 0xaa, 0xab]);
}

#[test]
fn test_ovr_handler_keep_short_return_mode() {
    let mut m = machine(&[], &[], &popped(&[0xaa, 0xab, 0xac, 0xad]));

    ovr_handler(&mut m, true, true, true).unwrap();

    assert_eq!(
        rst(&m),
        vec![0xad, 0xac, 0xab, 0xaa, 0xad, 0xac, 0xab, 0xaa, 0xad, 0xac]
    );
}

#[test]
fn test_rot_handler() {
    let mut m = machine(&[], &popped(&[0xaa, 0xab, 0xac]), &[]);

    rot_handler(&mut m, false, false, false).unwrap();

    assert_eq!(wst(&m), vec![0xab, 0xaa, 0xac]);
}

#[test]
fn test_rot_handler_keep_short_return_mode() {
    let mut m = machine(&[], &[], &popped(&[0xaa, 0xba, 0xab, 0xbb, 0xac, 0xbc]));

    rot_handler(&mut m, true, true, true).unwrap();

    assert_eq!(
        rst(&m),
        vec![
            0xbc, 0xac, 0xbb, 0xab, 0xba, 0xaa, 0xbb, 0xab, 0xba, 0xaa, 0xbc, 0xac,
        ]
    );
}

#[test]
fn stack_underflow_is_reported() {
    let mut m = machine(&[], &[], &[]);
    assert_eq!(
        pop_handler(&mut m, false, false, false),
        Err(rusty_uxn::uxninterface::UxnError::StackUnderflow)
    );
}
