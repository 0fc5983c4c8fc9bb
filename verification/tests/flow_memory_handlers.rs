use rusty_uxn::emulators::devices::system::UxnSystemInterface;
use rusty_uxn::emulators::uxn::device::{
    DeviceList, DeviceReadReturnCode, DeviceWriteReturnCode, MainRamInterface,
};
use rusty_uxn::emulators::uxn::{UxnImpl, UxnWithDevicesImpl};
use rusty_uxn::ops::op_handlers::control_flow::{jcn_handler, jmp_handler, jsr_handler, sth_handler};
use rusty_uxn::ops::op_handlers::memory;
use rusty_uxn::ops::op_handlers::{dei_handler, ldr_handler, ldz_handler, sta_handler, str_handler, stz_handler};
use rusty_uxn::ops::OpObjectFactory;
use rusty_uxn::uxninterface::{Uxn, UxnError};

// records every device write, and answers reads with the given bytes in turn
struct RecordingDevices {
    writes: Vec<(u8, u8)>,
    reads: Vec<u8>,
    answers: Vec<u8>,
}

impl DeviceList for RecordingDevices {
    fn write_to_device<M: MainRamInterface>(
        &mut self,
        device_address: u8,
        val: u8,
        _main_ram: &mut M,
    ) -> DeviceWriteReturnCode {
        self.writes.push((device_address, val));
        DeviceWriteReturnCode::Success
    }

    fn read_from_device(&mut self, device_address: u8) -> DeviceReadReturnCode {
        self.reads.push(device_address);
        let v = self.answers.remove(0);
        DeviceReadReturnCode::Success(Ok(v))
    }

    fn write_debug_output(&mut self, _output: &[u8]) {}
}

type Machine = UxnWithDevicesImpl<UxnImpl<OpObjectFactory>, RecordingDevices>;

// a machine whose stacks hold the given bytes, the last one on top
fn machine(wst: &[u8], rst: &[u8]) -> Machine {
    let mut uxn = UxnImpl::new(&[], OpObjectFactory {}).unwrap();
    for b in wst {
        uxn.push_to_working_stack(*b).unwrap();
    }
    for b in rst {
        uxn.push_to_return_stack(*b).unwrap();
    }
    UxnWithDevicesImpl::new(uxn, RecordingDevices { writes: Vec::new(), reads: Vec::new(), answers: Vec::new() })
}

// the stack that a sequence of pops, top first, came from
fn popped(values: &[u8]) -> Vec<u8> {
    values.iter().rev().copied().collect()
}

fn wst(m: &Machine) -> Vec<u8> {
    m.uxn.get_working_stack().to_vec()
}

fn rst(m: &Machine) -> Vec<u8> {
    m.uxn.get_return_stack().to_vec()
}

#[test]
fn test_jmp_handler() {
    let jmp_val = (-0x11i8).to_be_bytes()[0];
    let mut m = machine(&popped(&[jmp_val]), &[]);
    m.set_program_counter(0x23);

    jmp_handler(&mut m, false, false, false).unwrap();

    // program counter is 0x23, jump value is -0x11, so program counter should be set to
    // 0x23-0x11=0x12
    assert_eq!(m.get_program_counter(), Ok(0x12));
}

#[test]
fn test_jmp_handler_keep_short_return_mode() {
    let mut m = machine(&[], &popped(&[0xaa, 0xbb]));

    jmp_handler(&mut m, true, true, true).unwrap();

    assert_eq!(m.get_program_counter(), Ok(0xbbaa));
    assert_eq!(rst(&m), vec![0xbb, 0xaa]);
}

#[test]
fn test_jmp_handler_out_of_range() {
    let mut m = machine(&popped(&[0x1]), &[]);
    m.set_program_counter(0xffff);

    let ret = jmp_handler(&mut m, false, false, false);

    assert_eq!(ret, Err(UxnError::OutOfRangeMemoryAddress));
}

#[test]
fn test_jcn_handler() {
    let jmp_val = (-0x11i8).to_be_bytes()[0];
    let mut m = machine(&popped(&[jmp_val, 0x01]), &[]);
    m.set_program_counter(0x23);

    jcn_handler(&mut m, false, false, false).unwrap();

    assert_eq!(m.get_program_counter(), Ok(0x12));
}

#[test]
fn test_jcn_handler_condition_false() {
    let jmp_val = (-0x11i8).to_be_bytes()[0];
    let mut m = machine(&popped(&[jmp_val, 0x00]), &[]);
    m.set_program_counter(0x23);

    jcn_handler(&mut m, false, false, false).unwrap();

    // since condition was 0x00 the program counter should not move
    assert_eq!(m.get_program_counter(), Ok(0x23));
}

#[test]
fn test_jcn_handler_keep_short_return_mode() {
    let mut m = machine(&[], &popped(&[0xaa, 0xbb, 0x01]));

    jcn_handler(&mut m, true, true, true).unwrap();

    assert_eq!(m.get_program_counter(), Ok(0xbbaa));
    assert_eq!(rst(&m), vec![0x01, 0xbb, 0xaa]);
}

#[test]
fn test_jsr_handler() {
    let jmp_val = (-0x11i8).to_be_bytes()[0];
    let mut m = machine(&popped(&[jmp_val]), &[]);
    m.set_program_counter(0xaa23);

    jsr_handler(&mut m, false, false, false).unwrap();

    assert_eq!(m.get_program_counter(), Ok(0xaa12));
    // the old program counter should also have been pushed to the return stack (broken into bytes)
    assert_eq!(rst(&m), vec![0xaa, 0x23]);
}

#[test]
fn test_jsr_handler_keep_short_return_mode() {
    let mut m = machine(&[], &popped(&[0xaa, 0xbb]));
    m.set_program_counter(0x0102);

    jsr_handler(&mut m, true, true, true).unwrap();

    assert_eq!(m.get_program_counter(), Ok(0xbbaa));
    assert_eq!(rst(&m), vec![0xbb, 0xaa]);
    // old program counter value should also be pushed to the 'return' stack, but since we're
    // in return mode the 'return' stack is actually the working stack
    assert_eq!(wst(&m), vec![0x01, 0x02]);
}

#[test]
fn test_jsr_handler_out_of_range() {
    let mut m = machine(&popped(&[0x1]), &[]);
    m.set_program_counter(0xffff);

    let ret = jsr_handler(&mut m, false, false, false);

    assert_eq!(ret, Err(UxnError::OutOfRangeMemoryAddress));
}

#[test]
fn test_sth_handler() {
    let mut m = machine(&popped(&[0xcd]), &[]);

    sth_handler(&mut m, false, false, false).unwrap();

    assert_eq!(rst(&m), vec![0xcd]);
    assert_eq!(wst(&m), Vec::<u8>::new());
}

#[test]
fn test_sth_handler_keep_short_return_mode() {
    let mut m = machine(&[], &popped(&[0xcd, 0xab]));

    sth_handler(&mut m, true, true, true).unwrap();

    assert_eq!(rst(&m), vec![0xab, 0xcd]);
    assert_eq!(wst(&m), vec![0xab, 0xcd]);
}

#[test]
fn test_ldz_handler() {
    let mut m = machine(&popped(&[0x12]), &[]);
    m.write_to_ram(0x12, 0x7e);

    ldz_handler(&mut m, false, false, false).unwrap();

    assert_eq!(wst(&m), vec![0x7e]);
}

fn check_lda_handler() {
    let mut m = machine(&popped(&[0xa1, 0xb2]), &[]);
    m.write_to_ram(0xb2a1, 0xc3);

    memory::lda_handler(&mut m, false, false, false).unwrap();

    // the handler reads from the address made of the bytes it popped, and pushes the value
    assert_eq!(wst(&m), vec![0xc3]);
}

fn check_lda_handler_keep_short_return_mode() {
    let mut m = machine(&[], &popped(&[0xaa, 0xba]));
    m.write_to_ram(0xbaaa, 0xd3);
    m.write_to_ram(0xbaab, 0xd4);

    memory::lda_handler(&mut m, true, true, true).unwrap();

    // the short read from ram is pushed after what was previously on the stack, since the
    // handler was called in keep mode
    assert_eq!(rst(&m), vec![0xba, 0xaa, 0xd3, 0xd4]);
}

// in short mode, LDA reads two bytes, so an address at the very end of memory is out of range
fn check_lda_handler_out_of_range_error() {
    let mut m = machine(&popped(&[0xff, 0xff]), &[]);

    let result = memory::lda_handler(&mut m, false, true, false);

    assert_eq!(result, Err(UxnError::OutOfRangeMemoryAddress));
}

fn check_deo_handler() {
    let mut m = machine(&popped(&[0xaa, 0xba]), &[]);

    memory::deo_handler(&mut m, false, false, false).unwrap();

    assert_eq!(wst(&m), Vec::<u8>::new());
    assert_eq!(m.device_list.writes, vec![(0xaa, 0xba)]);
}

fn check_deo_handler_keep_mode() {
    let mut m = machine(&popped(&[0xaa, 0xba]), &[]);

    memory::deo_handler(&mut m, true, false, false).unwrap();

    assert_eq!(m.device_list.writes, vec![(0xaa, 0xba)]);
    // in keep mode what was popped is pushed back
    assert_eq!(wst(&m), vec![0xba, 0xaa]);
}

fn check_deo_handler_keep_short_return_mode() {
    let mut m = machine(&[], &popped(&[0xaa, 0xba, 0xc1]));

    memory::deo_handler(&mut m, true, true, true).unwrap();

    // two writes to the same device address, with the first and second byte of the short
    assert_eq!(m.device_list.writes, vec![(0xaa, 0xba), (0xaa, 0xc1)]);
    assert_eq!(rst(&m), vec![0xc1, 0xba, 0xaa]);
}

#[test]
fn memory_test_lda_handler() {
    check_lda_handler();
}

#[test]
fn memory_test_lda_handler_keep_short_return_mode() {
    check_lda_handler_keep_short_return_mode();
}

#[test]
fn memory_test_lda_handler_out_of_range_error() {
    check_lda_handler_out_of_range_error();
}

#[test]
fn memory_test_deo_handler() {
    check_deo_handler();
}

#[test]
fn memory_test_deo_handler_keep_mode() {
    check_deo_handler_keep_mode();
}

#[test]
fn memory_test_deo_handler_keep_short_return_mode() {
    check_deo_handler_keep_short_return_mode();
}

#[test]
fn op_handlers_test_lda_handler() {
    check_lda_handler();
}

#[test]
fn op_handlers_test_lda_handler_keep_short_return_mode() {
    check_lda_handler_keep_short_return_mode();
}

#[test]
fn op_handlers_test_lda_handler_out_of_range_error() {
    check_lda_handler_out_of_range_error();
}

#[test]
fn op_handlers_test_deo_handler() {
    check_deo_handler();
}

#[test]
fn op_handlers_test_deo_handler_keep_mode() {
    check_deo_handler_keep_mode();
}

#[test]
fn op_handlers_test_deo_handler_keep_short_return_mode() {
    check_deo_handler_keep_short_return_mode();
}

#[test]
fn stz_then_ldz_reads_back() {
    let mut m = machine(&popped(&[0x40, 0x99]), &[]);
    stz_handler(&mut m, false, false, false).unwrap();
    assert_eq!(m.read_from_ram(0x40), 0x99);
    m.push_to_working_stack(0x40).unwrap();
    ldz_handler(&mut m, false, false, false).unwrap();
    assert_eq!(wst(&m), vec![0x99]);
}

#[test]
fn sta_short_writes_high_byte_first() {
    // STA2: address 0x1234 on top, value 0xabcd below it
    let mut m = machine(&[0xab, 0xcd, 0x12, 0x34], &[]);
    sta_handler(&mut m, false, true, false).unwrap();
    assert_eq!(m.read_from_ram(0x1234), 0xab);
    assert_eq!(m.read_from_ram(0x1235), 0xcd);
    assert_eq!(wst(&m), Vec::<u8>::new());
}

#[test]
fn str_and_ldr_are_relative_to_program_counter() {
    let mut m = machine(&[0x55, 0x10], &[]);
    m.set_program_counter(0x200);
    str_handler(&mut m, false, false, false).unwrap();
    assert_eq!(m.read_from_ram(0x210), 0x55);
    m.push_to_working_stack(0x10).unwrap();
    ldr_handler(&mut m, false, false, false).unwrap();
    assert_eq!(wst(&m), vec![0x55]);
}

#[test]
fn dei_reads_from_the_device_list() {
    let mut m = machine(&[0x12], &[]);
    m.device_list.answers = vec![0x77];
    dei_handler(&mut m, false, false, false).unwrap();
    assert_eq!(m.device_list.reads, vec![0x12]);
    assert_eq!(wst(&m), vec![0x77]);
}

// a short output with bytes below it takes three bytes off the stack and leaves the rest
#[test]
fn deo_short_leaves_the_bytes_below() {
    let mut m = machine(&[0x07, 0x11, 0x22, 0x95], &[0x01]);
    memory::deo_handler(&mut m, false, true, false).unwrap();
    assert_eq!(m.device_list.writes, vec![(0x95, 0x22), (0x95, 0x11)]);
    assert_eq!(wst(&m), vec![0x07]);
    assert_eq!(rst(&m), vec![0x01]);
}

// a short output with only two bytes writes the first value, then fails
#[test]
fn deo_short_with_two_bytes_fails_after_one_write() {
    let mut m = machine(&[0x22, 0x95], &[]);
    assert_eq!(memory::deo_handler(&mut m, false, true, false), Err(UxnError::StackUnderflow));
    assert_eq!(m.device_list.writes, vec![(0x95, 0x22)]);
    assert_eq!(wst(&m), Vec::<u8>::new());
}
