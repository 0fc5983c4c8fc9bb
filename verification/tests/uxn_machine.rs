use rusty_uxn::emulators::devices::screen::UxnSystemScreenInterface;
use std::cell::RefCell;
use std::rc::Rc;

use rusty_uxn::emulators::devices::system::{UxnSystemColor, UxnSystemInterface};
use rusty_uxn::emulators::uxn::device::{
    DeviceList, DeviceReadReturnCode, DeviceWriteReturnCode, MainRamInterface,
};
use rusty_uxn::emulators::uxn::{after_instruction, UxnImpl, UxnWithDevicesImpl, INIT_VECTOR};
use rusty_uxn::instruction::{Instruction, InstructionFactory};
use rusty_uxn::ops::OpObjectFactory;
use rusty_uxn::uxninterface::{Uxn, UxnError, UxnStatus, UxnWithDevices};

struct MockInstruction {
    byte: u8,
    ret_vec: Rc<RefCell<Vec<u8>>>,
    is_terminate_instruction: bool,
}

impl Instruction for MockInstruction {
    fn execute<U: UxnWithDevices>(&self, uxn: &mut U) -> Result<(), UxnError> {
        if self.is_terminate_instruction {
            uxn.write_to_device(0x99, 0x99);
        }

        self.ret_vec.borrow_mut().push(self.byte);
        Ok(())
    }
}

struct MockInstructionFactory {
    ret_vec: Rc<RefCell<Vec<u8>>>,
    // special byte, that when encountered will lead to 'start_termination' being called on the
    // uxn
    terminate_instruction: u8,
}

impl MockInstructionFactory {
    fn new(terminate_instruction: u8) -> Self {
        MockInstructionFactory { ret_vec: Rc::new(RefCell::new(Vec::<u8>::new())), terminate_instruction }
    }
}

impl InstructionFactory for MockInstructionFactory {
    type Instr = MockInstruction;

    fn from_byte(&self, byte: u8) -> MockInstruction {
        let is_terminate_instruction = byte == self.terminate_instruction;
        MockInstruction { byte, ret_vec: Rc::clone(&self.ret_vec), is_terminate_instruction }
    }
}

struct MockDeviceList {
    err_writer: Vec<u8>,
}

impl MockDeviceList {
    fn new() -> Self {
        MockDeviceList { err_writer: Vec::new() }
    }
}

impl DeviceList for MockDeviceList {
    fn write_to_device<M: MainRamInterface>(
        &mut self,
        device_address: u8,
        val: u8,
        _main_ram: &mut M,
    ) -> DeviceWriteReturnCode {
        // special code to trigger termination
        if device_address == 0x99 && val == 0x99 {
            return DeviceWriteReturnCode::WriteToSystemDevice(0xf);
        }

        DeviceWriteReturnCode::Success
    }

    fn read_from_device(&mut self, _device_address: u8) -> DeviceReadReturnCode {
        DeviceReadReturnCode::Success(Ok(0))
    }

    fn write_debug_output(&mut self, output: &[u8]) {
        self.err_writer.extend_from_slice(output);
    }
}

// test creating a UxnImpl and calling its run method with a typical starting vector. Verify
// works as expected
#[test]
fn uxn_test_run_basic() -> Result<(), UxnError> {
    let rom: Vec<u8> = vec![0xaa, 0xbb, 0xcc, 0xdd];

    let mut uxn = UxnImpl::new(&rom, MockInstructionFactory::new(0xff))?;
    let res = uxn.run(0x102, MockDeviceList::new())?;

    assert_eq!(vec![0xcc, 0xdd], *uxn.instruction_factory.ret_vec.borrow());

    assert_eq!(UxnStatus::Halt, res);

    Ok(())
}

// test calling UxnImpl::run with a ram configuration that reads right to the end of the
// address space, verify that Ok is returned
#[test]
fn uxn_test_run_ram_full() -> Result<(), UxnError> {
    // note that this rom is larger than the portion of ram it is copied to, it will just be
    // truncated
    let rom: Vec<u8> = vec![0xaa; 0x10000];

    let mut uxn = UxnImpl::new(&rom, MockInstructionFactory::new(0xff))?;
    let res = uxn.run(0xfffd, MockDeviceList::new())?;

    // the instructions at addresses 0xfffd, 0xfffe, 0xffff should have been executed
    assert_eq!(vec![0xaa, 0xaa, 0xaa], *uxn.instruction_factory.ret_vec.borrow());

    assert_eq!(UxnStatus::Halt, res);

    Ok(())
}

#[test]
fn test_run_terminate() -> Result<(), UxnError> {
    // 4th byte is terminate byte, so program should stop there
    let rom: Vec<u8> = vec![0xaa, 0xbb, 0xcc, 0xff, 0xdd];

    let mut uxn = UxnImpl::new(&rom, MockInstructionFactory::new(0xff))?;

    let res = uxn.run(0x100, MockDeviceList::new())?;

    assert_eq!(vec![0xaa, 0xbb, 0xcc, 0xff], *uxn.instruction_factory.ret_vec.borrow());

    assert_eq!(UxnStatus::Terminate, res);

    Ok(())
}

struct CheckingDeviceList {}

impl DeviceList for CheckingDeviceList {
    fn write_to_device<M: MainRamInterface>(
        &mut self,
        device_address: u8,
        val: u8,
        _main_ram: &mut M,
    ) -> DeviceWriteReturnCode {
        assert_eq!(device_address, 0x35);
        assert_eq!(val, 0x22);

        DeviceWriteReturnCode::Success
    }

    fn read_from_device(&mut self, device_address: u8) -> DeviceReadReturnCode {
        assert_eq!(device_address, 0x58);
        DeviceReadReturnCode::Success(Ok(0x14))
    }

    fn write_debug_output(&mut self, _output: &[u8]) {
        panic!("should not be called");
    }
}

#[test]
fn test_read_write_normal_device() {
    let uxn = UxnImpl::new(&[], OpObjectFactory {}).unwrap();
    let mut uxn_with_devices = UxnWithDevicesImpl::new(uxn, CheckingDeviceList {});

    // test read_from_device, the device list should be passed the correct arguments
    let res = uxn_with_devices.read_from_device(0x58);

    assert_eq!(res, Ok(0x14));

    // test write_to_device, the device list should be passed the correct arguments
    uxn_with_devices.write_to_device(0x35, 0x22);
}

struct SystemDeviceList {
    debug_printer: Vec<u8>,
    expected_device_address: u8,
    expected_val: u8,
}

impl DeviceList for SystemDeviceList {
    fn write_to_device<M: MainRamInterface>(
        &mut self,
        device_address: u8,
        val: u8,
        _main_ram: &mut M,
    ) -> DeviceWriteReturnCode {
        assert_eq!(device_address, self.expected_device_address);
        assert_eq!(val, self.expected_val);

        DeviceWriteReturnCode::WriteToSystemDevice(device_address & 0xf)
    }

    fn read_from_device(&mut self, device_address: u8) -> DeviceReadReturnCode {
        assert_eq!(device_address, 0x42);
        DeviceReadReturnCode::ReadFromSystemDevice(0x2)
    }

    fn write_debug_output(&mut self, output: &[u8]) {
        self.debug_printer.extend_from_slice(output);
    }
}

#[test]
fn test_read_write_system_device() {
    let mut uxn = UxnImpl::new(&[], OpObjectFactory {}).unwrap();
    for b in [1, 2, 3] {
        uxn.push_to_working_stack(b).unwrap();
    }
    for b in [4, 5, 6] {
        uxn.push_to_return_stack(b).unwrap();
    }
    let mut uxn_with_devices = UxnWithDevicesImpl::new(
        uxn,
        SystemDeviceList { debug_printer: Vec::new(), expected_device_address: 0, expected_val: 0 },
    );

    // write to the system device asking for the debug string, verify that the debug printer
    // of the device list is the one that receives it
    uxn_with_devices.device_list.expected_device_address = 0x3e;
    uxn_with_devices.device_list.expected_val = 0x11;
    uxn_with_devices.write_to_device(0x3e, 0x11);
    assert_eq!(
        uxn_with_devices.device_list.debug_printer,
        "<wst> 01 02 03\n<rst> 04 05 06\n".as_bytes()
    );

    // the device address ends in the nibble 0x2, so the system device sets the working stack
    // index to the value 0x96
    uxn_with_devices.device_list.expected_device_address = 0x32;
    uxn_with_devices.device_list.expected_val = 0x96;
    uxn_with_devices.write_to_device(0x32, 0x96);
    assert_eq!(uxn_with_devices.uxn.get_working_stack_index(), 0x96);

    // the read is answered by the system device at port 0x2: the working stack index
    let ret = uxn_with_devices.read_from_device(0x42);
    assert_eq!(ret, Ok(0x96));
}

#[test]
fn test_set_get_stack_index() -> Result<(), UxnError> {
    let mut uxn = UxnImpl::new(&[], OpObjectFactory {})?;

    uxn.push_to_working_stack(0x2)?;
    uxn.push_to_working_stack(0x3)?;

    assert_eq!(uxn.get_working_stack_index(), 2);

    uxn.set_working_stack_index(6);

    assert_eq!(uxn.get_working_stack(), &[0x2, 0x3, 0x0, 0x0, 0x0, 0x0]);

    uxn.set_working_stack_index(1);

    assert_eq!(uxn.get_working_stack(), &[0x2]);

    uxn.push_to_return_stack(0x4)?;
    uxn.push_to_return_stack(0x6)?;
    uxn.push_to_return_stack(0x3)?;

    assert_eq!(uxn.get_return_stack_index(), 3);

    uxn.set_return_stack_index(5);

    assert_eq!(uxn.get_return_stack(), &[0x4, 0x6, 0x3, 0x0, 0x0]);

    uxn.set_return_stack_index(1);

    assert_eq!(uxn.get_return_stack(), &[0x4]);

    Ok(())
}

#[test]
fn test_set_get_system_color() -> Result<(), UxnError> {
    let mut uxn = UxnImpl::new(&[], OpObjectFactory {})?;

    let test_cases = [
        (UxnSystemColor::Red1, 12),
        (UxnSystemColor::Red2, 34),
        (UxnSystemColor::Green1, 56),
        (UxnSystemColor::Green2, 78),
        (UxnSystemColor::Blue1, 90),
        (UxnSystemColor::Blue2, 123),
    ];

    for &(system_color, val) in &test_cases {
        assert_eq!(uxn.get_system_color(system_color), 0);
        uxn.set_system_color(system_color, val);
        assert_eq!(uxn.get_system_color(system_color), val);
    }

    Ok(())
}

#[test]
fn test_get_stack_iter() -> Result<(), UxnError> {
    let mut uxn = UxnImpl::new(&[], OpObjectFactory {})?;

    uxn.push_to_working_stack(0x2)?;
    uxn.push_to_working_stack(0x3)?;
    uxn.push_to_working_stack(0x4)?;

    for (&v, expected) in uxn.get_working_stack().iter().zip([0x2, 0x3, 0x4]) {
        assert_eq!(v, expected);
    }

    uxn.push_to_return_stack(0x5)?;
    uxn.push_to_return_stack(0x6)?;
    uxn.push_to_return_stack(0x7)?;

    for (&v, expected) in uxn.get_return_stack().iter().zip([0x5, 0x6, 0x7]) {
        assert_eq!(v, expected);
    }

    Ok(())
}

#[test]
fn rom_is_loaded_at_the_initial_vector() {
    let uxn = UxnImpl::new(&[0x12, 0x34], OpObjectFactory {}).unwrap();
    assert_eq!(uxn.read_from_ram(INIT_VECTOR - 1), 0);
    assert_eq!(uxn.read_from_ram(INIT_VECTOR), 0x12);
    assert_eq!(uxn.read_from_ram(INIT_VECTOR + 1), 0x34);
    assert_eq!(uxn.read_from_ram(INIT_VECTOR + 2), 0);
}

#[test]
fn stack_overflow_is_reported() {
    let mut uxn = UxnImpl::new(&[], OpObjectFactory {}).unwrap();
    for _ in 0..255 {
        uxn.push_to_working_stack(1).unwrap();
    }
    assert_eq!(uxn.push_to_working_stack(1), Err(UxnError::StackOverflow));
}

// a real program: LIT 22 LIT 33 ADD, then halt; the sum is left on the working stack
#[test]
fn run_adds_two_literals() {
    let rom = [0x80, 0x22, 0x80, 0x33, 0x18, 0x00];
    let mut uxn = UxnImpl::new(&rom, OpObjectFactory {}).unwrap();
    let res = uxn.run(INIT_VECTOR, MockDeviceList::new());
    assert_eq!(res, Ok(UxnStatus::Halt));
    assert_eq!(uxn.get_working_stack(), &[0x55]);
}

#[test]
fn run_bounded_stops_after_the_step_budget() {
    // JMP back onto itself forever: LIT fd JMP
    let rom = [0x80, 0xfd, 0x0c];
    let mut uxn = UxnImpl::new(&rom, OpObjectFactory {}).unwrap();
    let res = uxn.run_bounded(INIT_VECTOR, MockDeviceList::new(), 100);
    assert_eq!(res, Ok(None));
}

#[test]
fn screen_colors_come_from_the_system_colors() {
    let mut uxn = UxnImpl::new(&[], OpObjectFactory {}).unwrap();
    uxn.set_system_color(UxnSystemColor::Green1, 0x45);
    let mut colors = [0u8; 6];
    assert!(uxn.get_system_colors(&mut colors));
    assert_eq!(colors, [0, 0, 0x45, 0, 0, 0]);
    assert!(!uxn.get_system_colors(&mut colors));
}

#[test]
fn main_ram_reads_and_writes_blocks() {
    let mut uxn = UxnImpl::new(&[], OpObjectFactory {}).unwrap();
    assert_eq!(MainRamInterface::write(&mut uxn, 0x200, &[1, 2, 3]), Ok(3));
    assert_eq!(MainRamInterface::read(&uxn, 0x200, 3), Ok(vec![1, 2, 3]));
    assert!(MainRamInterface::read(&uxn, 0xffff, 2).is_err());
    assert!(MainRamInterface::write(&mut uxn, 0xffff, &[1, 2]).is_err());
}

// a bounded run stops after the given number of instructions, and says so
#[test]
fn run_bounded_stops_after_max_steps() -> Result<(), UxnError> {
    let rom: Vec<u8> = vec![0xaa, 0xbb, 0xcc];
    let mut uxn = UxnImpl::new(&rom, MockInstructionFactory::new(0xff))?;
    assert_eq!(uxn.run_bounded(0x100, MockDeviceList::new(), 2), Ok(None));
    assert_eq!(vec![0xaa, 0xbb], *uxn.instruction_factory.ret_vec.borrow());

    let mut uxn = UxnImpl::new(&rom, MockInstructionFactory::new(0xff))?;
    assert_eq!(uxn.run_bounded(0x100, MockDeviceList::new(), 10), Ok(Some(UxnStatus::Halt)));
    assert_eq!(vec![0xaa, 0xbb, 0xcc], *uxn.instruction_factory.ret_vec.borrow());

    let mut uxn = UxnImpl::new(&rom, MockInstructionFactory::new(0xff))?;
    assert_eq!(uxn.run_bounded(0x100, MockDeviceList::new(), 0), Ok(None));
    assert!(uxn.instruction_factory.ret_vec.borrow().is_empty());
    Ok(())
}

// after each instruction a run ends on its error, or on a request to stop, or goes on
#[test]
fn runs_end_on_errors_and_requests_to_stop() {
    assert_eq!(after_instruction(Err(UxnError::StackUnderflow), true), Some(Err(UxnError::StackUnderflow)));
    assert_eq!(after_instruction(Ok(()), true), Some(Ok(UxnStatus::Terminate)));
    assert_eq!(after_instruction(Ok(()), false), None);
}
