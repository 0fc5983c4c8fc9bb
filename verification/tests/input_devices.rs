use chrono::Datelike;
use std::cell::RefCell;
use std::collections::VecDeque;
use std::rc::Rc;

use rusty_uxn::emulators::devices::controller::{Button, ControllerDevice};
use rusty_uxn::emulators::devices::datetime::{datetime_port, DateTimeDevice, DateTimeFields};
use rusty_uxn::emulators::devices::device_list_impl::{DeviceEntry, DeviceListImpl};
use rusty_uxn::emulators::devices::mouse;
use rusty_uxn::emulators::devices::mouse::MouseDevice;
use rusty_uxn::emulators::uxn::device::{
    Device, DeviceList, DeviceReadReturnCode, DeviceWriteReturnCode, MainRamInterface,
};
use rusty_uxn::emulators::uxn::{UxnImpl, UxnWithDevicesImpl};
use rusty_uxn::uxninterface::UxnWithDevices;
use rusty_uxn::ops::OpObjectFactory;
use rusty_uxn::uxninterface::UxnError;

fn ram() -> UxnImpl<OpObjectFactory> {
    UxnImpl::new(&[], OpObjectFactory {}).unwrap()
}

#[test]
fn controller_test_set_get_vector() {
    let mut controller_device = ControllerDevice::new();

    let initial_vector = controller_device.read_vector();
    assert_eq!(initial_vector, 0);

    controller_device.write(0x0, 0xab, &mut ram());
    controller_device.write(0x1, 0xcd, &mut ram());

    let vector = controller_device.read_vector();
    assert_eq!(vector, 0xabcd);

    assert_eq!(controller_device.read(0x0), 0xab);
    assert_eq!(controller_device.read(0x1), 0xcd);
}

#[test]
fn test_set_get_button_state() {
    let mut controller_device = ControllerDevice::new();

    let changed = controller_device.notify_button_down(Button::Select);
    assert_eq!(changed, true);
    let changed = controller_device.notify_button_down(Button::Down);
    assert_eq!(changed, true);

    assert_eq!(controller_device.read(0x2), (1 << 2) | (1 << 5));

    let changed = controller_device.notify_button_down(Button::Down);
    assert_eq!(changed, false);

    controller_device.notify_button_up(Button::Down);
    assert_eq!(controller_device.read(0x2), (1 << 2));
}

#[test]
fn test_set_get_key() {
    let mut controller_device = ControllerDevice::new();

    controller_device.notify_key_press('h' as u8);
    assert_eq!(controller_device.read(0x3), 'h' as u8);

    controller_device.notify_key_press('e' as u8);
    assert_eq!(controller_device.read(0x3), 'e' as u8);
}

#[test]
fn mouse_test_set_get_vector() {
    let mut mouse_device = MouseDevice::new();

    let initial_vector = mouse_device.read_vector();
    assert_eq!(initial_vector, 0);

    mouse_device.write(0x0, 0xab, &mut ram());
    mouse_device.write(0x1, 0xcd, &mut ram());

    let vector = mouse_device.read_vector();
    assert_eq!(vector, 0xabcd);

    assert_eq!(mouse_device.read(0x0), 0xab);
    assert_eq!(mouse_device.read(0x1), 0xcd);
}

#[test]
fn test_set_get_cursor_position() {
    let mut mouse_device = MouseDevice::new();

    mouse_device.notify_cursor_position(&[123, 65535]);

    assert_eq!(mouse_device.read(0x2), 0x00);
    assert_eq!(mouse_device.read(0x3), 0x7b);

    assert_eq!(mouse_device.read(0x4), 0xff);
    assert_eq!(mouse_device.read(0x5), 0xff);
}

#[test]
fn test_set_get_click_state() {
    let mut mouse_device = MouseDevice::new();

    mouse_device.notify_button_down(mouse::Button::Left);
    mouse_device.notify_button_down(mouse::Button::Right);

    assert_eq!(mouse_device.read(0x6), 1 | (1 << 2));

    mouse_device.notify_button_up(mouse::Button::Right);
    assert_eq!(mouse_device.read(0x6), 1);
}

#[test]
fn test_set_get_scroll() {
    let mut mouse_device = MouseDevice::new();

    mouse_device.notify_scroll(&[2, -1]);

    assert_eq!(mouse_device.read(0xa), 0x00);
    assert_eq!(mouse_device.read(0xb), 0x02);

    assert_eq!(mouse_device.read(0xc), 0xff);
    assert_eq!(mouse_device.read(0xd), 0xff);
}

// two kinds of mock device behind one device type, each recording what it receives
struct MockDevice {
    write_arguments_received: Rc<RefCell<VecDeque<(u8, u8)>>>,
    read_arguments_received: Rc<RefCell<VecDeque<(u8,)>>>,
    read_values_to_return: VecDeque<u8>,
}

impl MockDevice {
    fn new() -> Self {
        MockDevice {
            write_arguments_received: Rc::new(RefCell::new(VecDeque::new())),
            read_arguments_received: Rc::new(RefCell::new(VecDeque::new())),
            read_values_to_return: VecDeque::new(),
        }
    }
}

impl Device for MockDevice {
    fn write<M: MainRamInterface>(&mut self, port: u8, val: u8, _main_ram: &mut M) {
        self.write_arguments_received.borrow_mut().push_back((port, val));
    }

    fn read(&mut self, port: u8) -> u8 {
        self.read_arguments_received.borrow_mut().push_back((port,));
        self.read_values_to_return.pop_front().unwrap()
    }
}

#[test]
fn device_list_impl_test_write() {
    let mock_device_a = MockDevice::new();
    let mock_device_b = MockDevice::new();
    let a_writes = Rc::clone(&mock_device_a.write_arguments_received);
    let b_writes = Rc::clone(&mock_device_b.write_arguments_received);

    let mut device_list = DeviceListImpl::new(vec![
        (0x0, DeviceEntry::Device(mock_device_a)),
        (0x2, DeviceEntry::Device(mock_device_b)),
        (0x3, DeviceEntry::SystemPlaceHolder(Vec::new())),
    ]);

    // write 23 to device 0x0, port 0xb
    let ret = device_list.write_to_device(0x0b, 23, &mut ram());
    assert_eq!(ret, DeviceWriteReturnCode::Success);

    // write 60 to device 0x2, port 0x4
    let ret = device_list.write_to_device(0x24, 60, &mut ram());
    assert_eq!(ret, DeviceWriteReturnCode::Success);

    // write 77 to device 0x3, port 0x9
    let ret = device_list.write_to_device(0x39, 77, &mut ram());

    match ret {
        DeviceWriteReturnCode::WriteToSystemDevice(0x9) => {
            // write a test string as the system device's debug output, will check this later
            device_list.write_debug_output("this is a test\n".as_bytes());
        },
        _ => panic!("write_to_device did not return what was expected"),
    }

    // check that the debug output went to the system device that was written to
    assert_eq!(device_list.take_debug_output(0x3), "this is a test\n".as_bytes());

    // assert that the mock devices received the expected arguments
    assert_eq!(*a_writes.borrow(), VecDeque::from([(0xb, 23)]));
    assert_eq!(*b_writes.borrow(), VecDeque::from([(0x4, 60)]));
}

#[test]
fn device_list_impl_test_read() {
    let mut mock_device_a = MockDevice::new();
    mock_device_a.read_values_to_return = VecDeque::from([0x12]);
    let mut mock_device_b = MockDevice::new();
    mock_device_b.read_values_to_return = VecDeque::from([0x34]);
    let a_reads = Rc::clone(&mock_device_a.read_arguments_received);
    let b_reads = Rc::clone(&mock_device_b.read_arguments_received);

    let mut device_list = DeviceListImpl::new(vec![
        (0x0, DeviceEntry::Device(mock_device_a)),
        (0x2, DeviceEntry::Device(mock_device_b)),
        (0x3, DeviceEntry::SystemPlaceHolder(Vec::new())),
    ]);

    // read from device 0x0, port 0xb
    let ret = device_list.read_from_device(0x0b);
    assert_eq!(ret, DeviceReadReturnCode::Success(Ok(0x12)));

    // read from device 0x2, port 0x4
    let ret = device_list.read_from_device(0x24);
    assert_eq!(ret, DeviceReadReturnCode::Success(Ok(0x34)));

    // read from device 0x3, port 0x9
    let ret = device_list.read_from_device(0x39);
    assert_eq!(ret, DeviceReadReturnCode::ReadFromSystemDevice(0x9));

    // read from unknown device
    let ret = device_list.read_from_device(0x59);
    assert_eq!(ret, DeviceReadReturnCode::Success(Err(UxnError::UnrecognisedDevice)));

    // assert that the mock devices received the expected arguments
    assert_eq!(*a_reads.borrow(), VecDeque::from([(0xb,)]));
    assert_eq!(*b_reads.borrow(), VecDeque::from([(0x4,)]));
}

#[test]
fn device_list_later_entry_wins() {
    let first = MockDevice::new();
    let second = MockDevice::new();
    let first_writes = Rc::clone(&first.write_arguments_received);
    let second_writes = Rc::clone(&second.write_arguments_received);
    let mut device_list = DeviceListImpl::new(vec![
        (0x1, DeviceEntry::Device(first)),
        (0x1, DeviceEntry::Device(second)),
    ]);
    device_list.write_to_device(0x12, 5, &mut ram());
    assert!(first_writes.borrow().is_empty());
    assert_eq!(*second_writes.borrow(), VecDeque::from([(0x2, 5)]));
}

#[test]
fn test_datetime() {
    // the time 1986-09-16 17:08:20, a Tuesday, the 259th day of its year
    let fixed = DateTimeFields {
        year: 1986,
        month0: 8,
        day: 16,
        hour: 17,
        minute: 8,
        second: 20,
        weekday_from_sunday: 2,
        ordinal0: 258,
    };
    // the device tells that time at every read
    let mut device = DateTimeDevice::at(fixed);

    // test that the year returned matches the time given
    let year_received = u16::from_be_bytes([device.read(0x0), device.read(0x1)]);
    assert_eq!(1986, year_received);

    // test the month, nb, month starts from 0
    assert_eq!(8, device.read(0x2));

    // test the day of the month
    assert_eq!(16, device.read(0x3));

    // test the hour
    assert_eq!(17, device.read(0x4));

    // test the minute
    assert_eq!(08, device.read(0x5));

    // test the second
    assert_eq!(20, device.read(0x6));

    // test the days since Sunday
    assert_eq!(02, device.read(0x7));

    // test the days since January 1st
    let year_day_received = u16::from_be_bytes([device.read(0x8), device.read(0x9)]);
    assert_eq!(258, year_day_received);

    // daylight saving time is always reported as -1 (not available)
    assert_eq!(255, device.read(0xa));

    // the device's answer is that of the port's own computation on the same time
    assert_eq!(datetime_port(&fixed, 0x3), 16);
}

#[test]
fn datetime_device_reads_the_clock() {
    let mut device = DateTimeDevice::new();
    let year = u16::from_be_bytes([device.read(0x0), device.read(0x1)]);
    let now = chrono::Local::now().year();
    assert!((year as i32 - now).abs() <= 1);
    assert!(device.read(0x2) < 12);
}

// a write through the machine reaches the device that the address's high nibble names, at the
// port its low nibble names
#[test]
fn test_write_to_device() {
    let device = MockDevice::new();
    let writes = Rc::clone(&device.write_arguments_received);
    let devices = DeviceListImpl::new(vec![(0x0, DeviceEntry::Device(device))]);
    let mut uxn = UxnWithDevicesImpl::new(ram(), devices);
    uxn.write_to_device(0x0a, 0x22);
    assert_eq!(*writes.borrow(), VecDeque::from([(0x0a, 0x22)]));
}

// writes through the machine go to the right one of two devices; an address with no device is
// unrecognised
#[test]
fn test_write_to_devices() {
    let device_a = MockDevice::new();
    let device_b = MockDevice::new();
    let a_writes = Rc::clone(&device_a.write_arguments_received);
    let b_writes = Rc::clone(&device_b.write_arguments_received);
    let devices = DeviceListImpl::new(vec![
        (0x0, DeviceEntry::Device(device_a)),
        (0xb, DeviceEntry::Device(device_b)),
    ]);
    let mut uxn = UxnWithDevicesImpl::new(ram(), devices);
    uxn.write_to_device(0x0a, 0x22);
    uxn.write_to_device(0xb1, 0x24);
    assert_eq!(*a_writes.borrow(), VecDeque::from([(0x0a, 0x22)]));
    assert_eq!(*b_writes.borrow(), VecDeque::from([(0x01, 0x24)]));
    assert_eq!(uxn.read_from_device(0x55), Err(UxnError::UnrecognisedDevice));
}
