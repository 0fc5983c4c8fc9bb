use rusty_uxn::emulators::devices::console::Console;
use rusty_uxn::emulators::devices::controller::Button;
use rusty_uxn::emulators::devices::mouse;
use rusty_uxn::emulators::uxn::device::{Device, MainRamInterface};
use rusty_uxn::emulators::uxn::{UxnImpl, INIT_VECTOR};
use rusty_uxn::emulators::uxnclilib::{console_input_bytes, feed_console, CliDevices};
use rusty_uxn::emulators::uxnemulib::{
    convert_key_to_controller_button, EmuAction, EmuDevices, Emulator, Key,
};
use rusty_uxn::ops::OpObjectFactory;
use rusty_uxn::uxninterface::UxnStatus;

/// A file device that answers nothing.
struct NoFiles;

impl Device for NoFiles {
    fn write<M: MainRamInterface>(&mut self, _port: u8, _val: u8, _main_ram: &mut M) {}

    fn read(&mut self, _port: u8) -> u8 {
        0
    }
}

// sets the console vector to 0x010b, one byte at a time, and halts; the vector echoes the
// input byte to stdout
const ECHO: [u8; 18] = [
    0x80, 0x01, 0x80, 0x10, 0x17, 0x80, 0x0b, 0x80, 0x11, 0x17, 0x00, 0x80, 0x12, 0x16, 0x80,
    0x18, 0x17, 0x00,
];

// sets the console vector to 0x010b; the vector asks the machine to stop: LIT 01 LIT 0f DEO
const STOP: [u8; 17] = [
    0x80, 0x01, 0x80, 0x10, 0x17, 0x80, 0x0b, 0x80, 0x11, 0x17, 0x00, 0x80, 0x01, 0x80, 0x0f,
    0x17, 0x00,
];

#[test]
fn console_input_from_arguments() {
    let args = vec!["you".to_owned(), "everyone".to_owned()];
    assert_eq!(console_input_bytes(&args), b"you\neveryone\n".to_vec());
    assert_eq!(console_input_bytes(&Vec::new()), Vec::<u8>::new());
}

#[test]
fn cli_echoes_console_input() {
    let mut uxn = UxnImpl::new(&ECHO, OpObjectFactory {}).unwrap();
    let mut devices = CliDevices::new(Console::new(Vec::new(), Vec::new()), NoFiles);
    assert_eq!(uxn.run(INIT_VECTOR, &mut devices), Ok(UxnStatus::Halt));
    assert_eq!(devices.console_device.read_vector(), 0x010b);
    let input = console_input_bytes(&vec!["hi".to_owned()]);
    assert_eq!(feed_console(&mut uxn, &mut devices, &input), Ok(UxnStatus::Halt));
    assert_eq!(devices.console_device.take_stdout(), b"hi\n".to_vec());
    assert_eq!(feed_console(&mut uxn, &mut devices, &[]), Ok(UxnStatus::Halt));
}

#[test]
fn cli_stops_when_asked() {
    let mut uxn = UxnImpl::new(&STOP, OpObjectFactory {}).unwrap();
    let mut devices = CliDevices::new(Console::new(Vec::new(), Vec::new()), NoFiles);
    assert_eq!(uxn.run(INIT_VECTOR, &mut devices), Ok(UxnStatus::Halt));
    assert_eq!(feed_console(&mut uxn, &mut devices, b"abc"), Ok(UxnStatus::Terminate));
    assert!(uxn.is_terminating());
    assert_eq!(devices.console_device.read(0x2), b'a');
}

#[test]
fn cli_debug_output_is_collected() {
    // LIT 01 LIT 0e DEO: print the stacks
    let rom = [0x80, 0x22, 0x80, 0x01, 0x80, 0x0e, 0x17, 0x00];
    let mut uxn = UxnImpl::new(&rom, OpObjectFactory {}).unwrap();
    let mut devices = CliDevices::new(Console::new(Vec::new(), Vec::new()), NoFiles);
    assert_eq!(uxn.run(INIT_VECTOR, &mut devices), Ok(UxnStatus::Halt));
    assert_eq!(String::from_utf8(devices.debug_output.clone()).unwrap(), "<wst> 22\n<rst> \n");
}

#[test]
fn keys_work_controller_buttons() {
    assert_eq!(convert_key_to_controller_button(Key::LControl), Some(Button::A));
    assert_eq!(convert_key_to_controller_button(Key::RControl), Some(Button::A));
    assert_eq!(convert_key_to_controller_button(Key::LAlt), Some(Button::B));
    assert_eq!(convert_key_to_controller_button(Key::RShift), Some(Button::Select));
    assert_eq!(convert_key_to_controller_button(Key::Home), Some(Button::Start));
    assert_eq!(convert_key_to_controller_button(Key::Up), Some(Button::Up));
    assert_eq!(convert_key_to_controller_button(Key::Down), Some(Button::Down));
    assert_eq!(convert_key_to_controller_button(Key::Left), Some(Button::Left));
    assert_eq!(convert_key_to_controller_button(Key::Right), Some(Button::Right));
    assert_eq!(convert_key_to_controller_button(Key::Other), None);
}

fn emulator(rom: &[u8]) -> Emulator<OpObjectFactory, NoFiles> {
    let uxn = UxnImpl::new(rom, OpObjectFactory {}).unwrap();
    Emulator::new(uxn, EmuDevices::new(Console::new(Vec::new(), Vec::new()), NoFiles))
}

#[test]
fn emulator_events_reach_the_devices() {
    let mut emu = emulator(&[]);
    assert_eq!(emu.on_key_press_change(Key::Other, true), EmuAction::Continue);
    assert_eq!(emu.on_key_press_change(Key::Up, true), EmuAction::Continue);
    assert_eq!(emu.devices.controller_device.read(0x2), 0x10);
    assert_eq!(emu.on_key_press_change(Key::Up, true), EmuAction::Continue);
    assert_eq!(emu.on_key_press_change(Key::Up, false), EmuAction::Continue);
    assert_eq!(emu.devices.controller_device.read(0x2), 0x00);
    assert_eq!(emu.on_keyboard_char('q'), EmuAction::Continue);
    assert_eq!(emu.devices.controller_device.read(0x3), b'q');
    assert_eq!(emu.on_keyboard_char('\u{e9}'), EmuAction::Continue);
    assert_eq!(emu.devices.controller_device.read(0x3), b'q');
    assert_eq!(emu.on_mouse_move(0x1234, 0x0056), EmuAction::Continue);
    assert_eq!(emu.devices.mouse_device.read(0x2), 0x12);
    assert_eq!(emu.devices.mouse_device.read(0x5), 0x56);
    assert_eq!(emu.on_mouse_button_down(mouse::Button::Right), EmuAction::Continue);
    assert_eq!(emu.devices.mouse_device.read(0x6), 0x04);
    assert_eq!(emu.on_mouse_button_up(mouse::Button::Right), EmuAction::Continue);
    assert_eq!(emu.devices.mouse_device.read(0x6), 0x00);
    assert_eq!(emu.on_mouse_wheel_scroll(-1, 2), EmuAction::Continue);
    assert_eq!(emu.devices.mouse_device.read(0xa), 0xff);
    assert_eq!(emu.devices.mouse_device.read(0xd), 0x02);
    assert_eq!(emu.on_console_input(b'z'), EmuAction::Continue);
    assert_eq!(emu.devices.console_device.read(0x2), b'z');
}

#[test]
fn emulator_screen_refresh_and_draw() {
    // paint pixel (0, 0) of the background with colour 1: LIT 01 LIT 2e DEO
    let mut emu = emulator(&[0x80, 0x01, 0x80, 0x2e, 0x17, 0x00]);
    // a new screen is drawn once
    assert_eq!(emu.on_screen_refresh(), (EmuAction::Continue, true));
    assert!(emu.pending_draw);
    let (size, pixels) = emu.on_draw();
    assert_eq!(size, [512, 320]);
    assert_eq!(pixels.len(), 512 * 320 * 3);
    assert!(!emu.pending_draw);
    assert_eq!(emu.on_screen_refresh(), (EmuAction::Continue, false));

    assert_eq!(emu.uxn.run(INIT_VECTOR, &mut emu.devices), Ok(UxnStatus::Halt));
    assert_eq!(emu.on_screen_refresh(), (EmuAction::Continue, true));
    assert!(emu.pending_draw);
    // a picture is pending: the screen vector does not run again
    assert_eq!(emu.on_screen_refresh(), (EmuAction::Continue, true));
    emu.on_draw();
    assert_eq!(emu.on_screen_refresh(), (EmuAction::Continue, false));
}

#[test]
fn emulator_stops_when_asked() {
    let mut emu = emulator(&STOP);
    assert_eq!(emu.execute_vector(INIT_VECTOR), EmuAction::Continue);
    assert_eq!(emu.on_console_input(b'x'), EmuAction::Stop);
}

// each byte of console input runs the console vector once, in order, with the byte readable
#[test]
fn emulator_console_input_runs_the_console_vector() {
    let mut emu = emulator(&ECHO);
    assert_eq!(emu.uxn.run(INIT_VECTOR, &mut emu.devices), Ok(UxnStatus::Halt));
    assert_eq!(emu.on_console_input(b'o'), EmuAction::Continue);
    assert_eq!(emu.on_console_input(b'k'), EmuAction::Continue);
    assert_eq!(emu.devices.console_device.take_stdout(), b"ok".to_vec());

    let mut emu = emulator(&STOP);
    assert_eq!(emu.uxn.run(INIT_VECTOR, &mut emu.devices), Ok(UxnStatus::Halt));
    assert_eq!(emu.on_console_input(b'x'), EmuAction::Stop);
    assert!(emu.uxn.is_terminating());
}

// a run that stops the machine ends the feed: later bytes are not handed over
#[test]
fn cli_feed_ends_at_a_request_to_stop() {
    let mut uxn = UxnImpl::new(&STOP, OpObjectFactory {}).unwrap();
    let mut devices = CliDevices::new(Console::new(Vec::new(), Vec::new()), NoFiles);
    assert_eq!(uxn.run(INIT_VECTOR, &mut devices), Ok(UxnStatus::Halt));
    assert_eq!(feed_console(&mut uxn, &mut devices, b"xyz"), Ok(UxnStatus::Terminate));
    assert_eq!(devices.console_device.read(0x2), b'x');
}
