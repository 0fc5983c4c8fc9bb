use vstd::prelude::*;

use crate::emulators::devices::console::{console_write_post, vector_of, Console};
use crate::emulators::devices::controller;
use crate::emulators::devices::controller::{button_code, controller_write_post, ControllerDevice};
use crate::emulators::devices::datetime::DateTimeDevice;
use crate::emulators::devices::mouse;
use crate::emulators::devices::mouse::{hi_byte, lo_byte, mouse_button_mask, mouse_write_post, MouseDevice};
use crate::emulators::devices::screen::{frame_rgb, screen_write_post, ScreenDevice};
use crate::emulators::devices::system::UxnSystemInterface;
use crate::emulators::uxn::device::{
    Device, DeviceAccess, DeviceList, DeviceReadReturnCode, DeviceWriteReturnCode, MainRamInterface,
};
use crate::emulators::uxn::{halted_at_once, ran_steps, run_ended, started_at, UxnImpl};
use crate::instruction::InstructionFactory;
use crate::uxninterface::{model_of, Uxn, UxnError, UxnState, UxnStatus};

verus! {

/// The width of the screen, in pixels, when the machine starts.
pub const INITIAL_WIDTH: u16 = 512;

/// The height of the screen, in pixels, when the machine starts.
pub const INITIAL_HEIGHT: u16 = 320;

/// The command line of the graphical machine: the ROM to run, and the initial console input.
pub struct Cli {
    pub rom: String,
    pub input: String,
}

/// The devices of the graphical machine: the console (slot 0x1), the screen (0x2), the
/// controller (0x8), the mouse (0x9), a file device (0xa), the date and time (0xc), and the
/// debug text of the system device (slot 0x0).
pub struct EmuDevices<F: Device> {
    pub console_device: Console,
    pub screen_device: ScreenDevice,
    pub controller_device: ControllerDevice,
    pub mouse_device: MouseDevice,
    pub file_device: F,
    pub datetime_device: DateTimeDevice,
    pub debug_output: Vec<u8>,
}

impl<F: Device> EmuDevices<F> {
    /// The devices, with the given console and file device, a blank screen of the initial size
    /// and no debug text yet.
    pub fn new(console_device: Console, file_device: F) -> (r: Self)
        ensures
            r.console_device == console_device,
            r.file_device == file_device,
            r.screen_device.wf(),
            r.screen_device.layer_width() == INITIAL_WIDTH,
            r.screen_device.layer_height() == INITIAL_HEIGHT,
            r.debug_output@ == Seq::<u8>::empty(),
    {
        let dimensions: [u16; 2] = [INITIAL_WIDTH, INITIAL_HEIGHT];
        assert(dimensions@[0] == 512 && dimensions@[1] == 320);
        EmuDevices {
            console_device,
            screen_device: ScreenDevice::new(&dimensions),
            controller_device: ControllerDevice::new(),
            mouse_device: MouseDevice::new(),
            file_device,
            datetime_device: DateTimeDevice::new(),
            debug_output: Vec::new(),
        }
    }
}

/// `new` holds the devices of `old`, save perhaps the one in `slot`.
pub open spec fn only_slot_changed<F: Device>(old: &EmuDevices<F>, new: &EmuDevices<F>, slot: u8) -> bool {
    &&& slot != 0x1 ==> new.console_device == old.console_device
    &&& slot != 0x2 ==> new.screen_device == old.screen_device
    &&& slot != 0x8 ==> new.controller_device == old.controller_device
    &&& slot != 0x9 ==> new.mouse_device == old.mouse_device
    &&& slot != 0xa ==> new.file_device == old.file_device
    &&& new.debug_output == old.debug_output
}

impl<F: Device> DeviceList for EmuDevices<F> {
    fn write_to_device<M: MainRamInterface>(
        &mut self,
        device_address: u8,
        val: u8,
        main_ram: &mut M,
    ) -> (r: DeviceWriteReturnCode)
        ensures
            only_slot_changed(old(self), final(self), device_address / 16),
            device_address / 16 == 0 ==> r == DeviceWriteReturnCode::WriteToSystemDevice(device_address % 16),
            device_address / 16 != 0 ==> r == DeviceWriteReturnCode::Success,
            device_address / 16 == 1 ==> console_write_post(
                &old(self).console_device,
                &final(self).console_device,
                device_address % 16,
                val,
            ),
            (device_address / 16 == 2 && old(self).screen_device.wf()) ==> final(self).screen_device.wf()
                && screen_write_post(&old(self).screen_device, &final(self).screen_device, device_address % 16, val),
            device_address / 16 == 8 ==> controller_write_post(
                &old(self).controller_device,
                &final(self).controller_device,
                device_address % 16,
                val,
            ),
            device_address / 16 == 9 ==> mouse_write_post(
                &old(self).mouse_device,
                &final(self).mouse_device,
                device_address % 16,
                val,
            ),
            device_address / 16 != 0xa ==> *final(main_ram) == *old(main_ram),
            device_address / 16 == 0x1 ==> final(self).console_device.accesses()
                == old(self).console_device.accesses().push(DeviceAccess::Write(device_address % 16, val)),
            device_address / 16 == 0x2 ==> final(self).screen_device.accesses()
                == old(self).screen_device.accesses().push(DeviceAccess::Write(device_address % 16, val)),
            device_address / 16 == 0x8 ==> final(self).controller_device.accesses()
                == old(self).controller_device.accesses().push(DeviceAccess::Write(device_address % 16, val)),
            device_address / 16 == 0x9 ==> final(self).mouse_device.accesses()
                == old(self).mouse_device.accesses().push(DeviceAccess::Write(device_address % 16, val)),
            device_address / 16 == 0xa ==> final(self).file_device.accesses()
                == old(self).file_device.accesses().push(DeviceAccess::Write(device_address % 16, val)),
            device_address / 16 == 0xc ==> final(self).datetime_device.accesses()
                == old(self).datetime_device.accesses().push(DeviceAccess::Write(device_address % 16, val)),
    {
        let slot = device_address / 16;
        let port = device_address % 16;
        if slot == 0 {
            DeviceWriteReturnCode::WriteToSystemDevice(port)
        } else {
            if slot == 0x1 {
                self.console_device.write(port, val, main_ram);
            } else if slot == 0x2 {
                self.screen_device.write(port, val, main_ram);
            } else if slot == 0x8 {
                self.controller_device.write(port, val, main_ram);
            } else if slot == 0x9 {
                self.mouse_device.write(port, val, main_ram);
            } else if slot == 0xa {
                self.file_device.write(port, val, main_ram);
            } else if slot == 0xc {
                self.datetime_device.write(port, val, main_ram);
            }
            DeviceWriteReturnCode::Success
        }
    }

    fn read_from_device(&mut self, device_address: u8) -> (r: DeviceReadReturnCode)
        ensures
            only_slot_changed(old(self), final(self), device_address / 16),
            device_address / 16 == 0 ==> r == DeviceReadReturnCode::ReadFromSystemDevice(device_address % 16),
            (device_address / 16 == 0x1 || device_address / 16 == 0x2 || device_address / 16 == 0x8 || device_address / 16
                == 0x9 || device_address / 16 == 0xa || device_address / 16 == 0xc) ==> r matches DeviceReadReturnCode::Success(
                Ok(_),
            ),
            !(device_address / 16 == 0 || device_address / 16 == 0x1 || device_address / 16 == 0x2 || device_address / 16
                == 0x8 || device_address / 16 == 0x9 || device_address / 16 == 0xa || device_address / 16 == 0xc)
                ==> r == DeviceReadReturnCode::Success(Err(UxnError::UnrecognisedDevice)),
            r matches DeviceReadReturnCode::Success(Ok(v)) ==> {
                let read = DeviceAccess::Read(device_address % 16, v);
                &&& device_address / 16 == 0x1 ==> final(self).console_device.accesses()
                    == old(self).console_device.accesses().push(read)
                &&& device_address / 16 == 0x2 ==> final(self).screen_device.accesses()
                    == old(self).screen_device.accesses().push(read)
                &&& device_address / 16 == 0x8 ==> final(self).controller_device.accesses()
                    == old(self).controller_device.accesses().push(read)
                &&& device_address / 16 == 0x9 ==> final(self).mouse_device.accesses()
                    == old(self).mouse_device.accesses().push(read)
                &&& device_address / 16 == 0xa ==> final(self).file_device.accesses()
                    == old(self).file_device.accesses().push(read)
                &&& device_address / 16 == 0xc ==> final(self).datetime_device.accesses()
                    == old(self).datetime_device.accesses().push(read)
            },
    {
        let slot = device_address / 16;
        let port = device_address % 16;
        if slot == 0 {
            DeviceReadReturnCode::ReadFromSystemDevice(port)
        } else if slot == 0x1 {
            DeviceReadReturnCode::Success(Ok(self.console_device.read(port)))
        } else if slot == 0x2 {
            DeviceReadReturnCode::Success(Ok(self.screen_device.read(port)))
        } else if slot == 0x8 {
            DeviceReadReturnCode::Success(Ok(self.controller_device.read(port)))
        } else if slot == 0x9 {
            DeviceReadReturnCode::Success(Ok(self.mouse_device.read(port)))
        } else if slot == 0xa {
            DeviceReadReturnCode::Success(Ok(self.file_device.read(port)))
        } else if slot == 0xc {
            DeviceReadReturnCode::Success(Ok(self.datetime_device.read(port)))
        } else {
            DeviceReadReturnCode::Success(Err(UxnError::UnrecognisedDevice))
        }
    }

    fn write_debug_output(&mut self, output: &[u8])
        ensures
            final(self).debug_output@ == old(self).debug_output@ + output@,
            final(self).console_device == old(self).console_device,
            final(self).screen_device == old(self).screen_device,
            final(self).controller_device == old(self).controller_device,
            final(self).mouse_device == old(self).mouse_device,
            final(self).file_device == old(self).file_device,
    {
        let mut j: usize = 0;
        let ghost start = self.debug_output@;
        while j < output.len()
            invariant
                j <= output@.len(),
                self.debug_output@ == start + output@.take(j as int),
                self.console_device == old(self).console_device,
                self.screen_device == old(self).screen_device,
                self.controller_device == old(self).controller_device,
                self.mouse_device == old(self).mouse_device,
                self.file_device == old(self).file_device,
            decreases output.len() - j,
        {
            self.debug_output.push(output[j]);
            assert(output@.take(j + 1) =~= output@.take(j as int).push(output@[j as int]));
            j = j + 1;
        }
        assert(output@.take(output@.len() as int) =~= output@);
    }
}

/// The keys of the keyboard that work the controller; any other key is `Other`.
#[derive(Debug, PartialEq, Eq, Clone, Copy)]
pub enum Key {
    LControl,
    RControl,
    LAlt,
    RAlt,
    LShift,
    RShift,
    Home,
    Up,
    Down,
    Left,
    Right,
    Other,
}

/// The controller button that a key works: either control key is A, either alt key B, either
/// shift key Select, home Start, and the arrow keys the directions.
pub open spec fn key_button(key: Key) -> Option<controller::Button> {
    match key {
        Key::LControl | Key::RControl => Some(controller::Button::A),
        Key::LAlt | Key::RAlt => Some(controller::Button::B),
        Key::LShift | Key::RShift => Some(controller::Button::Select),
        Key::Home => Some(controller::Button::Start),
        Key::Up => Some(controller::Button::Up),
        Key::Down => Some(controller::Button::Down),
        Key::Left => Some(controller::Button::Left),
        Key::Right => Some(controller::Button::Right),
        Key::Other => None,
    }
}

/// The controller button that `key` works, if any.
pub fn convert_key_to_controller_button(key: Key) -> (r: Option<controller::Button>)
    ensures
        r == key_button(key),
{
    match key {
        Key::LControl | Key::RControl => Some(controller::Button::A),
        Key::LAlt | Key::RAlt => Some(controller::Button::B),
        Key::LShift | Key::RShift => Some(controller::Button::Select),
        Key::Home => Some(controller::Button::Start),
        Key::Up => Some(controller::Button::Up),
        Key::Down => Some(controller::Button::Down),
        Key::Left => Some(controller::Button::Left),
        Key::Right => Some(controller::Button::Right),
        Key::Other => None,
    }
}

/// What the window should do after the machine has handled an event: carry on, close, or
/// report the error and close.
#[derive(Debug, PartialEq, Eq, Clone, Copy)]
pub enum EmuAction {
    Continue,
    Stop,
    Fail(UxnError),
}

/// The action that the outcome of a run calls for: a run cut off without halting stops the
/// machine as a request to stop does.
pub open spec fn action_of(r: Result<UxnStatus, UxnError>) -> EmuAction {
    match r {
        Ok(UxnStatus::Halt) => EmuAction::Continue,
        Ok(UxnStatus::Terminate) => EmuAction::Stop,
        Ok(UxnStatus::StepLimit) => EmuAction::Stop,
        Err(e) => EmuAction::Fail(e),
    }
}

/// `new` is `old` after a run of the program from `v` that led to the action `a`: the run
/// started at `v` on the machine as `old` left it, and ran its instructions one after the
/// other as the decoder says (see `ran_steps`); the window carries on only where the machine
/// halted with no step asking it to stop, stops where the last step asked it to (or the run
/// was cut off), and fails where the last step failed.
pub open spec fn vector_ran<J: InstructionFactory>(old: &UxnImpl<J>, new: &UxnImpl<J>, v: u16, a: EmuAction) -> bool {
    let steps = new.last_run();
    let start = started_at(model_of(old), v);
    let fin = model_of(new);
    &&& new.factory() == old.factory()
    &&& ran_steps(old.factory(), start, steps)
    &&& match a {
        EmuAction::Continue => run_ended(Ok(Some(UxnStatus::Halt)), start, steps, u64::MAX as nat, fin, new.terminating()),
        EmuAction::Stop => run_ended(Ok(Some(UxnStatus::Terminate)), start, steps, u64::MAX as nat, fin, new.terminating())
            || run_ended(Ok(None), start, steps, u64::MAX as nat, fin, new.terminating()),
        EmuAction::Fail(e) => run_ended(Err(e), start, steps, u64::MAX as nat, fin, new.terminating()),
    }
}

/// The graphical machine: the uxn machine, its devices, and whether a picture has been asked
/// for and not yet drawn.
pub struct Emulator<J: InstructionFactory, F: Device> {
    pub uxn: UxnImpl<J>,
    pub devices: EmuDevices<F>,
    pub pending_draw: bool,
    pub vector_run: Ghost<u16>,
    pub devices_before_run: Ghost<EmuDevices<F>>,
}

impl<J: InstructionFactory, F: Device> Emulator<J, F> {
    /// The vector that the last run started from.
    pub open spec fn ran_vector(&self) -> u16 {
        self.vector_run@
    }

    /// The devices as they stood when the last run started.
    pub open spec fn devices_at_run(&self) -> EmuDevices<F> {
        self.devices_before_run@
    }

    /// The machine with no picture pending.
    pub fn new(uxn: UxnImpl<J>, devices: EmuDevices<F>) -> (r: Self)
        ensures
            r.uxn == uxn,
            r.devices == devices,
            !r.pending_draw,
    {
        let ghost start = devices;
        Emulator { uxn, devices, pending_draw: false, vector_run: Ghost(0), devices_before_run: Ghost(start) }
    }

    /// Runs the program from `vector` with the devices attached. Where the byte at `vector` is
    /// zero the machine halts at once: the action is to carry on, and only the program counter
    /// moves.
    pub fn execute_vector(&mut self, vector: u16) -> (a: EmuAction)
        requires
            old(self).uxn.ok(),
        ensures
            final(self).uxn.ok(),
            final(self).uxn.factory() == old(self).uxn.factory(),
            final(self).pending_draw == old(self).pending_draw,
            final(self).ran_vector() == vector,
            final(self).devices_at_run() == old(self).devices,
            vector_ran(&old(self).uxn, &final(self).uxn, vector, a),
            old(self).uxn.ram()[vector as int] == 0 ==> {
                &&& a == EmuAction::Continue
                &&& halted_at_once(&old(self).uxn, &final(self).uxn, vector)
                &&& final(self).devices == old(self).devices
            },
    {
        self.vector_run = Ghost(vector);
        self.devices_before_run = Ghost(self.devices);
        let r = self.uxn.run_with(vector, &mut self.devices);
        match r {
            Ok(UxnStatus::Halt) => EmuAction::Continue,
            Ok(UxnStatus::Terminate) => EmuAction::Stop,
            Ok(UxnStatus::StepLimit) => EmuAction::Stop,
            Err(e) => EmuAction::Fail(e),
        }
    }

    /// A refresh of the screen: unless a picture is still waiting to be drawn, runs the screen
    /// vector; then asks for a picture (the second result) when the screen must be drawn again,
    /// and records that one is pending.
    pub fn on_screen_refresh(&mut self) -> (r: (EmuAction, bool))
        requires
            old(self).uxn.ok(),
        ensures
            final(self).uxn.ok(),
            old(self).pending_draw ==> r.0 == EmuAction::Continue && final(self).uxn == old(self).uxn,
            !old(self).pending_draw ==> {
                let screen = old(self).devices.screen_device;
                let v = vector_of(screen.port_value(0x0), screen.port_value(0x1));
                &&& final(self).ran_vector() == v
                &&& final(self).devices_at_run() == old(self).devices
                &&& vector_ran(&old(self).uxn, &final(self).uxn, v, r.0)
            },
            r.1 == final(self).devices.screen_device.changed(),
            final(self).devices.screen_device.raw_colors() == final(self).uxn.system_colors(),
            final(self).pending_draw == (old(self).pending_draw || r.1),
    {
        let mut action = EmuAction::Continue;
        if !self.pending_draw {
            let screen_vector = self.devices.screen_device.read_vector();
            action = self.execute_vector(screen_vector);
        }
        let redraw = self.devices.screen_device.get_draw_required(&self.uxn);
        if redraw {
            self.pending_draw = true;
        }
        (action, redraw)
    }

    /// Draws the picture: the screen's size and the red, green and blue bytes of its pixels.
    /// No picture is pending afterwards.
    pub fn on_draw(&mut self) -> (r: ([u16; 2], Vec<u8>))
        ensures
            !final(self).pending_draw,
            final(self).uxn == old(self).uxn,
            old(self).devices.screen_device.wf() ==> r.1@ == frame_rgb(
                old(self).devices.screen_device.fg(),
                old(self).devices.screen_device.bg(),
                old(self).devices.screen_device.palette(),
            ),
            !final(self).devices.screen_device.changed(),
    {
        let r = self.devices.screen_device.draw();
        self.pending_draw = false;
        r
    }

    /// A byte of console input: hands it to the console and runs the console vector.
    pub fn on_console_input(&mut self, c: u8) -> (a: EmuAction)
        requires
            old(self).uxn.ok(),
        ensures
            final(self).uxn.ok(),
            final(self).pending_draw == old(self).pending_draw,
            ({
                let console = old(self).devices.console_device;
                let v = vector_of(console.vector_hi(), console.vector_lo());
                let at_run = final(self).devices_at_run();
                &&& final(self).ran_vector() == v
                &&& vector_ran(&old(self).uxn, &final(self).uxn, v, a)
                &&& at_run.console_device.input() == c
                &&& at_run.console_device.vector_hi() == console.vector_hi()
                &&& at_run.console_device.vector_lo() == console.vector_lo()
                &&& at_run.console_device.stdout() == console.stdout()
                &&& at_run.console_device.stderr() == console.stderr()
                &&& at_run == (EmuDevices { console_device: at_run.console_device, ..old(self).devices })
                &&& old(self).uxn.ram()[v as int] == 0 ==> {
                    &&& a == EmuAction::Continue
                    &&& halted_at_once(&old(self).uxn, &final(self).uxn, v)
                    &&& final(self).devices == at_run
                }
            }),
    {
        self.devices.console_device.provide_input(c);
        let vector = self.devices.console_device.read_vector();
        self.execute_vector(vector)
    }

    /// A key going down or up: where the key works a controller button, records it and runs
    /// the controller vector, except for a key held down that was down already.
    pub fn on_key_press_change(&mut self, key: Key, down: bool) -> (a: EmuAction)
        requires
            old(self).uxn.ok(),
        ensures
            final(self).uxn.ok(),
            final(self).pending_draw == old(self).pending_draw,
            key_button(key) is None ==> a == EmuAction::Continue && final(self).uxn == old(self).uxn
                && final(self).devices == old(self).devices,
            (key_button(key) matches Some(b) && down && old(self).devices.controller_device.buttons() & button_code(b)
                != 0) ==> a == EmuAction::Continue && final(self).uxn == old(self).uxn
                && final(self).devices.controller_device.buttons() == old(self).devices.controller_device.buttons(),
            ({
                let pad = old(self).devices.controller_device;
                let v = vector_of(pad.vector_hi(), pad.vector_lo());
                let at_run = final(self).devices_at_run();
                (key_button(key) matches Some(b) && (!down || pad.buttons() & button_code(b) == 0)) ==> {
                    &&& final(self).ran_vector() == v
                    &&& vector_ran(&old(self).uxn, &final(self).uxn, v, a)
                    &&& at_run.controller_device.buttons() == (if down {
                        pad.buttons() | button_code(key_button(key)->0)
                    } else {
                        pad.buttons() & !button_code(key_button(key)->0)
                    })
                    &&& at_run.controller_device.last_key() == pad.last_key()
                    &&& at_run.controller_device.vector_hi() == pad.vector_hi()
                    &&& at_run.controller_device.vector_lo() == pad.vector_lo()
                    &&& at_run == (EmuDevices { controller_device: at_run.controller_device, ..old(self).devices })
                    &&& old(self).uxn.ram()[v as int] == 0 ==> {
                        &&& a == EmuAction::Continue
                        &&& halted_at_once(&old(self).uxn, &final(self).uxn, v)
                        &&& final(self).devices == at_run
                    }
                }
            }),
    {
        let button = match convert_key_to_controller_button(key) {
            Some(b) => b,
            None => {
                return EmuAction::Continue;
            },
        };
        let mut trigger_vector = true;
        if down {
            trigger_vector = self.devices.controller_device.notify_button_down(button);
        } else {
            self.devices.controller_device.notify_button_up(button);
        }
        if trigger_vector {
            let vector = self.devices.controller_device.read_vector();
            self.execute_vector(vector)
        } else {
            proof {
                let s = old(self).devices.controller_device.buttons();
                let code = button_code(button);
                assert(code == 1 || code == 2 || code == 4 || code == 8 || code == 16 || code == 32
                    || code == 64 || code == 128);
                assert((code == 1 || code == 2 || code == 4 || code == 8 || code == 16 || code == 32
                    || code == 64 || code == 128) ==> (s & code != 0 ==> s | code == s)) by (bit_vector);
            }
            EmuAction::Continue
        }
    }

    /// The cursor moving to `(x, y)`: records the position and runs the mouse vector.
    pub fn on_mouse_move(&mut self, x: u16, y: u16) -> (a: EmuAction)
        requires
            old(self).uxn.ok(),
        ensures
            final(self).uxn.ok(),
            final(self).pending_draw == old(self).pending_draw,
            ({
                let m = old(self).devices.mouse_device;
                let v = vector_of(m.port_value(0x0), m.port_value(0x1));
                let at_run = final(self).devices_at_run();
                &&& final(self).ran_vector() == v
                &&& vector_ran(&old(self).uxn, &final(self).uxn, v, a)
                &&& at_run == (EmuDevices { mouse_device: at_run.mouse_device, ..old(self).devices })
                &&& forall|p: u8| #[trigger] at_run.mouse_device.port_value(p) == (if p == 0x2 {
                    hi_byte(x)
                } else if p == 0x3 {
                    lo_byte(x)
                } else if p == 0x4 {
                    hi_byte(y)
                } else if p == 0x5 {
                    lo_byte(y)
                } else {
                    m.port_value(p)
                })
                &&& old(self).uxn.ram()[v as int] == 0 ==> {
                    &&& a == EmuAction::Continue
                    &&& halted_at_once(&old(self).uxn, &final(self).uxn, v)
                    &&& final(self).devices == at_run
                }
            }),
    {
        self.devices.mouse_device.notify_cursor_position(&[x, y]);
        let vector = self.devices.mouse_device.read_vector();
        self.execute_vector(vector)
    }

    /// A mouse button going down: records it and runs the mouse vector.
    pub fn on_mouse_button_down(&mut self, button: mouse::Button) -> (a: EmuAction)
        requires
            old(self).uxn.ok(),
        ensures
            final(self).uxn.ok(),
            final(self).pending_draw == old(self).pending_draw,
            ({
                let m = old(self).devices.mouse_device;
                let v = vector_of(m.port_value(0x0), m.port_value(0x1));
                let at_run = final(self).devices_at_run();
                &&& final(self).ran_vector() == v
                &&& vector_ran(&old(self).uxn, &final(self).uxn, v, a)
                &&& at_run == (EmuDevices { mouse_device: at_run.mouse_device, ..old(self).devices })
                &&& forall|p: u8| #[trigger] at_run.mouse_device.port_value(p) == (if p == 0x6 {
                    m.port_value(0x6) | mouse_button_mask(button)
                } else {
                    m.port_value(p)
                })
                &&& old(self).uxn.ram()[v as int] == 0 ==> {
                    &&& a == EmuAction::Continue
                    &&& halted_at_once(&old(self).uxn, &final(self).uxn, v)
                    &&& final(self).devices == at_run
                }
            }),
    {
        self.devices.mouse_device.notify_button_down(button);
        let vector = self.devices.mouse_device.read_vector();
        self.execute_vector(vector)
    }

    /// A mouse button going up: records it and runs the mouse vector.
    pub fn on_mouse_button_up(&mut self, button: mouse::Button) -> (a: EmuAction)
        requires
            old(self).uxn.ok(),
        ensures
            final(self).uxn.ok(),
            final(self).pending_draw == old(self).pending_draw,
            ({
                let m = old(self).devices.mouse_device;
                let v = vector_of(m.port_value(0x0), m.port_value(0x1));
                let at_run = final(self).devices_at_run();
                &&& final(self).ran_vector() == v
                &&& vector_ran(&old(self).uxn, &final(self).uxn, v, a)
                &&& at_run == (EmuDevices { mouse_device: at_run.mouse_device, ..old(self).devices })
                &&& forall|p: u8| #[trigger] at_run.mouse_device.port_value(p) == (if p == 0x6 {
                    m.port_value(0x6) & !mouse_button_mask(button)
                } else {
                    m.port_value(p)
                })
                &&& old(self).uxn.ram()[v as int] == 0 ==> {
                    &&& a == EmuAction::Continue
                    &&& halted_at_once(&old(self).uxn, &final(self).uxn, v)
                    &&& final(self).devices == at_run
                }
            }),
    {
        self.devices.mouse_device.notify_button_up(button);
        let vector = self.devices.mouse_device.read_vector();
        self.execute_vector(vector)
    }

    /// A scroll of the mouse wheel by `(x, y)` lines: records it and runs the mouse vector.
    pub fn on_mouse_wheel_scroll(&mut self, x: i16, y: i16) -> (a: EmuAction)
        requires
            old(self).uxn.ok(),
        ensures
            final(self).uxn.ok(),
            final(self).pending_draw == old(self).pending_draw,
            ({
                let m = old(self).devices.mouse_device;
                let v = vector_of(m.port_value(0x0), m.port_value(0x1));
                let at_run = final(self).devices_at_run();
                &&& final(self).ran_vector() == v
                &&& vector_ran(&old(self).uxn, &final(self).uxn, v, a)
                &&& at_run == (EmuDevices { mouse_device: at_run.mouse_device, ..old(self).devices })
                &&& forall|p: u8| #[trigger] at_run.mouse_device.port_value(p) == (if p == 0xa {
                    hi_byte(x as u16)
                } else if p == 0xb {
                    lo_byte(x as u16)
                } else if p == 0xc {
                    hi_byte(y as u16)
                } else if p == 0xd {
                    lo_byte(y as u16)
                } else {
                    m.port_value(p)
                })
                &&& old(self).uxn.ram()[v as int] == 0 ==> {
                    &&& a == EmuAction::Continue
                    &&& halted_at_once(&old(self).uxn, &final(self).uxn, v)
                    &&& final(self).devices == at_run
                }
            }),
    {
        self.devices.mouse_device.notify_scroll(&[x, y]);
        let vector = self.devices.mouse_device.read_vector();
        self.execute_vector(vector)
    }

    /// A character typed: an ASCII character becomes the controller's key; then the controller
    /// vector runs.
    pub fn on_keyboard_char(&mut self, c: char) -> (a: EmuAction)
        requires
            old(self).uxn.ok(),
        ensures
            final(self).uxn.ok(),
            final(self).pending_draw == old(self).pending_draw,
            ({
                let pad = old(self).devices.controller_device;
                let v = vector_of(pad.vector_hi(), pad.vector_lo());
                let at_run = final(self).devices_at_run();
                &&& final(self).ran_vector() == v
                &&& vector_ran(&old(self).uxn, &final(self).uxn, v, a)
                &&& at_run.controller_device.last_key() == (if c <= '\x7f' {
                    c as u8
                } else {
                    pad.last_key()
                })
                &&& at_run.controller_device.buttons() == pad.buttons()
                &&& at_run.controller_device.vector_hi() == pad.vector_hi()
                &&& at_run.controller_device.vector_lo() == pad.vector_lo()
                &&& at_run == (EmuDevices { controller_device: at_run.controller_device, ..old(self).devices })
                &&& old(self).uxn.ram()[v as int] == 0 ==> {
                    &&& a == EmuAction::Continue
                    &&& halted_at_once(&old(self).uxn, &final(self).uxn, v)
                    &&& final(self).devices == at_run
                }
            }),
    {
        if c <= '\x7f' {
            self.devices.controller_device.notify_key_press(c as u8);
        }
        let vector = self.devices.controller_device.read_vector();
        self.execute_vector(vector)
    }
}

} // verus!
