use vstd::prelude::*;

use crate::emulators::devices::console::vector_of;
use crate::emulators::uxn::device::{Device, DeviceAccess, MainRamInterface};

verus! {

/// The buttons of the controller, each one bit of the button state byte.
#[derive(Debug, PartialEq, Eq, Clone, Copy)]
pub enum Button {
    A,
    B,
    Select,
    Start,
    Up,
    Down,
    Left,
    Right,
}

/// The bit of the button state byte that a button sets.
pub open spec fn button_code(button: Button) -> u8 {
    match button {
        Button::A => 1,
        Button::B => 2,
        Button::Select => 4,
        Button::Start => 8,
        Button::Up => 16,
        Button::Down => 32,
        Button::Left => 64,
        Button::Right => 128,
    }
}

impl Button {
    fn to_code(&self) -> (r: u8)
        ensures
            r == button_code(*self),
    {
        match self {
            Button::A => 1,
            Button::B => 2,
            Button::Select => 4,
            Button::Start => 8,
            Button::Up => 16,
            Button::Down => 32,
            Button::Left => 64,
            Button::Right => 128,
        }
    }
}

/// The controller device: a vector, the state of the buttons (one bit each) and the last key
/// pressed.
pub struct ControllerDevice {
    vector: [u8; 2],
    button_state: u8,
    key: u8,
    access_log: Ghost<Seq<DeviceAccess>>,
}

impl ControllerDevice {
    pub closed spec fn vector_hi(&self) -> u8 {
        self.vector@[0]
    }

    pub closed spec fn vector_lo(&self) -> u8 {
        self.vector@[1]
    }

    pub closed spec fn buttons(&self) -> u8 {
        self.button_state
    }

    pub closed spec fn last_key(&self) -> u8 {
        self.key
    }

    pub fn new() -> (r: Self)
        ensures
            r.vector_hi() == 0,
            r.vector_lo() == 0,
            r.buttons() == 0,
            r.last_key() == 0,
    {
        ControllerDevice { vector: [0u8; 2], button_state: 0, key: 0, access_log: Ghost(Seq::empty()) }
    }

    pub fn read_vector(&self) -> (r: u16)
        ensures
            r == vector_of(self.vector_hi(), self.vector_lo()),
    {
        self.vector[0] as u16 * 256 + self.vector[1] as u16
    }

    pub fn notify_key_press(&mut self, key: u8)
        ensures
            final(self).last_key() == key,
            final(self).buttons() == old(self).buttons(),
            final(self).vector_hi() == old(self).vector_hi(),
            final(self).vector_lo() == old(self).vector_lo(),
    {
        self.key = key;
    }

    /// Records that `button` is down, and tells whether it was up before.
    pub fn notify_button_down(&mut self, button: Button) -> (changed: bool)
        ensures
            final(self).buttons() == old(self).buttons() | button_code(button),
            changed == (old(self).buttons() & button_code(button) == 0),
            final(self).last_key() == old(self).last_key(),
            final(self).vector_hi() == old(self).vector_hi(),
            final(self).vector_lo() == old(self).vector_lo(),
    {
        let code = button.to_code();
        let button_old = self.button_state;
        self.button_state = self.button_state | code;
        let changed = button_old != self.button_state;
        proof {
            let b = button_old;
            assert(code == 1 || code == 2 || code == 4 || code == 8 || code == 16 || code == 32
                || code == 64 || code == 128);
            assert((code == 1 || code == 2 || code == 4 || code == 8 || code == 16 || code == 32
                || code == 64 || code == 128) ==> ((b | code) != b <==> (b & code) == 0))
                by (bit_vector);
        }
        changed
    }

    /// Records that `button` is up.
    pub fn notify_button_up(&mut self, button: Button)
        ensures
            final(self).buttons() == old(self).buttons() & !button_code(button),
            final(self).last_key() == old(self).last_key(),
            final(self).vector_hi() == old(self).vector_hi(),
            final(self).vector_lo() == old(self).vector_lo(),
    {
        self.button_state = self.button_state & !button.to_code();
    }
}

/// Pressing a button and letting it go leaves the other buttons as they were, and that button
/// up.
pub proof fn lemma_button_down_up(state: u8, button: Button)
    ensures
        (state | button_code(button)) & !button_code(button) == state & !button_code(button),
        ((state | button_code(button)) & !button_code(button)) & button_code(button) == 0,
        (state | button_code(button)) & button_code(button) == button_code(button),
{
    let code = button_code(button);
    assert((state | code) & !code == state & !code) by (bit_vector);
    assert(((state | code) & !code) & code == 0) by (bit_vector);
    assert((state | code) & code == code) by (bit_vector);
}

/// What a write of `val` to `port` does to the controller: ports 0 and 1 set its vector.
pub open spec fn controller_write_post(old: &ControllerDevice, new: &ControllerDevice, port: u8, val: u8) -> bool {
    &&& new.vector_hi() == (if port == 0 { val } else { old.vector_hi() })
    &&& new.vector_lo() == (if port == 1 { val } else { old.vector_lo() })
    &&& new.buttons() == old.buttons()
    &&& new.last_key() == old.last_key()
}

impl Device for ControllerDevice {
    closed spec fn accesses(&self) -> Seq<DeviceAccess> {
        self.access_log@
    }

    fn write<M: MainRamInterface>(&mut self, port: u8, val: u8, main_ram: &mut M)
        ensures
            controller_write_post(old(self), final(self), port, val),
            *final(main_ram) == *old(main_ram),
    {
        if port == 0 {
            self.vector[0] = val;
        } else if port == 1 {
            self.vector[1] = val;
        }
        self.access_log = Ghost(self.access_log@.push(DeviceAccess::Write(port, val)));
    }

    fn read(&mut self, port: u8) -> (r: u8)
        ensures
            r == (if port == 0 {
                old(self).vector_hi()
            } else if port == 1 {
                old(self).vector_lo()
            } else if port == 2 {
                old(self).buttons()
            } else if port == 3 {
                old(self).last_key()
            } else {
                0
            }),
            final(self).vector_hi() == old(self).vector_hi(),
            final(self).vector_lo() == old(self).vector_lo(),
            final(self).buttons() == old(self).buttons(),
            final(self).last_key() == old(self).last_key(),
    {
        let r = {
            if port == 0 {
                self.vector[0]
            } else if port == 1 {
                self.vector[1]
            } else if port == 2 {
                self.button_state
            } else if port == 3 {
                self.key
            } else {
                0
            }
        };
        self.access_log = Ghost(self.access_log@.push(DeviceAccess::Read(port, r)));
        r
    }
}

} // verus!
