use vstd::prelude::*;

use crate::emulators::devices::console::vector_of;
use crate::emulators::uxn::device::{Device, DeviceAccess, MainRamInterface};

verus! {

/// High byte of a 16 bit value.
pub open spec fn hi_byte(v: u16) -> u8 {
    (v / 256) as u8
}

/// Low byte of a 16 bit value.
pub open spec fn lo_byte(v: u16) -> u8 {
    (v % 256) as u8
}

/// A short is its high byte times 256 plus its low byte.
pub proof fn lemma_short_bytes(v: u16)
    ensures
        hi_byte(v) as int * 256 + lo_byte(v) as int == v as int,
{
}

/// The big endian bytes of a 16 bit value.
pub fn be_bytes(v: u16) -> (r: (u8, u8))
    ensures
        r.0 == hi_byte(v),
        r.1 == lo_byte(v),
{
    ((v / 256) as u8, (v % 256) as u8)
}

/// The big endian bytes of a signed 16 bit value, in two's complement.
pub fn be_bytes_signed(v: i16) -> (r: (u8, u8))
    ensures
        r.0 == hi_byte(v as u16),
        r.1 == lo_byte(v as u16),
{
    be_bytes(v as u16)
}

/// The mouse buttons, bits 0, 1 and 2 of the click state.
#[derive(Debug, PartialEq, Eq, Clone, Copy)]
pub enum Button {
    Left,
    Middle,
    Right,
}

pub open spec fn mouse_button_mask(button: Button) -> u8 {
    match button {
        Button::Left => 1,
        Button::Middle => 2,
        Button::Right => 4,
    }
}

/// Pressing a mouse button and letting it go leaves the other buttons as they were and that
/// button up; while it is held, its bit is set.
pub proof fn lemma_click_down_up(state: u8, button: Button)
    ensures
        (state | mouse_button_mask(button)) & !mouse_button_mask(button) == state & !mouse_button_mask(button),
        ((state | mouse_button_mask(button)) & !mouse_button_mask(button)) & mouse_button_mask(button) == 0,
        (state | mouse_button_mask(button)) & mouse_button_mask(button) == mouse_button_mask(button),
{
    let m = mouse_button_mask(button);
    assert((state | m) & !m == state & !m) by (bit_vector);
    assert(((state | m) & !m) & m == 0) by (bit_vector);
    assert((state | m) & m == m) by (bit_vector);
}

fn button_mask(button: Button) -> (r: u8)
    ensures
        r == mouse_button_mask(button),
{
    match button {
        Button::Left => 1,
        Button::Middle => 2,
        Button::Right => 4,
    }
}

/// The mouse device: a vector, the cursor position, the buttons held down and the last scroll.
pub struct MouseDevice {
    vector: [u8; 2],
    cursor_x: (u8, u8),
    cursor_y: (u8, u8),
    scroll_x: (u8, u8),
    scroll_y: (u8, u8),
    click_state: u8,
    access_log: Ghost<Seq<DeviceAccess>>,
}

impl MouseDevice {
    pub closed spec fn vector_hi(&self) -> u8 {
        self.vector@[0]
    }

    pub closed spec fn vector_lo(&self) -> u8 {
        self.vector@[1]
    }

    /// The bytes of ports 0x2 to 0xd, as the device reads them.
    pub closed spec fn port_value(&self, port: u8) -> u8 {
        if port == 0x0 {
            self.vector@[0]
        } else if port == 0x1 {
            self.vector@[1]
        } else if port == 0x2 {
            self.cursor_x.0
        } else if port == 0x3 {
            self.cursor_x.1
        } else if port == 0x4 {
            self.cursor_y.0
        } else if port == 0x5 {
            self.cursor_y.1
        } else if port == 0x6 {
            self.click_state
        } else if port == 0xa {
            self.scroll_x.0
        } else if port == 0xb {
            self.scroll_x.1
        } else if port == 0xc {
            self.scroll_y.0
        } else if port == 0xd {
            self.scroll_y.1
        } else {
            0
        }
    }

    pub fn new() -> (r: Self)
        ensures
            forall|port: u8| #[trigger] r.port_value(port) == 0,
    {
        MouseDevice {
            vector: [0u8; 2],
            cursor_x: (0, 0),
            cursor_y: (0, 0),
            scroll_x: (0, 0),
            scroll_y: (0, 0),
            click_state: 0,
            access_log: Ghost(Seq::empty()),
        }
    }

    pub fn read_vector(&self) -> (r: u16)
        ensures
            r == vector_of(self.vector_hi(), self.vector_lo()),
            r == vector_of(self.port_value(0x0), self.port_value(0x1)),
    {
        self.vector[0] as u16 * 256 + self.vector[1] as u16
    }

    /// Records the cursor position `(x, y)`, read back big endian at ports 0x2 to 0x5.
    pub fn notify_cursor_position(&mut self, cursor_pos: &[u16; 2])
        ensures
            final(self).port_value(0x2) == hi_byte(cursor_pos@[0]),
            final(self).port_value(0x3) == lo_byte(cursor_pos@[0]),
            final(self).port_value(0x4) == hi_byte(cursor_pos@[1]),
            final(self).port_value(0x5) == lo_byte(cursor_pos@[1]),
            forall|port: u8| !(0x2 <= port <= 0x5) ==> #[trigger] final(self).port_value(port) == old(self).port_value(port),
    {
        self.cursor_x = be_bytes(cursor_pos[0]);
        self.cursor_y = be_bytes(cursor_pos[1]);
    }

    pub fn notify_button_down(&mut self, button: Button)
        ensures
            final(self).port_value(0x6) == old(self).port_value(0x6) | mouse_button_mask(button),
            forall|port: u8| port != 0x6 ==> #[trigger] final(self).port_value(port) == old(self).port_value(port),
    {
        self.click_state = self.click_state | button_mask(button);
    }

    pub fn notify_button_up(&mut self, button: Button)
        ensures
            final(self).port_value(0x6) == old(self).port_value(0x6) & !mouse_button_mask(button),
            forall|port: u8| port != 0x6 ==> #[trigger] final(self).port_value(port) == old(self).port_value(port),
    {
        self.click_state = self.click_state & !button_mask(button);
    }

    /// Records a scroll of `(x, y)`, read back big endian in two's complement at ports 0xa to
    /// 0xd.
    pub fn notify_scroll(&mut self, distance: &[i16; 2])
        ensures
            final(self).port_value(0xa) == hi_byte(distance@[0] as u16),
            final(self).port_value(0xb) == lo_byte(distance@[0] as u16),
            final(self).port_value(0xc) == hi_byte(distance@[1] as u16),
            final(self).port_value(0xd) == lo_byte(distance@[1] as u16),
            forall|port: u8| !(0xa <= port <= 0xd) ==> #[trigger] final(self).port_value(port) == old(self).port_value(port),
    {
        self.scroll_x = be_bytes_signed(distance[0]);
        self.scroll_y = be_bytes_signed(distance[1]);
    }
}

/// What a write of `val` to `port` does to the mouse: ports 0 and 1 set its vector.
pub open spec fn mouse_write_post(old: &MouseDevice, new: &MouseDevice, port: u8, val: u8) -> bool {
    forall|p: u8| #[trigger] new.port_value(p) == (if p == port && port <= 1 { val } else { old.port_value(p) })
}

impl Device for MouseDevice {
    closed spec fn accesses(&self) -> Seq<DeviceAccess> {
        self.access_log@
    }

    fn write<M: MainRamInterface>(&mut self, port: u8, val: u8, main_ram: &mut M)
        ensures
            mouse_write_post(old(self), final(self), port, val),
            *final(main_ram) == *old(main_ram),
    {
        if port == 0 {
            self.vector[0] = val;
        } else if port == 1 {
            self.vector[1] = val;
        }
        self.access_log = Ghost(self.access_log@.push(DeviceAccess::Write(port, val)));
    }

    fn read(&mut self, port: u8) -> (r: u8)
        ensures
            r == old(self).port_value(port),
            forall|p: u8| #[trigger] final(self).port_value(p) == old(self).port_value(p),
    {
        let r = {
            if port == 0x0 {
                self.vector[0]
            } else if port == 0x1 {
                self.vector[1]
            } else if port == 0x2 {
                self.cursor_x.0
            } else if port == 0x3 {
                self.cursor_x.1
            } else if port == 0x4 {
                self.cursor_y.0
            } else if port == 0x5 {
                self.cursor_y.1
            } else if port == 0x6 {
                self.click_state
            } else if port == 0xa {
                self.scroll_x.0
            } else if port == 0xb {
                self.scroll_x.1
            } else if port == 0xc {
                self.scroll_y.0
            } else if port == 0xd {
                self.scroll_y.1
            } else {
                0
            }
        };
        self.access_log = Ghost(self.access_log@.push(DeviceAccess::Read(port, r)));
        r
    }
}

} // verus!
