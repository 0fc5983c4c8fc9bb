use vstd::prelude::*;

use crate::emulators::uxn::device::{Device, DeviceAccess, MainRamInterface};

verus! {

/// A byte written out as a character: bytes from 0x80 on are Latin-1 characters and take two
/// bytes in UTF-8.
pub open spec fn char_bytes(val: u8) -> Seq<u8> {
    if val < 0x80 {
        seq![val]
    } else {
        seq![(0xc0 | (val >> 6)) as u8, (0x80 | (val & 0x3f)) as u8]
    }
}

/// Appends the UTF-8 encoding of the character `val` to `out`.
pub fn push_char_bytes(out: &mut Vec<u8>, val: u8)
    ensures
        final(out)@ == old(out)@ + char_bytes(val),
{
    if val < 0x80 {
        out.push(val);
    } else {
        out.push(0xc0 | (val >> 6));
        out.push(0x80 | (val & 0x3f));
    }
    assert(final(out)@ =~= old(out)@ + char_bytes(val));
}

/// The vector of a device, from the two bytes of its first two ports.
pub open spec fn vector_of(hi: u8, lo: u8) -> u16 {
    (hi * 256 + lo) as u16
}

/// The console device: a vector called for each byte of input, the last input byte, and the
/// text written to standard output and standard error.
pub struct Console {
    vector: [u8; 2],
    received_input: u8,
    stdout_writer: Vec<u8>,
    stderr_writer: Vec<u8>,
    access_log: Ghost<Seq<DeviceAccess>>,
}

impl Console {
    pub closed spec fn vector_hi(&self) -> u8 {
        self.vector@[0]
    }

    pub closed spec fn vector_lo(&self) -> u8 {
        self.vector@[1]
    }

    pub closed spec fn input(&self) -> u8 {
        self.received_input
    }

    pub closed spec fn stdout(&self) -> Seq<u8> {
        self.stdout_writer@
    }

    pub closed spec fn stderr(&self) -> Seq<u8> {
        self.stderr_writer@
    }

    /// A console with a zero vector and no input, whose output goes after the text already in
    /// `stdout_writer` and `stderr_writer`.
    pub fn new(stdout_writer: Vec<u8>, stderr_writer: Vec<u8>) -> (r: Self)
        ensures
            r.vector_hi() == 0,
            r.vector_lo() == 0,
            r.input() == 0,
            r.stdout() == stdout_writer@,
            r.stderr() == stderr_writer@,
    {
        Console { vector: [0u8; 2], received_input: 0, stdout_writer, stderr_writer, access_log: Ghost(Seq::empty()) }
    }

    pub fn read_vector(&self) -> (r: u16)
        ensures
            r == vector_of(self.vector_hi(), self.vector_lo()),
    {
        self.vector[0] as u16 * 256 + self.vector[1] as u16
    }

    pub fn provide_input(&mut self, input: u8)
        ensures
            final(self).input() == input,
            final(self).vector_hi() == old(self).vector_hi(),
            final(self).vector_lo() == old(self).vector_lo(),
            final(self).stdout() == old(self).stdout(),
            final(self).stderr() == old(self).stderr(),
    {
        self.received_input = input;
    }

    /// Takes the text written to standard output so far.
    pub fn take_stdout(&mut self) -> (r: Vec<u8>)
        ensures
            r@ == old(self).stdout(),
            final(self).stdout() == Seq::<u8>::empty(),
            final(self).stderr() == old(self).stderr(),
            final(self).input() == old(self).input(),
            final(self).vector_hi() == old(self).vector_hi(),
            final(self).vector_lo() == old(self).vector_lo(),
    {
        let mut out: Vec<u8> = Vec::new();
        std::mem::swap(&mut out, &mut self.stdout_writer);
        out
    }

    /// Takes the text written to standard error so far.
    pub fn take_stderr(&mut self) -> (r: Vec<u8>)
        ensures
            r@ == old(self).stderr(),
            final(self).stderr() == Seq::<u8>::empty(),
            final(self).stdout() == old(self).stdout(),
            final(self).input() == old(self).input(),
            final(self).vector_hi() == old(self).vector_hi(),
            final(self).vector_lo() == old(self).vector_lo(),
    {
        let mut out: Vec<u8> = Vec::new();
        std::mem::swap(&mut out, &mut self.stderr_writer);
        out
    }
}

/// What a write of `val` to `port` does to the console: ports 0 and 1 set the vector, port 8
/// writes a character to standard output and port 9 one to standard error.
pub open spec fn console_write_post(old: &Console, new: &Console, port: u8, val: u8) -> bool {
    &&& new.input() == old.input()
    &&& new.vector_hi() == (if port == 0 { val } else { old.vector_hi() })
    &&& new.vector_lo() == (if port == 1 { val } else { old.vector_lo() })
    &&& new.stdout() == old.stdout() + (if port == 8 { char_bytes(val) } else { Seq::empty() })
    &&& new.stderr() == old.stderr() + (if port == 9 { char_bytes(val) } else { Seq::empty() })
}

impl Device for Console {
    closed spec fn accesses(&self) -> Seq<DeviceAccess> {
        self.access_log@
    }

    fn write<M: MainRamInterface>(&mut self, port: u8, val: u8, main_ram: &mut M)
        ensures
            console_write_post(old(self), final(self), port, val),
            *final(main_ram) == *old(main_ram),
    {
        if port == 0 {
            self.vector[0] = val;
        } else if port == 1 {
            self.vector[1] = val;
        } else if port == 8 {
            push_char_bytes(&mut self.stdout_writer, val);
        } else if port == 9 {
            push_char_bytes(&mut self.stderr_writer, val);
        }
        assert(self.stdout_writer@ =~= old(self).stdout_writer@ + (if port == 8 { char_bytes(val) } else { Seq::empty() }));
        assert(self.stderr_writer@ =~= old(self).stderr_writer@ + (if port == 9 { char_bytes(val) } else { Seq::empty() }));
        self.access_log = Ghost(self.access_log@.push(DeviceAccess::Write(port, val)));
    }

    fn read(&mut self, port: u8) -> (r: u8)
        ensures
            r == (if port == 0 {
                old(self).vector_hi()
            } else if port == 1 {
                old(self).vector_lo()
            } else if port == 2 {
                old(self).input()
            } else {
                0
            }),
            final(self).vector_hi() == old(self).vector_hi(),
            final(self).vector_lo() == old(self).vector_lo(),
            final(self).input() == old(self).input(),
            final(self).stdout() == old(self).stdout(),
            final(self).stderr() == old(self).stderr(),
    {
        let r = {
            if port == 0 {
                self.vector[0]
            } else if port == 1 {
                self.vector[1]
            } else if port == 2 {
                self.received_input
            } else {
                0
            }
        };
        self.access_log = Ghost(self.access_log@.push(DeviceAccess::Read(port, r)));
        r
    }
}

} // verus!
