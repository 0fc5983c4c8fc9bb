use vstd::prelude::*;

use crate::emulators::uxn::device::{Device, DeviceAccess, MainRamInterface};
use crate::uxninterface::{Uxn, UxnState};

verus! {

/// The six system colour bytes: each pair of nibbles across a red, green and blue byte gives
/// one of the four screen colours.
#[derive(Debug, PartialEq, Eq, Clone, Copy)]
pub enum UxnSystemColor {
    Red1,
    Red2,
    Green1,
    Green2,
    Blue1,
    Blue2,
}

/// Position of a colour byte among the six system colour bytes.
pub open spec fn color_slot(c: UxnSystemColor) -> int {
    match c {
        UxnSystemColor::Red1 => 0,
        UxnSystemColor::Red2 => 1,
        UxnSystemColor::Green1 => 2,
        UxnSystemColor::Green2 => 3,
        UxnSystemColor::Blue1 => 4,
        UxnSystemColor::Blue2 => 5,
    }
}

/// A stack after its index byte has been set to `n`: cut to `n` bytes, or grown with zeros.
pub open spec fn resized(s: Seq<u8>, n: nat) -> Seq<u8> {
    if n <= s.len() {
        s.take(n as int)
    } else {
        s + Seq::new((n - s.len()) as nat, |i: int| 0u8)
    }
}

/// The machine state that the system device reads and changes.
pub trait UxnSystemInterface: Uxn {
    spec fn system_colors(&self) -> Seq<u8>;

    /// Whether a program has asked the machine to stop.
    spec fn terminating(&self) -> bool;

    proof fn lemma_system_colors_len(&self)
        requires
            self.ok(),
        ensures
            self.system_colors().len() == 6,
    ;

    fn set_working_stack_index(&mut self, index: u8)
        ensures
            old(self).ok() ==> final(self).ok(),
            final(self).wst() == resized(old(self).wst(), index as nat),
            final(self).rst() == old(self).rst(),
            final(self).ram() == old(self).ram(),
            final(self).pc() == old(self).pc(),
            final(self).device_writes() == old(self).device_writes(),
            final(self).device_reads() == old(self).device_reads(),
            final(self).system_colors() == old(self).system_colors(),
            final(self).terminating() == old(self).terminating(),
    ;

    fn get_working_stack_index(&self) -> (r: u8)
        ensures
            r == self.wst().len() as u8,
    ;

    fn set_return_stack_index(&mut self, index: u8)
        ensures
            old(self).ok() ==> final(self).ok(),
            final(self).rst() == resized(old(self).rst(), index as nat),
            final(self).wst() == old(self).wst(),
            final(self).ram() == old(self).ram(),
            final(self).pc() == old(self).pc(),
            final(self).device_writes() == old(self).device_writes(),
            final(self).device_reads() == old(self).device_reads(),
            final(self).system_colors() == old(self).system_colors(),
            final(self).terminating() == old(self).terminating(),
    ;

    fn get_return_stack_index(&self) -> (r: u8)
        ensures
            r == self.rst().len() as u8,
    ;

    fn set_system_color(&mut self, slot: UxnSystemColor, val: u8)
        ensures
            old(self).ok() ==> final(self).ok(),
            final(self).system_colors() == old(self).system_colors().update(color_slot(slot), val),
            final(self).wst() == old(self).wst(),
            final(self).rst() == old(self).rst(),
            final(self).ram() == old(self).ram(),
            final(self).pc() == old(self).pc(),
            final(self).device_writes() == old(self).device_writes(),
            final(self).device_reads() == old(self).device_reads(),
            final(self).terminating() == old(self).terminating(),
    ;

    fn get_system_color(&self, slot: UxnSystemColor) -> (r: u8)
        ensures
            r == self.system_colors()[color_slot(slot)],
    ;

    fn start_termination(&mut self)
        ensures
            old(self).ok() ==> final(self).ok(),
            final(self).terminating(),
            final(self).wst() == old(self).wst(),
            final(self).rst() == old(self).rst(),
            final(self).ram() == old(self).ram(),
            final(self).pc() == old(self).pc(),
            final(self).device_writes() == old(self).device_writes(),
            final(self).device_reads() == old(self).device_reads(),
            final(self).system_colors() == old(self).system_colors(),
    ;

    fn get_working_stack(&self) -> (r: &[u8])
        ensures
            r@ == self.wst(),
    ;

    fn get_return_stack(&self) -> (r: &[u8])
        ensures
            r@ == self.rst(),
    ;
}

/// The colour byte that a system device port names, if it names one.
pub open spec fn port_color(port: u8) -> Option<UxnSystemColor> {
    if port == 0x8 {
        Some(UxnSystemColor::Red1)
    } else if port == 0x9 {
        Some(UxnSystemColor::Red2)
    } else if port == 0xa {
        Some(UxnSystemColor::Green1)
    } else if port == 0xb {
        Some(UxnSystemColor::Green2)
    } else if port == 0xc {
        Some(UxnSystemColor::Blue1)
    } else if port == 0xd {
        Some(UxnSystemColor::Blue2)
    } else {
        None
    }
}

/// Lower case hexadecimal digit of a value below sixteen, as an ASCII byte.
pub open spec fn hex_digit(n: u8) -> u8 {
    if n < 10 {
        (0x30 + n) as u8
    } else {
        (0x57 + n) as u8
    }
}

/// A byte written as two lower case hexadecimal digits.
pub open spec fn hex_byte(b: u8) -> Seq<u8> {
    seq![hex_digit(b / 16), hex_digit(b % 16)]
}

/// The bytes of a stack written in hexadecimal, separated by single spaces.
pub open spec fn hex_list(s: Seq<u8>) -> Seq<u8>
    decreases s.len(),
{
    if s.len() == 0 {
        Seq::empty()
    } else if s.len() == 1 {
        hex_byte(s[0])
    } else {
        hex_list(s.drop_last()) + seq![0x20u8] + hex_byte(s.last())
    }
}

/// The debug text of the system device: `<wst> ` and the working stack on one line,
/// `<rst> ` and the return stack on the next.
pub open spec fn debug_text(wst: Seq<u8>, rst: Seq<u8>) -> Seq<u8> {
    seq![0x3cu8, 0x77u8, 0x73u8, 0x74u8, 0x3eu8, 0x20u8] + hex_list(wst) + seq![0x0au8]
        + seq![0x3cu8, 0x72u8, 0x73u8, 0x74u8, 0x3eu8, 0x20u8] + hex_list(rst) + seq![0x0au8]
}

/// What a read of the system device at `port` gives: a stack index, a colour byte, or zero.
pub open spec fn system_read_value<J: UxnSystemInterface>(uxn: &J, port: u8) -> u8 {
    if port == 0x2 {
        uxn.wst().len() as u8
    } else if port == 0x3 {
        uxn.rst().len() as u8
    } else if let Some(c) = port_color(port) {
        uxn.system_colors()[color_slot(c)]
    } else {
        0
    }
}

/// What a write of `val` to the system device at `port` does to the machine: set a stack
/// index, set a colour byte, or ask the machine to stop; any other port changes nothing.
pub open spec fn system_write_post<J: UxnSystemInterface>(old: &J, new: &J, port: u8, val: u8) -> bool {
    &&& new.ram() == old.ram()
    &&& new.pc() == old.pc()
    &&& new.device_writes() == old.device_writes()
    &&& new.device_reads() == old.device_reads()
    &&& new.wst() == (if port == 0x2 { resized(old.wst(), val as nat) } else { old.wst() })
    &&& new.rst() == (if port == 0x3 { resized(old.rst(), val as nat) } else { old.rst() })
    &&& new.system_colors() == (match port_color(port) {
        Some(c) => old.system_colors().update(color_slot(c), val),
        None => old.system_colors(),
    })
    &&& new.terminating() == (old.terminating() || port == 0xf)
}

/// Reading a system port that was just written gives back what was written: a stack index is
/// the new depth of that stack, and a colour byte is the byte stored.
pub proof fn lemma_system_write_then_read<J: UxnSystemInterface>(old: &J, new: &J, port: u8, val: u8)
    requires
        old.ok(),
        new.ok(),
        system_write_post(old, new, port, val),
        port == 0x2 || port == 0x3 || port_color(port) is Some,
    ensures
        system_read_value(new, port) == val,
{
    old.lemma_system_colors_len();
    new.lemma_system_colors_len();
}

/// The lower case hexadecimal digit of a number below sixteen.
pub fn hex_digit_exec(n: u8) -> (r: u8)
    requires
        n < 16,
    ensures
        r == hex_digit(n),
{
    if n < 10 {
        0x30 + n
    } else {
        0x57 + n
    }
}

/// Appends the bytes of `s` to `out` in hexadecimal, separated by single spaces.
pub fn push_hex_list(out: &mut Vec<u8>, s: &[u8])
    ensures
        final(out)@ == old(out)@ + hex_list(s@),
{
    let mut i: usize = 0;
    while i < s.len()
        invariant
            i <= s.len(),
            out@ == old(out)@ + hex_list(s@.take(i as int)),
        decreases s.len() - i,
    {
        let ghost before = out@;
        if i > 0 {
            out.push(0x20u8);
        }
        let b = s[i];
        out.push(hex_digit_exec(b / 16));
        out.push(hex_digit_exec(b % 16));
        proof {
            let t = s@.take(i as int + 1);
            assert(t.drop_last() =~= s@.take(i as int));
            assert(t.last() == b);
            if i == 0 {
                assert(t.len() == 1);
                assert(t[0] == b);
            }
            assert(out@ =~= old(out)@ + hex_list(t));
        }
        i = i + 1;
    }
    assert(s@.take(s.len() as int) =~= s@);
}

/// The debug text for the given stacks.
pub fn format_debug(wst: &[u8], rst: &[u8]) -> (r: Vec<u8>)
    ensures
        r@ == debug_text(wst@, rst@),
{
    let mut out: Vec<u8> = Vec::new();
    out.push(0x3c);
    out.push(0x77);
    out.push(0x73);
    out.push(0x74);
    out.push(0x3e);
    out.push(0x20);
    push_hex_list(&mut out, wst);
    out.push(0x0a);
    out.push(0x3c);
    out.push(0x72);
    out.push(0x73);
    out.push(0x74);
    out.push(0x3e);
    out.push(0x20);
    push_hex_list(&mut out, rst);
    out.push(0x0a);
    assert(out@ =~= debug_text(wst@, rst@));
    out
}

fn port_color_exec(port: u8) -> (r: Option<UxnSystemColor>)
    ensures
        r == port_color(port),
{
    if port == 0x8 {
        Some(UxnSystemColor::Red1)
    } else if port == 0x9 {
        Some(UxnSystemColor::Red2)
    } else if port == 0xa {
        Some(UxnSystemColor::Green1)
    } else if port == 0xb {
        Some(UxnSystemColor::Green2)
    } else if port == 0xc {
        Some(UxnSystemColor::Blue1)
    } else if port == 0xd {
        Some(UxnSystemColor::Blue2)
    } else {
        None
    }
}

/// Carries out a write of `val` to the system device at `port`, and gives back the debug text
/// that the write prints: the stacks for port `0xe`, nothing for any other port.
pub fn system_write<J: UxnSystemInterface>(uxn: &mut J, port: u8, val: u8) -> (debug: Vec<u8>)
    requires
        port <= 0xf,
    ensures
        old(uxn).ok() ==> final(uxn).ok(),
        system_write_post(old(uxn), final(uxn), port, val),
        debug@ == (if port == 0xe { debug_text(old(uxn).wst(), old(uxn).rst()) } else { Seq::empty() }),
{
    if port == 0x2 {
        uxn.set_working_stack_index(val);
    } else if port == 0x3 {
        uxn.set_return_stack_index(val);
    } else if port == 0xe {
        let text = format_debug(uxn.get_working_stack(), uxn.get_return_stack());
        return text;
    } else if port == 0xf {
        uxn.start_termination();
    } else {
        match port_color_exec(port) {
            Some(c) => uxn.set_system_color(c, val),
            None => {},
        }
    }
    Vec::new()
}

/// Reads the system device at `port`.
pub fn system_read<J: UxnSystemInterface>(uxn: &J, port: u8) -> (r: u8)
    requires
        port <= 0xf,
    ensures
        r == system_read_value(uxn, port),
{
    if port == 0x2 {
        uxn.get_working_stack_index()
    } else if port == 0x3 {
        uxn.get_return_stack_index()
    } else {
        match port_color_exec(port) {
            Some(c) => uxn.get_system_color(c),
            None => 0,
        }
    }
}

/// The system device of a machine, which keeps the debug text that it prints.
pub struct System<J: UxnSystemInterface> {
    pub uxn: J,
    pub debug_writer: Vec<u8>,
    /// The accesses made to the system device so far.
    pub access_log: Ghost<Seq<DeviceAccess>>,
}

impl<J: UxnSystemInterface> System<J> {
    pub fn new(uxn: J, debug_writer: Vec<u8>) -> (r: Self)
        ensures
            r.uxn == uxn,
            r.debug_writer == debug_writer,
    {
        System { uxn, debug_writer, access_log: Ghost(Seq::empty()) }
    }
}

impl<J: UxnSystemInterface> Device for System<J> {
    open spec fn accesses(&self) -> Seq<DeviceAccess> {
        self.access_log@
    }

    fn write<M: MainRamInterface>(&mut self, port: u8, val: u8, main_ram: &mut M)
        ensures
            old(self).uxn.ok() ==> final(self).uxn.ok(),
            system_write_post(&old(self).uxn, &final(self).uxn, port, val),
            final(self).debug_writer@ == old(self).debug_writer@ + (if port == 0xe {
                debug_text(old(self).uxn.wst(), old(self).uxn.rst())
            } else {
                Seq::empty()
            }),
    {
        let ghost log = self.access_log@;
        let text = system_write(&mut self.uxn, port, val);
        let ghost machine = self.uxn;
        let mut i: usize = 0;
        while i < text.len()
            invariant
                i <= text.len(),
                self.debug_writer@ == old(self).debug_writer@ + text@.take(i as int),
                self.uxn == machine,
            decreases text.len() - i,
        {
            self.debug_writer.push(text[i]);
            assert(text@.take(i as int + 1) =~= text@.take(i as int).push(text[i as int]));
            i = i + 1;
        }
        assert(text@.take(text.len() as int) =~= text@);
        self.access_log = Ghost(log.push(DeviceAccess::Write(port, val)));
    }

    fn read(&mut self, port: u8) -> (r: u8)
        ensures
            r == system_read_value(&old(self).uxn, port),
            final(self).uxn == old(self).uxn,
            final(self).debug_writer == old(self).debug_writer,
    {
        let r = system_read(&self.uxn, port);
        self.access_log = Ghost(self.access_log@.push(DeviceAccess::Read(port, r)));
        r
    }
}

} // verus!
