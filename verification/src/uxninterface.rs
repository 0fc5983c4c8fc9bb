use vstd::prelude::*;

verus! {

/// Number of bytes that each of the two stacks can hold. The stack index is a byte, so a stack
/// never holds more than this many values.
pub const STACK_CAPACITY: usize = 255;

/// Size of the main memory of the machine, addressed by a 16 bit address.
pub const RAM_SIZE: usize = 0x10000;

#[derive(Debug, PartialEq, Eq, Clone, Copy, Structural)]
pub enum UxnError {
    OutOfRangeMemoryAddress,
    StackUnderflow,
    StackOverflow,
    UnrecognisedDevice,
}

impl UxnError {
    /// Human readable description of the error.
    pub fn message(&self) -> (s: &'static str)
        ensures
            s@ == match self {
                UxnError::OutOfRangeMemoryAddress => "attempt to access out of range memory address"@,
                UxnError::StackUnderflow => "stack underflow encountered"@,
                UxnError::StackOverflow => "stack overflow encountered"@,
                UxnError::UnrecognisedDevice => "unrecognised device targeted for read/write"@,
            },
    {
        match self {
            UxnError::OutOfRangeMemoryAddress => "attempt to access out of range memory address",
            UxnError::StackUnderflow => "stack underflow encountered",
            UxnError::StackOverflow => "stack overflow encountered",
            UxnError::UnrecognisedDevice => "unrecognised device targeted for read/write",
        }
    }
}

#[derive(Debug, PartialEq, Eq, Clone, Copy, Structural)]
pub enum UxnStatus {
    Halt,
    Terminate,
    /// The run was cut off after `u64::MAX` instruction bytes without halting.
    StepLimit,
}

/// The stack that results from pushing `b` onto `s`: unchanged when the stack is full.
pub open spec fn spec_push(s: Seq<u8>, b: u8) -> Seq<u8> {
    if s.len() < STACK_CAPACITY {
        s.push(b)
    } else {
        s
    }
}

/// Program counter after reading the byte at `p`: reading the last byte of memory leaves the
/// program counter out of range.
pub open spec fn next_pc(p: u16) -> Option<u16> {
    if p == u16::MAX {
        None
    } else {
        Some((p + 1) as u16)
    }
}

/// Nothing of the machine's model differs between `a` and `b`, except possibly the stacks.
pub open spec fn same_except_stacks<U: UxnState>(a: &U, b: &U) -> bool {
    &&& a.ram() == b.ram()
    &&& a.pc() == b.pc()
    &&& a.device_writes() == b.device_writes()
    &&& a.device_reads() == b.device_reads()
}

/// Nothing of the machine's model differs between `a` and `b`.
pub open spec fn same_state<U: UxnState>(a: &U, b: &U) -> bool {
    &&& same_except_stacks(a, b)
    &&& a.wst() == b.wst()
    &&& a.rst() == b.rst()
}

/// What can be seen of a uxn machine's state: main memory, a program counter, two stacks, and
/// the device accesses made so far, recorded in two histories so that instructions can state
/// which accesses they make.
pub trait UxnState {
    /// The implementation's own invariant, which implies the bounds of `lemma_ok_bounds`.
    spec fn ok(&self) -> bool;

    spec fn ram(&self) -> Seq<u8>;

    /// `None` once the program counter has moved past the end of memory.
    spec fn pc(&self) -> Option<u16>;

    spec fn wst(&self) -> Seq<u8>;

    spec fn rst(&self) -> Seq<u8>;

    /// Every (device address, value) written to a device so far.
    spec fn device_writes(&self) -> Seq<(u8, u8)>;

    /// Every (device address, value) successfully read from a device so far.
    spec fn device_reads(&self) -> Seq<(u8, u8)>;

}

/// A snapshot of what can be seen of a machine's state.
pub struct UxnModel {
    pub ram: Seq<u8>,
    pub pc: Option<u16>,
    pub wst: Seq<u8>,
    pub rst: Seq<u8>,
    pub device_writes: Seq<(u8, u8)>,
    pub device_reads: Seq<(u8, u8)>,
}

impl UxnState for UxnModel {
    /// A snapshot is sound where its memory has the machine's size and its stacks fit.
    open spec fn ok(&self) -> bool {
        &&& self.ram.len() == RAM_SIZE
        &&& self.wst.len() <= STACK_CAPACITY
        &&& self.rst.len() <= STACK_CAPACITY
    }

    open spec fn ram(&self) -> Seq<u8> {
        self.ram
    }

    open spec fn pc(&self) -> Option<u16> {
        self.pc
    }

    open spec fn wst(&self) -> Seq<u8> {
        self.wst
    }

    open spec fn rst(&self) -> Seq<u8> {
        self.rst
    }

    open spec fn device_writes(&self) -> Seq<(u8, u8)> {
        self.device_writes
    }

    open spec fn device_reads(&self) -> Seq<(u8, u8)> {
        self.device_reads
    }
}

/// The snapshot of the state of `u`.
pub open spec fn model_of<U: UxnState>(u: &U) -> UxnModel {
    UxnModel {
        ram: u.ram(),
        pc: u.pc(),
        wst: u.wst(),
        rst: u.rst(),
        device_writes: u.device_writes(),
        device_reads: u.device_reads(),
    }
}

/// `m` after the byte at `pc` has been read as an instruction: the program counter has moved
/// past it.
pub open spec fn fetched(m: UxnModel, pc: u16) -> UxnModel {
    UxnModel { pc: next_pc(pc), ..m }
}

/// A uxn machine, with the operations that instructions use.
pub trait Uxn: UxnState + Sized {
    proof fn lemma_ok_bounds(&self)
        requires
            self.ok(),
        ensures
            self.ram().len() == RAM_SIZE,
            self.wst().len() <= STACK_CAPACITY,
            self.rst().len() <= STACK_CAPACITY,
    ;

    fn read_next_byte_from_ram(&mut self) -> (r: Result<u8, UxnError>)
        requires
            old(self).ok(),
        ensures
            final(self).ok(),
            final(self).ram() == old(self).ram(),
            final(self).wst() == old(self).wst(),
            final(self).rst() == old(self).rst(),
            final(self).device_writes() == old(self).device_writes(),
            final(self).device_reads() == old(self).device_reads(),
            match old(self).pc() {
                None => {
                    &&& r == Err::<u8, UxnError>(UxnError::OutOfRangeMemoryAddress)
                    &&& final(self).pc() == old(self).pc()
                },
                Some(p) => {
                    &&& r == Ok::<u8, UxnError>(old(self).ram()[p as int])
                    &&& final(self).pc() == next_pc(p)
                },
            },
    ;

    fn read_from_ram(&self, addr: u16) -> (r: u8)
        requires
            self.ok(),
        ensures
            r == self.ram()[addr as int],
    ;

    fn write_to_ram(&mut self, addr: u16, val: u8)
        requires
            old(self).ok(),
        ensures
            final(self).ok(),
            final(self).ram() == old(self).ram().update(addr as int, val),
            final(self).pc() == old(self).pc(),
            final(self).wst() == old(self).wst(),
            final(self).rst() == old(self).rst(),
            final(self).device_writes() == old(self).device_writes(),
            final(self).device_reads() == old(self).device_reads(),
    ;

    fn get_program_counter(&self) -> (r: Result<u16, UxnError>)
        requires
            self.ok(),
        ensures
            match self.pc() {
                None => r == Err::<u16, UxnError>(UxnError::OutOfRangeMemoryAddress),
                Some(p) => r == Ok::<u16, UxnError>(p),
            },
    ;

    fn set_program_counter(&mut self, addr: u16)
        requires
            old(self).ok(),
        ensures
            final(self).ok(),
            final(self).pc() == Some(addr),
            final(self).ram() == old(self).ram(),
            final(self).wst() == old(self).wst(),
            final(self).rst() == old(self).rst(),
            final(self).device_writes() == old(self).device_writes(),
            final(self).device_reads() == old(self).device_reads(),
    ;

    fn push_to_return_stack(&mut self, byte: u8) -> (r: Result<(), UxnError>)
        requires
            old(self).ok(),
        ensures
            final(self).ok(),
            final(self).ram() == old(self).ram(),
            final(self).pc() == old(self).pc(),
            final(self).device_writes() == old(self).device_writes(),
            final(self).device_reads() == old(self).device_reads(),
            final(self).wst() == old(self).wst(),
            final(self).rst() == spec_push(old(self).rst(), byte),
            r == (if old(self).rst().len() < STACK_CAPACITY {
                Ok::<(), UxnError>(())
            } else {
                Err::<(), UxnError>(UxnError::StackOverflow)
            }),
    ;

    fn push_to_working_stack(&mut self, byte: u8) -> (r: Result<(), UxnError>)
        requires
            old(self).ok(),
        ensures
            final(self).ok(),
            final(self).ram() == old(self).ram(),
            final(self).pc() == old(self).pc(),
            final(self).device_writes() == old(self).device_writes(),
            final(self).device_reads() == old(self).device_reads(),
            final(self).rst() == old(self).rst(),
            final(self).wst() == spec_push(old(self).wst(), byte),
            r == (if old(self).wst().len() < STACK_CAPACITY {
                Ok::<(), UxnError>(())
            } else {
                Err::<(), UxnError>(UxnError::StackOverflow)
            }),
    ;

    fn pop_from_working_stack(&mut self) -> (r: Result<u8, UxnError>)
        requires
            old(self).ok(),
        ensures
            final(self).ok(),
            final(self).ram() == old(self).ram(),
            final(self).pc() == old(self).pc(),
            final(self).device_writes() == old(self).device_writes(),
            final(self).device_reads() == old(self).device_reads(),
            final(self).rst() == old(self).rst(),
            if old(self).wst().len() > 0 {
                &&& r == Ok::<u8, UxnError>(old(self).wst().last())
                &&& final(self).wst() == old(self).wst().drop_last()
            } else {
                &&& r == Err::<u8, UxnError>(UxnError::StackUnderflow)
                &&& final(self).wst() == old(self).wst()
            },
    ;

    fn pop_from_return_stack(&mut self) -> (r: Result<u8, UxnError>)
        requires
            old(self).ok(),
        ensures
            final(self).ok(),
            final(self).ram() == old(self).ram(),
            final(self).pc() == old(self).pc(),
            final(self).device_writes() == old(self).device_writes(),
            final(self).device_reads() == old(self).device_reads(),
            final(self).wst() == old(self).wst(),
            if old(self).rst().len() > 0 {
                &&& r == Ok::<u8, UxnError>(old(self).rst().last())
                &&& final(self).rst() == old(self).rst().drop_last()
            } else {
                &&& r == Err::<u8, UxnError>(UxnError::StackUnderflow)
                &&& final(self).rst() == old(self).rst()
            },
    ;
}

/// A uxn machine connected to devices.
pub trait UxnWithDevices: Uxn {
    fn read_from_device(&mut self, device_address: u8) -> (r: Result<u8, UxnError>)
        requires
            old(self).ok(),
        ensures
            final(self).ok(),
            final(self).ram() == old(self).ram(),
            final(self).pc() == old(self).pc(),
            final(self).wst() == old(self).wst(),
            final(self).rst() == old(self).rst(),
            final(self).device_writes() == old(self).device_writes(),
            match r {
                Ok(v) => final(self).device_reads() == old(self).device_reads().push((device_address, v)),
                Err(_) => final(self).device_reads() == old(self).device_reads(),
            },
    ;

    /// A device may change the machine's memory, but never its program counter; only a write
    /// to a stack index port of the system device (port 0x2 or 0x3) changes the stacks.
    fn write_to_device(&mut self, device_address: u8, val: u8)
        requires
            old(self).ok(),
        ensures
            final(self).ok(),
            final(self).pc() == old(self).pc(),
            (device_address % 16 != 0x2 && device_address % 16 != 0x3) ==> final(self).wst() == old(self).wst()
                && final(self).rst() == old(self).rst(),
            final(self).device_writes() == old(self).device_writes().push((device_address, val)),
            final(self).device_reads() == old(self).device_reads(),
    ;
}

} // verus!
