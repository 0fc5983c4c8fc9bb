pub mod device;

use vstd::prelude::*;

use crate::emulators::devices::screen::UxnSystemScreenInterface;
use crate::emulators::devices::system::{
    color_slot, resized, system_read, system_read_value, system_write, UxnSystemColor, UxnSystemInterface,
};
use crate::instruction::{Instruction, InstructionFactory};
use crate::uxninterface::{
    fetched, model_of, next_pc, Uxn, UxnError, UxnModel, UxnState, UxnStatus, UxnWithDevices, RAM_SIZE, STACK_CAPACITY,
};
use device::{
    DeviceList, DeviceReadReturnCode, DeviceWriteReturnCode,
    MainRamInterface, MainRamInterfaceError,
};

verus! {

/// Address at which a program is loaded and first run.
pub const INIT_VECTOR: u16 = 0x100;

/// Memory after loading `rom`: the program from the initial vector on, cut at the end of
/// memory, and zeros everywhere else.
pub open spec fn loaded_ram(rom: Seq<u8>) -> Seq<u8> {
    Seq::new(
        RAM_SIZE as nat,
        |i: int|
            if INIT_VECTOR <= i < INIT_VECTOR + rom.len() {
                rom[i - INIT_VECTOR]
            } else {
                0u8
            },
    )
}

/// Position of a colour byte, as an index into the colour array.
fn color_index(c: UxnSystemColor) -> (r: usize)
    ensures
        r == color_slot(c),
        r < 6,
{
    match c {
        UxnSystemColor::Red1 => 0,
        UxnSystemColor::Red2 => 1,
        UxnSystemColor::Green1 => 2,
        UxnSystemColor::Green2 => 3,
        UxnSystemColor::Blue1 => 4,
        UxnSystemColor::Blue2 => 5,
    }
}

/// The state of a machine: memory, program counter, stacks, system colours, and whether a
/// program has asked it to stop.
struct UxnCore {
    ram: Vec<u8>,
    program_counter: Option<u16>,
    working_stack: Vec<u8>,
    return_stack: Vec<u8>,
    system_colors: [u8; 6],
    should_terminate: bool,
}

impl UxnCore {
    /// A core with no memory, held while the real one is lent out to a run.
    fn empty() -> (r: Self)
        ensures
            r.ram@ == Seq::<u8>::empty(),
            r.program_counter == None::<u16>,
            r.working_stack@ == Seq::<u8>::empty(),
            r.return_stack@ == Seq::<u8>::empty(),
            r.system_colors@ == Seq::new(6, |i: int| 0u8),
            !r.should_terminate,
    {
        let r = UxnCore {
            ram: Vec::new(),
            program_counter: None,
            working_stack: Vec::new(),
            return_stack: Vec::new(),
            system_colors: [0u8; 6],
            should_terminate: false,
        };
        assert(r.system_colors@ =~= Seq::new(6, |i: int| 0u8));
        r
    }
}

impl UxnState for UxnCore {
    closed spec fn ok(&self) -> bool {
        &&& self.ram@.len() == RAM_SIZE
        &&& self.working_stack@.len() <= STACK_CAPACITY
        &&& self.return_stack@.len() <= STACK_CAPACITY
    }

    closed spec fn ram(&self) -> Seq<u8> {
        self.ram@
    }

    closed spec fn pc(&self) -> Option<u16> {
        self.program_counter
    }

    closed spec fn wst(&self) -> Seq<u8> {
        self.working_stack@
    }

    closed spec fn rst(&self) -> Seq<u8> {
        self.return_stack@
    }

    closed spec fn device_writes(&self) -> Seq<(u8, u8)> {
        Seq::empty()
    }

    closed spec fn device_reads(&self) -> Seq<(u8, u8)> {
        Seq::empty()
    }
}

impl Uxn for UxnCore {
    proof fn lemma_ok_bounds(&self) {
    }

    fn read_next_byte_from_ram(&mut self) -> (r: Result<u8, UxnError>)
        ensures
            final(self).terminating() == old(self).terminating(),
            final(self).system_colors() == old(self).system_colors(),
    {
        match self.program_counter {
            None => Err(UxnError::OutOfRangeMemoryAddress),
            Some(p) => {
                let b = self.ram[p as usize];
                if p == u16::MAX {
                    self.program_counter = None;
                } else {
                    self.program_counter = Some(p + 1);
                }
                Ok(b)
            },
        }
    }

    fn read_from_ram(&self, addr: u16) -> (r: u8) {
        self.ram[addr as usize]
    }

    fn write_to_ram(&mut self, addr: u16, val: u8) {
        self.ram.set(addr as usize, val);
    }

    fn get_program_counter(&self) -> (r: Result<u16, UxnError>) {
        match self.program_counter {
            None => Err(UxnError::OutOfRangeMemoryAddress),
            Some(p) => Ok(p),
        }
    }

    fn set_program_counter(&mut self, addr: u16)
        ensures
            final(self).terminating() == old(self).terminating(),
            final(self).system_colors() == old(self).system_colors(),
    {
        self.program_counter = Some(addr);
    }

    fn push_to_return_stack(&mut self, byte: u8) -> (r: Result<(), UxnError>) {
        if self.return_stack.len() < STACK_CAPACITY {
            self.return_stack.push(byte);
            Ok(())
        } else {
            Err(UxnError::StackOverflow)
        }
    }

    fn push_to_working_stack(&mut self, byte: u8) -> (r: Result<(), UxnError>) {
        if self.working_stack.len() < STACK_CAPACITY {
            self.working_stack.push(byte);
            Ok(())
        } else {
            Err(UxnError::StackOverflow)
        }
    }

    fn pop_from_working_stack(&mut self) -> (r: Result<u8, UxnError>) {
        match self.working_stack.pop() {
            Some(b) => Ok(b),
            None => Err(UxnError::StackUnderflow),
        }
    }

    fn pop_from_return_stack(&mut self) -> (r: Result<u8, UxnError>) {
        match self.return_stack.pop() {
            Some(b) => Ok(b),
            None => Err(UxnError::StackUnderflow),
        }
    }
}

impl UxnSystemInterface for UxnCore {
    closed spec fn system_colors(&self) -> Seq<u8> {
        self.system_colors@
    }

    closed spec fn terminating(&self) -> bool {
        self.should_terminate
    }

    proof fn lemma_system_colors_len(&self) {
    }

    fn set_working_stack_index(&mut self, index: u8) {
        self.working_stack.resize(index as usize, 0u8);
        assert(self.working_stack@ =~= resized(old(self).working_stack@, index as nat));
    }

    fn get_working_stack_index(&self) -> (r: u8) {
        self.working_stack.len() as u8
    }

    fn set_return_stack_index(&mut self, index: u8) {
        self.return_stack.resize(index as usize, 0u8);
        assert(self.return_stack@ =~= resized(old(self).return_stack@, index as nat));
    }

    fn get_return_stack_index(&self) -> (r: u8) {
        self.return_stack.len() as u8
    }

    fn set_system_color(&mut self, slot: UxnSystemColor, val: u8) {
        let i = color_index(slot);
        self.system_colors[i] = val;
        assert(self.system_colors@ =~= old(self).system_colors@.update(color_slot(slot), val));
    }

    fn get_system_color(&self, slot: UxnSystemColor) -> (r: u8) {
        self.system_colors[color_index(slot)]
    }

    fn start_termination(&mut self) {
        self.should_terminate = true;
    }

    fn get_working_stack(&self) -> (r: &[u8]) {
        self.working_stack.as_slice()
    }

    fn get_return_stack(&self) -> (r: &[u8]) {
        self.return_stack.as_slice()
    }
}

impl MainRamInterface for UxnCore {
    fn read(&self, address: u16, num_bytes: u16) -> (r: Result<Vec<u8>, MainRamInterfaceError>) {
        let start = address as usize;
        let end = start + num_bytes as usize;
        if end > RAM_SIZE {
            return Err(MainRamInterfaceError::AddressOutOfBounds);
        }
        let mut out: Vec<u8> = Vec::new();
        let mut i: usize = start;
        while i < end
            invariant
                start <= i <= end,
                end <= RAM_SIZE,
                self.ram@.len() == RAM_SIZE,
                out@ == self.ram@.subrange(start as int, i as int),
            decreases end - i,
        {
            out.push(self.ram[i]);
            assert(self.ram@.subrange(start as int, i + 1) =~= self.ram@.subrange(
                start as int,
                i as int,
            ).push(self.ram@[i as int]));
            i = i + 1;
        }
        Ok(out)
    }

    fn write(&mut self, address: u16, bytes: &[u8]) -> (r: Result<usize, MainRamInterfaceError>) {
        let start = address as usize;
        if bytes.len() > RAM_SIZE - start {
            return Err(MainRamInterfaceError::AddressOutOfBounds);
        }
        let mut i: usize = 0;
        while i < bytes.len()
            invariant
                start + bytes@.len() <= RAM_SIZE,
                i <= bytes@.len(),
                self.ram@.len() == RAM_SIZE,
                self.ram@ == old(self).ram@.subrange(0, start as int) + bytes@.take(i as int)
                    + old(self).ram@.subrange(start + i, RAM_SIZE as int),
                self.program_counter == old(self).program_counter,
                self.working_stack == old(self).working_stack,
                self.return_stack == old(self).return_stack,
                old(self).ram@.len() == RAM_SIZE,
            decreases bytes.len() - i,
        {
            self.ram.set(start + i, bytes[i]);
            assert(self.ram@ =~= old(self).ram@.subrange(0, start as int) + bytes@.take(i + 1)
                + old(self).ram@.subrange(start + i + 1, RAM_SIZE as int));
            i = i + 1;
        }
        assert(bytes@.take(bytes@.len() as int) =~= bytes@);
        Ok(bytes.len())
    }
}


/// A machine together with the devices that it talks to while it runs.
pub struct UxnWithDevicesImpl<J, K>
    where J: UxnSystemInterface + MainRamInterface, K: DeviceList
{
    pub uxn: J,
    pub device_list: K,
    pub writes: Ghost<Seq<(u8, u8)>>,
    pub reads: Ghost<Seq<(u8, u8)>>,
    /// Every device read asked of the device list, with the list's answer.
    pub answers: Ghost<Seq<(u8, DeviceReadReturnCode)>>,
}

impl<J, K> UxnWithDevicesImpl<J, K>
    where J: UxnSystemInterface + MainRamInterface, K: DeviceList
{
    pub fn new(uxn: J, device_list: K) -> (r: Self)
        ensures
            r.uxn == uxn,
            r.device_list == device_list,
            r.device_writes() == Seq::<(u8, u8)>::empty(),
            r.device_reads() == Seq::<(u8, u8)>::empty(),
            r.answers@ == Seq::<(u8, DeviceReadReturnCode)>::empty(),
    {
        UxnWithDevicesImpl {
            uxn,
            device_list,
            writes: Ghost(Seq::empty()),
            reads: Ghost(Seq::empty()),
            answers: Ghost(Seq::empty()),
        }
    }
}

impl<J, K> UxnState for UxnWithDevicesImpl<J, K>
    where J: UxnSystemInterface + MainRamInterface, K: DeviceList
{
    open spec fn ok(&self) -> bool {
        self.uxn.ok()
    }

    open spec fn ram(&self) -> Seq<u8> {
        self.uxn.ram()
    }

    open spec fn pc(&self) -> Option<u16> {
        self.uxn.pc()
    }

    open spec fn wst(&self) -> Seq<u8> {
        self.uxn.wst()
    }

    open spec fn rst(&self) -> Seq<u8> {
        self.uxn.rst()
    }

    closed spec fn device_writes(&self) -> Seq<(u8, u8)> {
        self.writes@
    }

    closed spec fn device_reads(&self) -> Seq<(u8, u8)> {
        self.reads@
    }
}

impl<J, K> Uxn for UxnWithDevicesImpl<J, K>
    where J: UxnSystemInterface + MainRamInterface, K: DeviceList
{
    proof fn lemma_ok_bounds(&self) {
        self.uxn.lemma_ok_bounds();
    }

    fn read_next_byte_from_ram(&mut self) -> (r: Result<u8, UxnError>) {
        self.uxn.read_next_byte_from_ram()
    }

    fn read_from_ram(&self, addr: u16) -> (r: u8) {
        self.uxn.read_from_ram(addr)
    }

    fn write_to_ram(&mut self, addr: u16, val: u8) {
        self.uxn.write_to_ram(addr, val)
    }

    fn get_program_counter(&self) -> (r: Result<u16, UxnError>) {
        self.uxn.get_program_counter()
    }

    fn set_program_counter(&mut self, addr: u16) {
        self.uxn.set_program_counter(addr)
    }

    fn push_to_return_stack(&mut self, byte: u8) -> (r: Result<(), UxnError>) {
        self.uxn.push_to_return_stack(byte)
    }

    fn push_to_working_stack(&mut self, byte: u8) -> (r: Result<(), UxnError>) {
        self.uxn.push_to_working_stack(byte)
    }

    fn pop_from_working_stack(&mut self) -> (r: Result<u8, UxnError>) {
        self.uxn.pop_from_working_stack()
    }

    fn pop_from_return_stack(&mut self) -> (r: Result<u8, UxnError>) {
        self.uxn.pop_from_return_stack()
    }
}

impl<J, K> UxnWithDevices for UxnWithDevicesImpl<J, K>
    where J: UxnSystemInterface + MainRamInterface, K: DeviceList
{
    /// Asks the device list, and passes its answer on; a read of the system device gives what
    /// the system device holds at that port.
    fn read_from_device(&mut self, device_address: u8) -> (r: Result<u8, UxnError>)
        ensures
            final(self).answers@.len() == old(self).answers@.len() + 1,
            final(self).answers@.drop_last() == old(self).answers@,
            final(self).answers@.last().0 == device_address,
            r == match final(self).answers@.last().1 {
                DeviceReadReturnCode::Success(res) => res,
                DeviceReadReturnCode::ReadFromSystemDevice(port) => Ok::<u8, UxnError>(
                    system_read_value(&old(self).uxn, port),
                ),
            },
    {
        let answer = self.device_list.read_from_device(device_address);
        self.answers = Ghost(self.answers@.push((device_address, answer)));
        assert(self.answers@.drop_last() =~= old(self).answers@);
        let r = match answer {
            DeviceReadReturnCode::Success(res) => res,
            DeviceReadReturnCode::ReadFromSystemDevice(port) => Ok(system_read(&self.uxn, port)),
        };
        match r {
            Ok(v) => {
                self.reads = Ghost(self.reads@.push((device_address, v)));
            },
            Err(_) => {},
        }
        r
    }

    fn write_to_device(&mut self, device_address: u8, val: u8) {
        match self.device_list.write_to_device(device_address, val, &mut self.uxn) {
            DeviceWriteReturnCode::Success => {},
            DeviceWriteReturnCode::WriteToSystemDevice(port) => {
                let text = system_write(&mut self.uxn, port, val);
                if text.len() > 0 {
                    self.device_list.write_debug_output(text.as_slice());
                }
            },
        }
        self.writes = Ghost(self.writes@.push((device_address, val)));
    }
}

/// The machine has stopped at the end of a vector: its program counter ran past the end of
/// memory, or the byte it last read is zero.
pub open spec fn at_halt<U: UxnState>(u: &U) -> bool {
    match u.pc() {
        None => true,
        Some(p) => p > 0 && u.ram()[p - 1] == 0,
    }
}

/// `new` is `old` after a run from `vector` that halted on its first byte: only the program
/// counter moved, past that byte.
pub open spec fn halted_at_once<J: InstructionFactory>(old: &UxnImpl<J>, new: &UxnImpl<J>, vector: u16) -> bool {
    &&& new.ram() == old.ram()
    &&& new.wst() == old.wst()
    &&& new.rst() == old.rst()
    &&& new.pc() == next_pc(vector)
    &&& new.terminating() == old.terminating()
}

/// A uxn virtual machine: its state and the decoder for its instructions.
pub struct UxnImpl<J>
    where J: InstructionFactory
{
    core: UxnCore,
    pub instruction_factory: J,
    steps_run: Ghost<Seq<RunStep>>,
}

impl<J> UxnState for UxnImpl<J>
    where J: InstructionFactory
{
    closed spec fn ok(&self) -> bool {
        self.core.ok()
    }

    closed spec fn ram(&self) -> Seq<u8> {
        self.core.ram()
    }

    closed spec fn pc(&self) -> Option<u16> {
        self.core.pc()
    }

    closed spec fn wst(&self) -> Seq<u8> {
        self.core.wst()
    }

    closed spec fn rst(&self) -> Seq<u8> {
        self.core.rst()
    }

    closed spec fn device_writes(&self) -> Seq<(u8, u8)> {
        Seq::empty()
    }

    closed spec fn device_reads(&self) -> Seq<(u8, u8)> {
        Seq::empty()
    }
}

impl<J> Uxn for UxnImpl<J>
    where J: InstructionFactory
{
    proof fn lemma_ok_bounds(&self) {
    }

    fn read_next_byte_from_ram(&mut self) -> (r: Result<u8, UxnError>) {
        self.core.read_next_byte_from_ram()
    }

    fn read_from_ram(&self, addr: u16) -> (r: u8) {
        self.core.read_from_ram(addr)
    }

    fn write_to_ram(&mut self, addr: u16, val: u8) {
        self.core.write_to_ram(addr, val)
    }

    fn get_program_counter(&self) -> (r: Result<u16, UxnError>) {
        self.core.get_program_counter()
    }

    fn set_program_counter(&mut self, addr: u16) {
        self.core.set_program_counter(addr)
    }

    fn push_to_return_stack(&mut self, byte: u8) -> (r: Result<(), UxnError>) {
        self.core.push_to_return_stack(byte)
    }

    fn push_to_working_stack(&mut self, byte: u8) -> (r: Result<(), UxnError>) {
        self.core.push_to_working_stack(byte)
    }

    fn pop_from_working_stack(&mut self) -> (r: Result<u8, UxnError>) {
        self.core.pop_from_working_stack()
    }

    fn pop_from_return_stack(&mut self) -> (r: Result<u8, UxnError>) {
        self.core.pop_from_return_stack()
    }
}

impl<J> UxnSystemInterface for UxnImpl<J>
    where J: InstructionFactory
{
    closed spec fn system_colors(&self) -> Seq<u8> {
        self.core.system_colors()
    }

    closed spec fn terminating(&self) -> bool {
        self.core.terminating()
    }

    proof fn lemma_system_colors_len(&self) {
    }

    fn set_working_stack_index(&mut self, index: u8) {
        self.core.set_working_stack_index(index)
    }

    fn get_working_stack_index(&self) -> (r: u8) {
        self.core.get_working_stack_index()
    }

    fn set_return_stack_index(&mut self, index: u8) {
        self.core.set_return_stack_index(index)
    }

    fn get_return_stack_index(&self) -> (r: u8) {
        self.core.get_return_stack_index()
    }

    fn set_system_color(&mut self, slot: UxnSystemColor, val: u8) {
        self.core.set_system_color(slot, val)
    }

    fn get_system_color(&self, slot: UxnSystemColor) -> (r: u8) {
        self.core.get_system_color(slot)
    }

    fn start_termination(&mut self) {
        self.core.start_termination()
    }

    fn get_working_stack(&self) -> (r: &[u8]) {
        self.core.get_working_stack()
    }

    fn get_return_stack(&self) -> (r: &[u8]) {
        self.core.get_return_stack()
    }
}

impl<J> MainRamInterface for UxnImpl<J>
    where J: InstructionFactory
{
    fn read(&self, address: u16, num_bytes: u16) -> (r: Result<Vec<u8>, MainRamInterfaceError>) {
        self.core.read(address, num_bytes)
    }

    fn write(&mut self, address: u16, bytes: &[u8]) -> (r: Result<usize, MainRamInterfaceError>) {
        self.core.write(address, bytes)
    }
}

impl<J> UxnSystemScreenInterface for UxnImpl<J>
    where J: InstructionFactory
{
    open spec fn screen_colors(&self) -> Seq<u8> {
        self.system_colors()
    }

    fn get_system_colors(&self, colors: &mut [u8; 6]) -> (r: bool)
        ensures
            final(colors)@ == self.system_colors(),
            r == (old(colors)@ != self.system_colors()),
    {
        let mine = self.core.system_colors;
        let mut differ = false;
        let mut i: usize = 0;
        while i < 6
            invariant
                i <= 6,
                *colors == *old(colors),
                differ == exists|k: int| 0 <= k < i && #[trigger] colors@[k] != mine@[k],
            decreases 6 - i,
        {
            if colors[i] != mine[i] {
                differ = true;
            }
            i = i + 1;
        }
        *colors = mine;
        proof {
            if !differ {
                assert(old(colors)@ =~= mine@);
            }
        }
        differ
    }
}

/// The outcome of a run as `run_bounded` gives it: a run cut off is `None`.
pub open spec fn bounded_status(r: Result<UxnStatus, UxnError>) -> Result<Option<UxnStatus>, UxnError> {
    match r {
        Ok(UxnStatus::StepLimit) => Ok(None),
        Ok(s) => Ok(Some(s)),
        Err(e) => Err(e),
    }
}

/// One instruction of a run: the address it was read from, its byte, the machine before the
/// byte was read and after the instruction ran, what the instruction returned, and whether the
/// machine had been asked to stop once it had run.
pub struct RunStep {
    pub pc: u16,
    pub byte: u8,
    pub before: UxnModel,
    pub after: UxnModel,
    pub result: Result<(), UxnError>,
    pub stop: bool,
}

/// What a run started with: `m` with its program counter at `vector`.
pub open spec fn started_at(m: UxnModel, vector: u16) -> UxnModel {
    UxnModel { pc: Some(vector), ..m }
}

/// The machine where the step of index `i` of a run from `start` begins: `start` for the first
/// step, and where the step before ended for the others.
pub open spec fn step_start(start: UxnModel, steps: Seq<RunStep>, i: int) -> UxnModel {
    if i == 0 {
        start
    } else {
        steps[i - 1].after
    }
}

/// `steps` is a run of the instructions that `factory` decodes, from the machine `start`: each
/// step begins where the step before ended (the first at `start`), reads the nonzero byte that
/// memory holds at the program counter, and does what `factory` says of that byte, on the
/// machine with the program counter moved past it; every step but the last succeeded and left
/// the machine not asked to stop.
#[verifier::opaque]
pub open spec fn ran_steps<F: InstructionFactory>(factory: F, start: UxnModel, steps: Seq<RunStep>) -> bool {
    forall|i: int|
        0 <= i < steps.len() ==> {
            &&& (#[trigger] steps[i]).before == step_start(start, steps, i)
            &&& steps[i].before.pc == Some(steps[i].pc)
            &&& steps[i].byte == steps[i].before.ram[steps[i].pc as int]
            &&& steps[i].byte != 0
            &&& factory.byte_effect(steps[i].byte, fetched(steps[i].before, steps[i].pc), steps[i].after, steps[i].result)
            &&& i < steps.len() - 1 ==> steps[i].result is Ok && !steps[i].stop
        }
}

/// Where a run from `start` with `steps` stands after its last step.
pub open spec fn run_end(start: UxnModel, steps: Seq<RunStep>) -> UxnModel {
    if steps.len() == 0 {
        start
    } else {
        steps.last().after
    }
}

/// Whether the next read of `m` halts it: its program counter is past the end of memory, or
/// memory holds zero there.
pub open spec fn halts_next(m: UxnModel) -> bool {
    match m.pc {
        None => true,
        Some(p) => m.ram[p as int] == 0,
    }
}

/// `m` after the read that halts it.
pub open spec fn halted(m: UxnModel) -> UxnModel {
    match m.pc {
        None => m,
        Some(p) => fetched(m, p),
    }
}

/// The memory, program counter and stacks of `m`, without its device histories.
pub open spec fn core_model(m: UxnModel) -> UxnModel {
    UxnModel { device_writes: Seq::empty(), device_reads: Seq::empty(), ..m }
}

/// How a run from `start` of `steps`, allowed `max_steps` instructions, ended with `r` (`None`
/// for a run cut off), where `fin` and `terminating` describe the machine after it. It halted
/// where the machine after the last step reads a zero byte (or none), and nothing asked it to
/// stop; it stopped on a request made by its last step, and failed with its last step's error;
/// it was cut off only after `max_steps` steps. The machine after it is where the last step
/// left it, past the halting byte where it halted.
pub open spec fn run_ended(
    r: Result<Option<UxnStatus>, UxnError>,
    start: UxnModel,
    steps: Seq<RunStep>,
    max_steps: nat,
    fin: UxnModel,
    terminating: bool,
) -> bool {
    let end = run_end(start, steps);
    match r {
        Ok(Some(UxnStatus::Halt)) => {
            &&& halts_next(end)
            &&& core_model(fin) == core_model(halted(end))
            &&& steps.len() < max_steps
            &&& steps.len() > 0 ==> steps.last().result is Ok && !steps.last().stop && !terminating
        },
        Ok(Some(UxnStatus::Terminate)) => {
            &&& core_model(fin) == core_model(end)
            &&& terminating
            &&& steps.len() > 0
            &&& steps.last().result is Ok
            &&& steps.last().stop
        },
        Ok(Some(UxnStatus::StepLimit)) => false,
        Ok(None) => {
            &&& core_model(fin) == core_model(end)
            &&& steps.len() == max_steps
            &&& steps.len() > 0 ==> steps.last().result is Ok && !steps.last().stop && !terminating
        },
        Err(e) => {
            &&& core_model(fin) == core_model(end)
            &&& steps.len() > 0
            &&& steps.last().result == Err::<(), UxnError>(e)
        },
    }
}

/// A request to stop ends a run at once: where a step of a run that did not fail left the
/// machine asked to stop, the run ended with `UxnStatus::Terminate` and that step was its last.
pub proof fn lemma_stop_request_ends_run<F: InstructionFactory>(
    factory: F,
    r: Result<Option<UxnStatus>, UxnError>,
    start: UxnModel,
    steps: Seq<RunStep>,
    max_steps: nat,
    fin: UxnModel,
    terminating: bool,
    i: int,
)
    requires
        ran_steps(factory, start, steps),
        run_ended(r, start, steps, max_steps, fin, terminating),
        r is Ok,
        0 <= i < steps.len(),
        steps[i].stop,
    ensures
        r == Ok::<Option<UxnStatus>, UxnError>(Some(UxnStatus::Terminate)),
        i == steps.len() - 1,
{
    reveal(ran_steps);
    assert(steps[i].before == step_start(start, steps, i));
}

/// A run that halted leaves the machine halted: its program counter past the end of memory, or
/// just past a zero byte.
pub proof fn lemma_halt_at_zero(end: UxnModel, fin: UxnModel)
    requires
        end.ok(),
        halts_next(end),
        core_model(fin) == core_model(halted(end)),
    ensures
        at_halt(&fin),
{
    assert(fin.pc == halted(end).pc && fin.ram == halted(end).ram);
}

/// Whether a run goes on after an instruction that gave `executed`, the machine then asked to
/// stop or not (`terminating`): it ends with the instruction's error, or with
/// `UxnStatus::Terminate` on a request to stop; otherwise (`None`) the next instruction runs.
pub fn after_instruction(executed: Result<(), UxnError>, terminating: bool) -> (r: Option<Result<UxnStatus, UxnError>>)
    ensures
        r == match executed {
            Err(e) => Some(Err::<UxnStatus, UxnError>(e)),
            Ok(()) => if terminating {
                Some(Ok::<UxnStatus, UxnError>(UxnStatus::Terminate))
            } else {
                None::<Result<UxnStatus, UxnError>>
            },
        },
{
    match executed {
        Err(e) => Some(Err(e)),
        Ok(()) => if terminating {
            Some(Ok(UxnStatus::Terminate))
        } else {
            None
        },
    }
}

/// Runs instructions from the program counter on, decoding them with `factory`, until one
/// that is zero, the end of memory, an instruction that fails or asks the machine to stop, or
/// `max_steps` instructions run; `None` in the last case. The steps run come back beside it.
fn drive<F: InstructionFactory, K: DeviceList>(
    factory: &F,
    machine: &mut UxnWithDevicesImpl<UxnCore, K>,
    max_steps: u64,
) -> (r: (Result<Option<UxnStatus>, UxnError>, Ghost<Seq<RunStep>>))
    requires
        old(machine).ok(),
        old(machine).pc() is Some,
    ensures
        final(machine).ok(),
        ran_steps(*factory, model_of(old(machine)), r.1@),
        run_ended(r.0, model_of(old(machine)), r.1@, max_steps as nat, model_of(final(machine)), final(machine).uxn.terminating()),
        (max_steps > 0 && old(machine).ram()[old(machine).pc()->0 as int] == 0)
            ==> {
            &&& r.0 == Ok::<Option<UxnStatus>, UxnError>(Some(UxnStatus::Halt))
            &&& r.1@.len() == 0
            &&& final(machine).uxn.ram() == old(machine).uxn.ram()
            &&& final(machine).uxn.wst() == old(machine).uxn.wst()
            &&& final(machine).uxn.rst() == old(machine).uxn.rst()
            &&& final(machine).uxn.terminating() == old(machine).uxn.terminating()
            &&& final(machine).uxn.pc() == next_pc(old(machine).pc()->0)
        },
{
    let ghost start = model_of(machine);
    let ghost mut steps: Seq<RunStep> = Seq::empty();
    proof {
        reveal(ran_steps);
    }
    let mut count: u64 = 0;
    while count < max_steps
        invariant
            count <= max_steps,
            machine.ok(),
            steps.len() == count,
            start == model_of(old(machine)),
            old(machine).pc() is Some,
            ran_steps(*factory, start, steps),
            model_of(machine) == run_end(start, steps),
            steps.len() > 0 ==> steps.last().result is Ok && !steps.last().stop,
            count == 0 ==> *machine == *old(machine),
            count > 0 ==> !machine.uxn.terminating(),
            (old(machine).ram()[old(machine).pc()->0 as int] == 0) ==> count == 0,
        decreases max_steps - count,
    {
        proof {
            machine.lemma_ok_bounds();
        }
        let ghost before = model_of(machine);
        let instr = machine.uxn.read_next_byte_from_ram();
        let byte = match instr {
            Err(_) => {
                assert(model_of(machine) == before);
                return (Ok(Some(UxnStatus::Halt)), Ghost(steps));
            },
            Ok(b) => b,
        };
        let ghost p = before.pc->0;
        assert(model_of(machine) == fetched(before, p));
        if byte == 0 {
            return (Ok(Some(UxnStatus::Halt)), Ghost(steps));
        }
        let ghost mid = model_of(machine);
        let op = factory.from_byte(byte);
        let res = op.execute(machine);
        let stop = machine.uxn.should_terminate;
        let outcome = after_instruction(res, stop);
        proof {
            reveal(ran_steps);
            assert(op.effect(mid, model_of(machine), res));
            let st = RunStep { pc: p, byte, before, after: model_of(machine), result: res, stop };
            let old_steps = steps;
            steps = steps.push(st);
            assert forall|i: int| 0 <= i < steps.len() implies {
                &&& (#[trigger] steps[i]).before == step_start(start, steps, i)
                &&& steps[i].before.pc == Some(steps[i].pc)
                &&& steps[i].byte == steps[i].before.ram[steps[i].pc as int]
                &&& steps[i].byte != 0
                &&& factory.byte_effect(steps[i].byte, fetched(steps[i].before, steps[i].pc), steps[i].after, steps[i].result)
                &&& i < steps.len() - 1 ==> steps[i].result is Ok && !steps[i].stop
            } by {
                if i < old_steps.len() {
                    assert(steps[i] == old_steps[i]);
                    assert(old_steps[i].before == step_start(start, old_steps, i));
                    if i > 0 {
                        assert(steps[i - 1] == old_steps[i - 1]);
                    }
                    if i == old_steps.len() - 1 {
                        assert(old_steps.last() == old_steps[i]);
                    }
                } else {
                    if i > 0 {
                        assert(steps[i - 1] == old_steps.last());
                    }
                }
            }
        }
        count = count + 1;
        match outcome {
            Some(ended) => {
                return (
                    match ended {
                        Ok(status) => Ok(Some(status)),
                        Err(e) => Err(e),
                    },
                    Ghost(steps),
                );
            },
            None => {},
        }
    }
    (Ok(None), Ghost(steps))
}

impl<J> UxnImpl<J>
    where J: InstructionFactory
{
    /// The instruction decoder of the machine.
    pub closed spec fn factory(&self) -> J {
        self.instruction_factory
    }

    /// The steps of the last run, in order.
    pub closed spec fn last_run(&self) -> Seq<RunStep> {
        self.steps_run@
    }

    /// Whether a program has asked the machine to stop.
    pub fn is_terminating(&self) -> (r: bool)
        ensures
            r == self.terminating(),
    {
        self.core.should_terminate
    }

    /// A machine with `rom` loaded at the initial vector (cut at the end of memory), the
    /// program counter at zero, empty stacks and all system colours zero.
    pub fn new(rom: &[u8], instruction_factory: J) -> (r: Result<Self, UxnError>)
        ensures
            r matches Ok(u) && {
                &&& u.ok()
                &&& u.ram() == loaded_ram(rom@)
                &&& u.pc() == Some(0u16)
                &&& u.wst() == Seq::<u8>::empty()
                &&& u.rst() == Seq::<u8>::empty()
                &&& u.system_colors() == Seq::new(6, |i: int| 0u8)
                &&& !u.terminating()
                &&& u.factory() == instruction_factory
            },
    {
        let mut ram: Vec<u8> = vec![0u8; RAM_SIZE];
        let room: usize = RAM_SIZE - INIT_VECTOR as usize;
        let n: usize = if rom.len() < room { rom.len() } else { room };
        let mut i: usize = 0;
        while i < n
            invariant
                n <= rom@.len(),
                n <= room,
                room == RAM_SIZE - INIT_VECTOR,
                i <= n,
                ram@.len() == RAM_SIZE,
                forall|k: int| 0 <= k < RAM_SIZE ==> #[trigger] ram@[k] == (
                    if INIT_VECTOR <= k < INIT_VECTOR + i { rom@[k - INIT_VECTOR] } else { 0u8 }),
            decreases n - i,
        {
            ram.set(INIT_VECTOR as usize + i, rom[i]);
            i = i + 1;
        }
        assert(ram@ =~= loaded_ram(rom@));
        let core = UxnCore {
            ram,
            program_counter: Some(0),
            working_stack: Vec::new(),
            return_stack: Vec::new(),
            system_colors: [0u8; 6],
            should_terminate: false,
        };
        assert(core.system_colors@ =~= Seq::new(6, |i: int| 0u8));
        Ok(UxnImpl { core, instruction_factory, steps_run: Ghost(Seq::empty()) })
    }

    /// Runs the program from `vector` on with `devices` attached, until it halts (a zero
    /// instruction, or the end of memory), asks to stop (`UxnStatus::Terminate`), an
    /// instruction fails (its error), or `max_steps` instructions have run (`None`).
    pub fn run_bounded<K: DeviceList>(&mut self, vector: u16, devices: K, max_steps: u64) -> (r: Result<Option<UxnStatus>, UxnError>)
        requires
            old(self).ok(),
        ensures
            final(self).ok(),
            final(self).factory() == old(self).factory(),
            ran_steps(old(self).factory(), started_at(model_of(old(self)), vector), final(self).last_run()),
            run_ended(r, started_at(model_of(old(self)), vector), final(self).last_run(), max_steps as nat,
                model_of(final(self)), final(self).terminating()),
            (max_steps > 0 && old(self).ram()[vector as int] == 0) ==> {
                &&& r == Ok::<Option<UxnStatus>, UxnError>(Some(UxnStatus::Halt))
                &&& final(self).last_run().len() == 0
                &&& final(self).ram() == old(self).ram()
                &&& final(self).wst() == old(self).wst()
                &&& final(self).rst() == old(self).rst()
                &&& final(self).terminating() == old(self).terminating()
                &&& final(self).pc() == next_pc(vector)
            },
    {
        self.core.set_program_counter(vector);
        let mut core = UxnCore::empty();
        std::mem::swap(&mut core, &mut self.core);
        let mut machine = UxnWithDevicesImpl::new(core, devices);
        let (r, steps) = drive(&self.instruction_factory, &mut machine, max_steps);
        std::mem::swap(&mut self.core, &mut machine.uxn);
        self.steps_run = steps;
        r
    }

    /// Runs the program from `vector` on with `devices` attached, until it halts (a zero
    /// instruction, or the end of memory), asks to stop, or an instruction fails. A run is
    /// cut off after `u64::MAX` instructions (`UxnStatus::StepLimit`).
    pub fn run<K: DeviceList>(&mut self, vector: u16, devices: K) -> (r: Result<UxnStatus, UxnError>)
        requires
            old(self).ok(),
        ensures
            final(self).ok(),
            final(self).factory() == old(self).factory(),
            ran_steps(old(self).factory(), started_at(model_of(old(self)), vector), final(self).last_run()),
            run_ended(bounded_status(r), started_at(model_of(old(self)), vector), final(self).last_run(), u64::MAX as nat,
                model_of(final(self)), final(self).terminating()),
            old(self).ram()[vector as int] == 0 ==> {
                &&& r == Ok::<UxnStatus, UxnError>(UxnStatus::Halt)
                &&& final(self).last_run().len() == 0
                &&& final(self).ram() == old(self).ram()
                &&& final(self).wst() == old(self).wst()
                &&& final(self).rst() == old(self).rst()
                &&& final(self).terminating() == old(self).terminating()
                &&& final(self).pc() == next_pc(vector)
            },
    {
        match self.run_bounded(vector, devices, u64::MAX) {
            Ok(Some(status)) => Ok(status),
            Ok(None) => Ok(UxnStatus::StepLimit),
            Err(e) => Err(e),
        }
    }

    /// Runs the program from `vector` on, as `run` does, with the devices that `devices` lends.
    /// Where the byte at `vector` is zero the machine halts at once, and neither it, past its
    /// program counter, nor the devices change.
    pub fn run_with<K: DeviceList>(&mut self, vector: u16, devices: &mut K) -> (r: Result<UxnStatus, UxnError>)
        requires
            old(self).ok(),
        ensures
            final(self).ok(),
            final(self).factory() == old(self).factory(),
            ran_steps(old(self).factory(), started_at(model_of(old(self)), vector), final(self).last_run()),
            run_ended(bounded_status(r), started_at(model_of(old(self)), vector), final(self).last_run(), u64::MAX as nat,
                model_of(final(self)), final(self).terminating()),
            old(self).ram()[vector as int] == 0 ==> {
                &&& r == Ok::<UxnStatus, UxnError>(UxnStatus::Halt)
                &&& final(self).last_run().len() == 0
                &&& final(self).ram() == old(self).ram()
                &&& final(self).wst() == old(self).wst()
                &&& final(self).rst() == old(self).rst()
                &&& final(self).pc() == next_pc(vector)
                &&& final(self).terminating() == old(self).terminating()
                &&& final(self).system_colors() == old(self).system_colors()
                &&& *final(devices) == *old(devices)
            },
    {
        proof {
            self.core.lemma_ok_bounds();
        }
        if self.core.ram[vector as usize] == 0 {
            self.core.program_counter = if vector < u16::MAX {
                Some(vector + 1)
            } else {
                None
            };
            self.steps_run = Ghost(Seq::empty());
            proof {
                reveal(ran_steps);
            }
            Ok(UxnStatus::Halt)
        } else {
            self.run(vector, devices)
        }
    }
}

} // verus!
