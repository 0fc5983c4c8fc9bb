use vstd::prelude::*;

use crate::emulators::devices::console::{console_write_post, vector_of, Console};
use crate::emulators::devices::datetime::DateTimeDevice;
use crate::emulators::uxn::device::{
    Device, DeviceAccess, DeviceList, DeviceReadReturnCode, DeviceWriteReturnCode,
    MainRamInterface,
};
use crate::emulators::uxn::{bounded_status, halted_at_once, ran_steps, run_ended, started_at, RunStep, UxnImpl};
use crate::instruction::InstructionFactory;
use crate::emulators::devices::system::UxnSystemInterface;
use crate::uxninterface::{model_of, UxnModel, Uxn, UxnError, UxnState, UxnStatus};

verus! {

/// The command line of the text-only machine: the ROM to run, and the initial console input,
/// each argument followed by a new line.
pub struct Cli {
    pub rom: String,
    pub input: Vec<String>,
}

/// The devices of the text-only machine: the console (slot 0x1), a file device (slot 0xa), the
/// date and time (slot 0xc), and the debug text of the system device (slot 0x0).
pub struct CliDevices<F: Device> {
    pub console_device: Console,
    pub file_device: F,
    pub datetime_device: DateTimeDevice,
    pub debug_output: Vec<u8>,
    /// The runs of the console vector that the last feed of console input made.
    pub console_runs: Ghost<Seq<ConsoleRun>>,
}

/// A run of the console vector for one byte of input: the byte, the vector run, the console
/// as the run found it and as it left it, the machine the run started with (its program
/// counter at the vector), the steps run, how the run ended, and the machine after it, then
/// asked to stop or not.
pub struct ConsoleRun {
    pub byte: u8,
    pub vector: u16,
    pub console_before: Console,
    pub console_after: Console,
    pub start: UxnModel,
    pub steps: Seq<RunStep>,
    pub status: Result<UxnStatus, UxnError>,
    pub fin: UxnModel,
    pub terminating: bool,
}

/// The machine runs of `runs`, made with the decoder `factory` from the machine `m`: each run
/// starts at its vector on the machine as the run before left it (the first on `m`), runs its
/// instructions as the decoder says, and ends as its status says.
#[verifier::opaque]
pub open spec fn runs_chained<F: InstructionFactory>(runs: Seq<ConsoleRun>, factory: F, m: UxnModel) -> bool {
    forall|k: int| 0 <= k < runs.len() ==> {
        &&& (#[trigger] runs[k]).start == started_at(if k == 0 { m } else { runs[k - 1].fin }, runs[k].vector)
        &&& ran_steps(factory, runs[k].start, runs[k].steps)
        &&& run_ended(bounded_status(runs[k].status), runs[k].start, runs[k].steps, u64::MAX as nat, runs[k].fin,
            runs[k].terminating)
    }
}

/// `after` is the console `before` holding the input byte `c`.
pub open spec fn holds_input(before: Console, after: Console, c: u8) -> bool {
    &&& after.input() == c
    &&& after.vector_hi() == before.vector_hi()
    &&& after.vector_lo() == before.vector_lo()
    &&& after.stdout() == before.stdout()
    &&& after.stderr() == before.stderr()
}

/// `runs` fed the console the first `runs.len()` of `bytes`, in order, starting from the
/// console `start`: each run found the console holding its byte, and otherwise as the run
/// before left it; it ran the console's vector; every run but the last halted.
pub open spec fn fed_in_order(runs: Seq<ConsoleRun>, bytes: Seq<u8>, start: Console) -> bool {
    &&& runs.len() <= bytes.len()
    &&& forall|k: int| 0 <= k < runs.len() ==> {
        &&& #[trigger] runs[k].byte == bytes[k]
        &&& holds_input(if k == 0 { start } else { runs[k - 1].console_after }, runs[k].console_before, bytes[k])
        &&& runs[k].vector == vector_of(runs[k].console_before.vector_hi(), runs[k].console_before.vector_lo())
        &&& k < runs.len() - 1 ==> runs[k].status == Ok::<UxnStatus, UxnError>(UxnStatus::Halt)
    }
}

impl<F: Device> CliDevices<F> {
    /// The devices, with the given console and file device and no debug text yet.
    pub fn new(console_device: Console, file_device: F) -> (r: Self)
        ensures
            r.console_device == console_device,
            r.file_device == file_device,
            r.debug_output@ == Seq::<u8>::empty(),
    {
        CliDevices {
            console_device,
            file_device,
            datetime_device: DateTimeDevice::new(),
            debug_output: Vec::new(),
            console_runs: Ghost(Seq::empty()),
        }
    }
}

impl<F: Device> DeviceList for CliDevices<F> {
    fn write_to_device<M: MainRamInterface>(
        &mut self,
        device_address: u8,
        val: u8,
        main_ram: &mut M,
    ) -> (r: DeviceWriteReturnCode)
        ensures
            final(self).debug_output == old(self).debug_output,
            device_address / 16 == 0 ==> r == DeviceWriteReturnCode::WriteToSystemDevice(device_address % 16),
            device_address / 16 != 0 ==> r == DeviceWriteReturnCode::Success,
            device_address / 16 == 1 ==> console_write_post(
                &old(self).console_device,
                &final(self).console_device,
                device_address % 16,
                val,
            ),
            device_address / 16 != 1 ==> final(self).console_device == old(self).console_device,
            device_address / 16 != 0xa ==> final(self).file_device == old(self).file_device,
            device_address / 16 != 0xa ==> *final(main_ram) == *old(main_ram),
            device_address / 16 == 0x1 ==> final(self).console_device.accesses()
                == old(self).console_device.accesses().push(DeviceAccess::Write(device_address % 16, val)),
            device_address / 16 == 0xa ==> final(self).file_device.accesses()
                == old(self).file_device.accesses().push(DeviceAccess::Write(device_address % 16, val)),
            device_address / 16 == 0xc ==> final(self).datetime_device.accesses()
                == old(self).datetime_device.accesses().push(DeviceAccess::Write(device_address % 16, val)),
    {
        let slot = device_address / 16;
        let port = device_address % 16;
        if slot == 0 {
            DeviceWriteReturnCode::WriteToSystemDevice(port)
        } else if slot == 1 {
            self.console_device.write(port, val, main_ram);
            DeviceWriteReturnCode::Success
        } else if slot == 0xa {
            self.file_device.write(port, val, main_ram);
            DeviceWriteReturnCode::Success
        } else if slot == 0xc {
            self.datetime_device.write(port, val, main_ram);
            DeviceWriteReturnCode::Success
        } else {
            DeviceWriteReturnCode::Success
        }
    }

    fn read_from_device(&mut self, device_address: u8) -> (r: DeviceReadReturnCode)
        ensures
            final(self).debug_output == old(self).debug_output,
            device_address / 16 != 1 ==> final(self).console_device == old(self).console_device,
            holds_input(old(self).console_device, final(self).console_device, old(self).console_device.input()),
            device_address / 16 != 0xa ==> final(self).file_device == old(self).file_device,
            device_address / 16 == 0 ==> r == DeviceReadReturnCode::ReadFromSystemDevice(device_address % 16),
            device_address / 16 == 1 ==> r == DeviceReadReturnCode::Success(
                Ok(
                    if device_address % 16 == 0 {
                        old(self).console_device.vector_hi()
                    } else if device_address % 16 == 1 {
                        old(self).console_device.vector_lo()
                    } else if device_address % 16 == 2 {
                        old(self).console_device.input()
                    } else {
                        0
                    },
                ),
            ),
            (device_address / 16 == 0xa || device_address / 16 == 0xc) ==> r matches DeviceReadReturnCode::Success(Ok(_)),
            !(device_address / 16 == 0 || device_address / 16 == 1 || device_address / 16 == 0xa || device_address / 16
                == 0xc) ==> r == DeviceReadReturnCode::Success(Err(UxnError::UnrecognisedDevice)),
            r matches DeviceReadReturnCode::Success(Ok(v)) ==> {
                let read = DeviceAccess::Read(device_address % 16, v);
                &&& device_address / 16 == 0x1 ==> final(self).console_device.accesses()
                    == old(self).console_device.accesses().push(read)
                &&& device_address / 16 == 0xa ==> final(self).file_device.accesses()
                    == old(self).file_device.accesses().push(read)
                &&& device_address / 16 == 0xc ==> final(self).datetime_device.accesses()
                    == old(self).datetime_device.accesses().push(read)
            },
    {
        let slot = device_address / 16;
        let port = device_address % 16;
        if slot == 0 {
            DeviceReadReturnCode::ReadFromSystemDevice(port)
        } else if slot == 1 {
            DeviceReadReturnCode::Success(Ok(self.console_device.read(port)))
        } else if slot == 0xa {
            DeviceReadReturnCode::Success(Ok(self.file_device.read(port)))
        } else if slot == 0xc {
            DeviceReadReturnCode::Success(Ok(self.datetime_device.read(port)))
        } else {
            DeviceReadReturnCode::Success(Err(UxnError::UnrecognisedDevice))
        }
    }

    fn write_debug_output(&mut self, output: &[u8])
        ensures
            final(self).debug_output@ == old(self).debug_output@ + output@,
            final(self).console_device == old(self).console_device,
            final(self).file_device == old(self).file_device,
    {
        let mut j: usize = 0;
        let ghost start = self.debug_output@;
        while j < output.len()
            invariant
                j <= output@.len(),
                self.debug_output@ == start + output@.take(j as int),
                self.console_device == old(self).console_device,
                self.file_device == old(self).file_device,
            decreases output.len() - j,
        {
            self.debug_output.push(output[j]);
            assert(output@.take(j + 1) =~= output@.take(j as int).push(output@[j as int]));
            j = j + 1;
        }
        assert(output@.take(output@.len() as int) =~= output@);
    }
}

/// The console input that the arguments give: the UTF-8 bytes of each argument, each
/// followed by a new line.
pub open spec fn console_stream(args: Seq<String>) -> Seq<u8>
    decreases args.len(),
{
    if args.len() == 0 {
        Seq::empty()
    } else {
        console_stream(args.drop_last()) + vstd::utf8::encode_utf8(args.last()@) + seq![0x0au8]
    }
}

/// The console input that the command line arguments give.
pub fn console_input_bytes(args: &Vec<String>) -> (r: Vec<u8>)
    ensures
        r@ == console_stream(args@),
{
    let mut out: Vec<u8> = Vec::new();
    let mut i: usize = 0;
    while i < args.len()
        invariant
            i <= args@.len(),
            out@ == console_stream(args@.take(i as int)),
        decreases args.len() - i,
    {
        let b = args[i].as_str().as_bytes();
        let mut j: usize = 0;
        let ghost before = out@;
        while j < b.len()
            invariant
                j <= b@.len(),
                out@ == before + b@.take(j as int),
            decreases b.len() - j,
        {
            out.push(b[j]);
            assert(b@.take(j + 1) =~= b@.take(j as int).push(b@[j as int]));
            j = j + 1;
        }
        assert(b@.take(b@.len() as int) =~= b@);
        out.push(0x0a);
        assert(args@.take(i + 1).drop_last() =~= args@.take(i as int));
        i = i + 1;
    }
    assert(args@.take(args@.len() as int) =~= args@);
    out
}

proof fn lemma_runs_chained_push<F: InstructionFactory>(runs: Seq<ConsoleRun>, run: ConsoleRun, factory: F, m: UxnModel)
    requires
        runs_chained(runs, factory, m),
        run.start == started_at(if runs.len() == 0 { m } else { runs.last().fin }, run.vector),
        ran_steps(factory, run.start, run.steps),
        run_ended(bounded_status(run.status), run.start, run.steps, u64::MAX as nat, run.fin, run.terminating),
    ensures
        runs_chained(runs.push(run), factory, m),
{
    reveal(runs_chained);
    let all = runs.push(run);
    assert forall|k: int| 0 <= k < all.len() implies {
        &&& (#[trigger] all[k]).start == started_at(if k == 0 { m } else { all[k - 1].fin }, all[k].vector)
        &&& ran_steps(factory, all[k].start, all[k].steps)
        &&& run_ended(bounded_status(all[k].status), all[k].start, all[k].steps, u64::MAX as nat, all[k].fin,
            all[k].terminating)
    } by {
        if k < runs.len() {
            assert(all[k] == runs[k]);
            if k > 0 {
                assert(all[k - 1] == runs[k - 1]);
            }
        } else if k > 0 {
            assert(all[k - 1] == runs[k - 1]);
        }
    }
}

/// Hands the console `bytes` one at a time, running the console vector after each, until
/// the machine halts after the last byte, asks to stop, or fails; the runs made are recorded
/// in the devices. Where the byte at the console vector is zero, each run halts at once: the
/// console is left holding the last byte and nothing else changes but the program counter.
pub fn feed_console<J: InstructionFactory, F: Device>(
    uxn: &mut UxnImpl<J>,
    devices: &mut CliDevices<F>,
    bytes: &[u8],
) -> (r: Result<UxnStatus, UxnError>)
    requires
        old(uxn).ok(),
    ensures
        final(uxn).ok(),
        fed_in_order(final(devices).console_runs@, bytes@, old(devices).console_device),
        ({
            let runs = final(devices).console_runs@;
            let n = runs.len();
            &&& r == Ok::<UxnStatus, UxnError>(UxnStatus::Halt) ==> n == bytes@.len()
            &&& r != Ok::<UxnStatus, UxnError>(UxnStatus::Halt) ==> n > 0 && runs[n - 1].status == r
            &&& runs_chained(runs, old(uxn).factory(), model_of(old(uxn)))
            &&& n > 0 ==> {
                &&& final(devices).console_device == runs[n - 1].console_after
                &&& final(uxn).last_run() == runs[n - 1].steps
                &&& model_of(final(uxn)) == runs[n - 1].fin
                &&& final(uxn).terminating() == runs[n - 1].terminating
            }
        }),
        bytes@.len() == 0 ==> r == Ok::<UxnStatus, UxnError>(UxnStatus::Halt) && *final(uxn) == *old(uxn)
            && *final(devices) == (CliDevices { console_runs: final(devices).console_runs, ..*old(devices) }),
        ({
            let console = old(devices).console_device;
            let v = vector_of(console.vector_hi(), console.vector_lo());
            (bytes@.len() > 0 && old(uxn).ram()[v as int] == 0) ==> {
                &&& r == Ok::<UxnStatus, UxnError>(UxnStatus::Halt)
                &&& halted_at_once(old(uxn), final(uxn), v)
                &&& final(devices).console_device.input() == bytes@.last()
                &&& final(devices).console_device.vector_hi() == console.vector_hi()
                &&& final(devices).console_device.vector_lo() == console.vector_lo()
                &&& final(devices).console_device.stdout() == console.stdout()
                &&& final(devices).console_device.stderr() == console.stderr()
                &&& *final(devices) == (CliDevices {
                    console_device: final(devices).console_device,
                    console_runs: final(devices).console_runs,
                    ..*old(devices)
                })
            }
        }),
{
    let ghost console = old(devices).console_device;
    let ghost v = vector_of(console.vector_hi(), console.vector_lo());
    let ghost mut runs: Seq<ConsoleRun> = Seq::empty();
    assert(runs_chained(runs, old(uxn).factory(), model_of(old(uxn)))) by {
        reveal(runs_chained);
    }
    let mut i: usize = 0;
    while i < bytes.len()
        invariant
            i <= bytes@.len(),
            uxn.ok(),
            console == old(devices).console_device,
            v == vector_of(console.vector_hi(), console.vector_lo()),
            runs.len() == i,
            fed_in_order(runs, bytes@, console),
            forall|k: int| 0 <= k < runs.len() ==> (#[trigger] runs[k]).status == Ok::<UxnStatus, UxnError>(UxnStatus::Halt),
            uxn.factory() == old(uxn).factory(),
            runs_chained(runs, old(uxn).factory(), model_of(old(uxn))),
            i > 0 ==> {
                &&& devices.console_device == runs[i - 1].console_after
                &&& uxn.last_run() == runs[i - 1].steps
                &&& model_of(uxn) == runs[i - 1].fin
                &&& uxn.terminating() == runs[i - 1].terminating
            },
            i == 0 ==> *uxn == *old(uxn) && *devices == *old(devices),
            (old(uxn).ram()[v as int] == 0 && i > 0) ==> {
                &&& halted_at_once(old(uxn), uxn, v)
                &&& devices.console_device.input() == bytes@[i - 1]
                &&& devices.console_device.vector_hi() == console.vector_hi()
                &&& devices.console_device.vector_lo() == console.vector_lo()
                &&& devices.console_device.stdout() == console.stdout()
                &&& devices.console_device.stderr() == console.stderr()
                &&& *devices == (CliDevices { console_device: devices.console_device, ..*old(devices) })
            },
        decreases bytes.len() - i,
    {
        devices.console_device.provide_input(bytes[i]);
        let ghost before = devices.console_device;
        let ghost machine_before = model_of(uxn);
        let vector = devices.console_device.read_vector();
        let res = uxn.run_with(vector, devices);
        proof {
            let run = ConsoleRun {
                byte: bytes@[i as int],
                vector,
                console_before: before,
                console_after: devices.console_device,
                start: started_at(machine_before, vector),
                steps: uxn.last_run(),
                status: res,
                fin: model_of(uxn),
                terminating: uxn.terminating(),
            };
            let old_runs = runs;
            runs = runs.push(run);
            assert forall|k: int| 0 <= k < old_runs.len() implies #[trigger] runs[k] == old_runs[k] by {}
            lemma_runs_chained_push(old_runs, run, old(uxn).factory(), model_of(old(uxn)));
        }
        match res {
            Ok(UxnStatus::Halt) => {},
            other => {
                devices.console_runs = Ghost(runs);
                return other;
            },
        }
        i = i + 1;
    }
    devices.console_runs = Ghost(runs);
    Ok(UxnStatus::Halt)
}

} // verus!
