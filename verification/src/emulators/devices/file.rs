use vstd::prelude::*;

use crate::emulators::devices::system::{hex_byte, hex_digit_exec};
use crate::emulators::uxn::device::{fits, ram_only_changed, MainRamInterface};
use crate::uxninterface::{RAM_SIZE, Uxn, UxnState};

verus! {

/// What a directory entry names, as its listing line reports it: a directory, or a file of
/// the given length in bytes.
#[derive(Debug, PartialEq, Eq, Clone, Copy)]
pub enum EntryKind {
    Directory,
    File(u64),
}

/// The size column of a listing line: `----` for a directory, the length as four lower case
/// hexadecimal digits for a file, `????` for a file too long for sixteen bits.
pub open spec fn size_field(kind: EntryKind) -> Seq<u8> {
    match kind {
        EntryKind::Directory => seq![0x2du8, 0x2d, 0x2d, 0x2d],
        EntryKind::File(len) => if len <= 0xffff {
            hex_byte((len / 256) as u8) + hex_byte((len % 256) as u8)
        } else {
            seq![0x3fu8, 0x3f, 0x3f, 0x3f]
        },
    }
}

/// A listing line: the size column, a space, the name and a new line.
pub open spec fn dir_entry(name: Seq<u8>, kind: EntryKind) -> Seq<u8> {
    size_field(kind) + seq![0x20u8] + name + seq![0x0au8]
}

fn push_hex_byte(out: &mut Vec<u8>, b: u8)
    ensures
        final(out)@ == old(out)@ + hex_byte(b),
{
    out.push(hex_digit_exec(b / 16));
    out.push(hex_digit_exec(b % 16));
    assert(final(out)@ =~= old(out)@ + hex_byte(b));
}

/// The listing line of an entry named `name`.
pub fn dir_entry_line(name: &[u8], kind: EntryKind) -> (r: Vec<u8>)
    ensures
        r@ == dir_entry(name@, kind),
{
    let mut out: Vec<u8> = Vec::new();
    match kind {
        EntryKind::Directory => {
            out.push(0x2d);
            out.push(0x2d);
            out.push(0x2d);
            out.push(0x2d);
        },
        EntryKind::File(len) => {
            if len <= 0xffff {
                push_hex_byte(&mut out, (len / 256) as u8);
                push_hex_byte(&mut out, (len % 256) as u8);
            } else {
                out.push(0x3f);
                out.push(0x3f);
                out.push(0x3f);
                out.push(0x3f);
            }
        },
    }
    assert(out@ =~= size_field(kind));
    out.push(0x20);
    let mut i: usize = 0;
    while i < name.len()
        invariant
            i <= name@.len(),
            out@ == size_field(kind) + seq![0x20u8] + name@.take(i as int),
        decreases name.len() - i,
    {
        out.push(name[i]);
        assert(name@.take(i + 1) =~= name@.take(i as int).push(name@[i as int]));
        i = i + 1;
    }
    assert(name@.take(name@.len() as int) =~= name@);
    out.push(0x0a);
    out
}

/// `name` is the text that starts at `addr` in `ram`: the bytes up to the first zero byte, or
/// up to the end of memory where no zero byte follows.
pub open spec fn name_at(ram: Seq<u8>, addr: int, name: Seq<u8>) -> bool {
    &&& addr + name.len() <= ram.len()
    &&& name == ram.subrange(addr, addr + name.len())
    &&& forall|k: int| 0 <= k < name.len() ==> name[k] != 0
    &&& (addr + name.len() == ram.len() || ram[addr + name.len()] == 0)
}

/// `ram` with `bytes` written from `addr` on.
pub open spec fn written(ram: Seq<u8>, addr: int, bytes: Seq<u8>) -> Seq<u8> {
    ram.subrange(0, addr) + bytes + ram.subrange(addr + bytes.len(), ram.len() as int)
}

/// A sixteen-bit register with its high byte replaced.
pub open spec fn with_hi(x: u16, v: u8) -> u16 {
    (v * 256 + x % 256) as u16
}

/// A sixteen-bit register with its low byte replaced.
pub open spec fn with_lo(x: u16, v: u8) -> u16 {
    (x / 256 * 256 + v) as u16
}

fn set_hi(x: u16, v: u8) -> (r: u16)
    ensures
        r == with_hi(x, v),
{
    (v as u16) * 256 + x % 256
}

fn set_lo(x: u16, v: u8) -> (r: u16)
    ensures
        r == with_lo(x, v),
{
    x / 256 * 256 + v as u16
}

/// The registers of the file device.
pub struct FileDeviceModel {
    pub name_address: u16,
    pub file_name: Seq<u8>,
    pub success: u16,
    pub length: u16,
    pub target: u16,
    pub stat_target: u16,
    pub write_target: u16,
    pub append: u8,
}

/// The registers after a write of `val` to `port`, before whatever the write sets off.
pub open spec fn registers_after(m: FileDeviceModel, port: u8, val: u8) -> FileDeviceModel {
    if port == 0x4 {
        FileDeviceModel { stat_target: with_hi(m.stat_target, val), ..m }
    } else if port == 0x5 {
        FileDeviceModel { stat_target: with_lo(m.stat_target, val), ..m }
    } else if port == 0x7 {
        FileDeviceModel { append: val, ..m }
    } else if port == 0x8 {
        FileDeviceModel { name_address: with_hi(m.name_address, val), ..m }
    } else if port == 0x9 {
        FileDeviceModel { name_address: with_lo(m.name_address, val), ..m }
    } else if port == 0xa {
        FileDeviceModel { length: with_hi(m.length, val), ..m }
    } else if port == 0xb {
        FileDeviceModel { length: with_lo(m.length, val), ..m }
    } else if port == 0xc {
        FileDeviceModel { target: with_hi(m.target, val), ..m }
    } else if port == 0xd {
        FileDeviceModel { target: with_lo(m.target, val), ..m }
    } else if port == 0xe {
        FileDeviceModel { write_target: with_hi(m.write_target, val), ..m }
    } else if port == 0xf {
        FileDeviceModel { write_target: with_lo(m.write_target, val), ..m }
    } else {
        m
    }
}

/// What a write to the file device asks of the file system, named by the file name register.
#[derive(Debug, PartialEq, Eq, Clone)]
pub enum FileRequest {
    /// Nothing to do.
    Nothing,
    /// The file name changed: forget the file or directory being read.
    Close,
    /// Report the size of the entry; answered by `finish_stat`.
    Stat { name: Vec<u8> },
    /// Delete the file; answered by `finish_delete`.
    Delete { name: Vec<u8> },
    /// Read up to `length` bytes of the file, or a page of the directory, from where the last
    /// read stopped; answered by `finish_file_read`, `finish_dir_read` or `finish_read_failed`.
    Read { name: Vec<u8>, length: u16 },
    /// Create the file, or open it to append to or to truncate, and write `data` to it when
    /// memory gave it; answered by `finish_write`.
    Write { name: Vec<u8>, append: bool, data: Option<Vec<u8>> },
}

pub enum FileRequestModel {
    Nothing,
    Close,
    Stat(Seq<u8>),
    Delete(Seq<u8>),
    Read(Seq<u8>, u16),
    Write(Seq<u8>, bool, Option<Seq<u8>>),
}

impl View for FileRequest {
    type V = FileRequestModel;

    open spec fn view(&self) -> FileRequestModel {
        match self {
            FileRequest::Nothing => FileRequestModel::Nothing,
            FileRequest::Close => FileRequestModel::Close,
            FileRequest::Stat { name } => FileRequestModel::Stat(name@),
            FileRequest::Delete { name } => FileRequestModel::Delete(name@),
            FileRequest::Read { name, length } => FileRequestModel::Read(name@, *length),
            FileRequest::Write { name, append, data } => FileRequestModel::Write(
                name@,
                *append,
                match data {
                    Some(d) => Some(d@),
                    None => None,
                },
            ),
        }
    }
}

/// The upcoming entries of a directory listing, each a listing line or a failure.
pub open spec fn entries_view(entries: Seq<Option<Vec<u8>>>) -> Seq<Option<Seq<u8>>> {
    entries.map_values(
        |e: Option<Vec<u8>>|
            match e {
                Some(v) => Some(v@),
                None => None,
            },
    )
}

/// One page of a directory listing: whole entries from `i` on, after the bytes `taken`, for
/// as long as they fit in `limit` bytes. Gives the index where the page stops and its bytes,
/// or no bytes where a failing entry comes before the page is full.
pub open spec fn dir_page(entries: Seq<Option<Seq<u8>>>, limit: int, taken: Seq<u8>, i: int) -> (int, Option<Seq<u8>>)
    decreases entries.len() - i,
{
    if i < 0 || i >= entries.len() {
        (i, Some(taken))
    } else {
        match entries[i] {
            None => (i, None),
            Some(e) => if taken.len() + e.len() > limit {
                (i, Some(taken))
            } else {
                dir_page(entries, limit, taken + e, i + 1)
            },
        }
    }
}

/// The listing lines of `entries` one after another (a failed entry adds nothing).
pub open spec fn listing(entries: Seq<Option<Seq<u8>>>) -> Seq<u8>
    decreases entries.len(),
{
    if entries.len() == 0 {
        Seq::empty()
    } else {
        match entries[0] {
            Some(e) => e + listing(entries.skip(1)),
            None => listing(entries.skip(1)),
        }
    }
}

/// A page of a directory listing is made of whole lines taken in order from where the last
/// page stopped, and is never longer than the length asked for; where it fails, it stopped at
/// a failed entry.
pub proof fn lemma_dir_page_shape(entries: Seq<Option<Seq<u8>>>, limit: int, taken: Seq<u8>, i: int)
    requires
        0 <= i <= entries.len(),
        taken.len() <= limit,
    ensures
        ({
            let (n, page) = dir_page(entries, limit, taken, i);
            &&& i <= n <= entries.len()
            &&& forall|k: int| i <= k < n ==> (#[trigger] entries[k]) is Some
            &&& match page {
                Some(b) => b == taken + listing(entries.subrange(i, n)) && b.len() <= limit,
                None => n < entries.len() && entries[n] is None,
            }
        }),
    decreases entries.len() - i,
{
    if i >= entries.len() {
        assert(entries.subrange(i, i) =~= Seq::<Option<Seq<u8>>>::empty());
        assert(taken + Seq::<u8>::empty() =~= taken);
    } else {
        match entries[i] {
            None => {},
            Some(e) => {
                if taken.len() + e.len() > limit {
                    assert(entries.subrange(i, i) =~= Seq::<Option<Seq<u8>>>::empty());
                    assert(taken + Seq::<u8>::empty() =~= taken);
                } else {
                    lemma_dir_page_shape(entries, limit, taken + e, i + 1);
                    let (n, page) = dir_page(entries, limit, taken + e, i + 1);
                    assert(entries.subrange(i, n).skip(1) =~= entries.subrange(i + 1, n));
                    assert(entries.subrange(i, n)[0] == entries[i]);
                    match page {
                        Some(b) => {
                            assert(taken + e + listing(entries.subrange(i + 1, n)) =~= taken + (e
                                + listing(entries.subrange(i + 1, n))));
                        },
                        None => {},
                    }
                }
            },
        }
    }
}

/// The file device: a file name read from memory, the registers that say where data goes,
/// and the result of the last request.
pub struct FileDevice {
    file_name_address: u16,
    file_name: Vec<u8>,
    success: u16,
    fetch_length: u16,
    target_address: u16,
    stat_target_address: u16,
    write_target_address: u16,
    append: u8,
}

impl View for FileDevice {
    type V = FileDeviceModel;

    closed spec fn view(&self) -> FileDeviceModel {
        FileDeviceModel {
            name_address: self.file_name_address,
            file_name: self.file_name@,
            success: self.success,
            length: self.fetch_length,
            target: self.target_address,
            stat_target: self.stat_target_address,
            write_target: self.write_target_address,
            append: self.append,
        }
    }
}

fn read_name<M: MainRamInterface>(main_ram: &M, address: u16) -> (r: Vec<u8>)
    requires
        main_ram.ok(),
    ensures
        name_at(main_ram.ram(), address as int, r@),
{
    proof {
        main_ram.lemma_ok_bounds();
    }
    let mut out: Vec<u8> = Vec::new();
    let mut a: usize = address as usize;
    while a < RAM_SIZE
        invariant
            address <= a <= RAM_SIZE,
            main_ram.ok(),
            main_ram.ram().len() == RAM_SIZE,
            out@ == main_ram.ram().subrange(address as int, a as int),
            forall|k: int| 0 <= k < out@.len() ==> out@[k] != 0,
        decreases RAM_SIZE - a,
    {
        let b = main_ram.read_from_ram(a as u16);
        if b == 0 {
            return out;
        }
        out.push(b);
        assert(main_ram.ram().subrange(address as int, a + 1) =~= main_ram.ram().subrange(
            address as int,
            a as int,
        ).push(b));
        a = a + 1;
    }
    out
}

impl FileDevice {
    /// A file device with every register zero and an empty file name.
    pub fn new() -> (r: Self)
        ensures
            r@ == (FileDeviceModel {
                name_address: 0,
                file_name: Seq::empty(),
                success: 0,
                length: 0,
                target: 0,
                stat_target: 0,
                write_target: 0,
                append: 0,
            }),
    {
        FileDevice {
            file_name_address: 0,
            file_name: Vec::new(),
            success: 0,
            fetch_length: 0,
            target_address: 0,
            stat_target_address: 0,
            write_target_address: 0,
            append: 0,
        }
    }

    /// Writes `val` to `port`. Completing the high-to-low write of the file name address reads
    /// the name from memory; completing the stat, read and write addresses, or writing the
    /// delete port, makes the request that the result says, to be answered before the program
    /// goes on.
    pub fn write<M: MainRamInterface>(&mut self, port: u8, val: u8, main_ram: &mut M) -> (r: FileRequest)
        requires
            port <= 0xf,
            old(main_ram).ok(),
        ensures
            *final(main_ram) == *old(main_ram),
            ({
                let m = registers_after(old(self)@, port, val);
                if port == 0x9 {
                    &&& r@ == FileRequestModel::Close
                    &&& final(self)@ == FileDeviceModel { file_name: final(self)@.file_name, success: 0, ..m }
                    &&& name_at(old(main_ram).ram(), m.name_address as int, final(self)@.file_name)
                } else if port == 0xf {
                    if fits(m.write_target, m.length as int) {
                        &&& r@ == FileRequestModel::Write(
                            m.file_name,
                            m.append == 1,
                            Some(old(main_ram).ram().subrange(m.write_target as int, m.write_target + m.length)),
                        )
                        &&& final(self)@ == m
                    } else {
                        &&& r@ == FileRequestModel::Write(m.file_name, m.append == 1, None)
                        &&& final(self)@ == FileDeviceModel { success: 0, ..m }
                    }
                } else {
                    &&& final(self)@ == m
                    &&& r@ == (if port == 0x5 {
                        FileRequestModel::Stat(m.file_name)
                    } else if port == 0x6 {
                        FileRequestModel::Delete(m.file_name)
                    } else if port == 0xd {
                        FileRequestModel::Read(m.file_name, m.length)
                    } else {
                        FileRequestModel::Nothing
                    })
                }
            }),
    {
        if port == 0x4 {
            self.stat_target_address = set_hi(self.stat_target_address, val);
            FileRequest::Nothing
        } else if port == 0x5 {
            self.stat_target_address = set_lo(self.stat_target_address, val);
            FileRequest::Stat { name: self.file_name.clone() }
        } else if port == 0x6 {
            FileRequest::Delete { name: self.file_name.clone() }
        } else if port == 0x7 {
            self.append = val;
            FileRequest::Nothing
        } else if port == 0x8 {
            self.file_name_address = set_hi(self.file_name_address, val);
            FileRequest::Nothing
        } else if port == 0x9 {
            self.file_name_address = set_lo(self.file_name_address, val);
            self.file_name = read_name(main_ram, self.file_name_address);
            self.success = 0;
            FileRequest::Close
        } else if port == 0xa {
            self.fetch_length = set_hi(self.fetch_length, val);
            FileRequest::Nothing
        } else if port == 0xb {
            self.fetch_length = set_lo(self.fetch_length, val);
            FileRequest::Nothing
        } else if port == 0xc {
            self.target_address = set_hi(self.target_address, val);
            FileRequest::Nothing
        } else if port == 0xd {
            self.target_address = set_lo(self.target_address, val);
            FileRequest::Read { name: self.file_name.clone(), length: self.fetch_length }
        } else if port == 0xe {
            self.write_target_address = set_hi(self.write_target_address, val);
            FileRequest::Nothing
        } else if port == 0xf {
            self.write_target_address = set_lo(self.write_target_address, val);
            let data = match main_ram.read(self.write_target_address, self.fetch_length) {
                Ok(d) => Some(d),
                Err(_) => {
                    self.success = 0;
                    None
                },
            };
            FileRequest::Write { name: self.file_name.clone(), append: self.append == 1, data }
        } else {
            FileRequest::Nothing
        }
    }

    /// Puts `bytes` in memory at `address` and makes their number the result; where they run
    /// past the end of memory, the result is zero and memory is left alone.
    fn put<M: MainRamInterface>(&mut self, address: u16, bytes: &[u8], main_ram: &mut M)
        requires
            old(main_ram).ok(),
            bytes@.len() <= 0xffff,
        ensures
            ram_only_changed(old(main_ram), final(main_ram)),
            if fits(address, bytes@.len() as int) {
                &&& final(main_ram).ram() == written(old(main_ram).ram(), address as int, bytes@)
                &&& final(self)@ == FileDeviceModel { success: bytes@.len() as u16, ..old(self)@ }
            } else {
                &&& final(main_ram).ram() == old(main_ram).ram()
                &&& final(self)@ == FileDeviceModel { success: 0, ..old(self)@ }
            },
    {
        proof {
            old(main_ram).lemma_ok_bounds();
        }
        match main_ram.write(address, bytes) {
            Ok(_) => {
                self.success = bytes.len() as u16;
            },
            Err(_) => {
                self.success = 0;
            },
        }
    }

    /// Answers a `Stat` request. `entry` is the last component of the file name and what it
    /// names, or `None` where the file system could not tell. The listing line goes to memory
    /// at the stat address when it is no longer than the length register (and fits in memory),
    /// and its length becomes the result; otherwise the result is zero.
    pub fn finish_stat<M: MainRamInterface>(&mut self, entry: Option<(Vec<u8>, EntryKind)>, main_ram: &mut M)
        requires
            old(main_ram).ok(),
        ensures
            ram_only_changed(old(main_ram), final(main_ram)),
            match entry {
                Some((name, kind)) if dir_entry(name@, kind).len() <= old(self)@.length && fits(
                    old(self)@.stat_target,
                    dir_entry(name@, kind).len() as int,
                ) => {
                    &&& final(main_ram).ram() == written(
                        old(main_ram).ram(),
                        old(self)@.stat_target as int,
                        dir_entry(name@, kind),
                    )
                    &&& final(self)@ == FileDeviceModel {
                        success: dir_entry(name@, kind).len() as u16,
                        ..old(self)@
                    }
                },
                _ => {
                    &&& final(main_ram).ram() == old(main_ram).ram()
                    &&& final(self)@ == FileDeviceModel { success: 0, ..old(self)@ }
                },
            },
    {
        proof {
            old(main_ram).lemma_ok_bounds();
        }
        match entry {
            None => {
                self.success = 0;
            },
            Some((name, kind)) => {
                let line = dir_entry_line(name.as_slice(), kind);
                if line.len() > self.fetch_length as usize {
                    self.success = 0;
                } else {
                    let address = self.stat_target_address;
                    self.put(address, line.as_slice(), main_ram);
                }
            },
        }
    }

    /// Answers a `Delete` request: the result is one where the file was deleted, else zero.
    pub fn finish_delete(&mut self, deleted: bool)
        ensures
            final(self)@ == (FileDeviceModel { success: if deleted { 1 } else { 0 }, ..old(self)@ }),
    {
        self.success = if deleted { 1 } else { 0 };
    }

    /// Answers a `Write` request: where the file could not be opened the result is zero;
    /// otherwise it stays as it was.
    pub fn finish_write(&mut self, opened: bool)
        ensures
            final(self)@ == (if opened { old(self)@ } else { (FileDeviceModel { success: 0, ..old(self)@ }) }),
    {
        if !opened {
            self.success = 0;
        }
    }

    /// Answers a `Read` request that found nothing to read from, or failed: the result is zero.
    pub fn finish_read_failed(&mut self)
        ensures
            final(self)@ == (FileDeviceModel { success: 0, ..old(self)@ }),
    {
        self.success = 0;
    }

    /// Answers a `Read` request on a file with the bytes read, no more than the length
    /// register: they go to memory at the target address, and their number is the result.
    pub fn finish_file_read<M: MainRamInterface>(&mut self, data: &[u8], main_ram: &mut M)
        requires
            old(main_ram).ok(),
            data@.len() <= old(self)@.length,
        ensures
            ram_only_changed(old(main_ram), final(main_ram)),
            if fits(old(self)@.target, data@.len() as int) {
                &&& final(main_ram).ram() == written(old(main_ram).ram(), old(self)@.target as int, data@)
                &&& final(self)@ == FileDeviceModel { success: data@.len() as u16, ..old(self)@ }
            } else {
                &&& final(main_ram).ram() == old(main_ram).ram()
                &&& final(self)@ == FileDeviceModel { success: 0, ..old(self)@ }
            },
    {
        let address = self.target_address;
        self.put(address, data, main_ram);
    }

    /// Answers a `Read` request on a directory, given its listing lines from where the last
    /// read stopped. Takes whole lines while they fit in the length register and gives how
    /// many it took; they go to memory at the target address and their length is the result.
    /// A failing entry before the page is full makes the result zero, and memory is left alone.
    pub fn finish_dir_read<M: MainRamInterface>(
        &mut self,
        upcoming: &Vec<Option<Vec<u8>>>,
        main_ram: &mut M,
    ) -> (consumed: usize)
        requires
            old(main_ram).ok(),
        ensures
            ram_only_changed(old(main_ram), final(main_ram)),
            ({
                let (n, page) = dir_page(entries_view(upcoming@), old(self)@.length as int, Seq::empty(), 0);
                &&& consumed == n
                &&& match page {
                    Some(b) if fits(old(self)@.target, b.len() as int) => {
                        &&& final(main_ram).ram() == written(old(main_ram).ram(), old(self)@.target as int, b)
                        &&& final(self)@ == FileDeviceModel { success: b.len() as u16, ..old(self)@ }
                    },
                    _ => {
                        &&& final(main_ram).ram() == old(main_ram).ram()
                        &&& final(self)@ == FileDeviceModel { success: 0, ..old(self)@ }
                    },
                }
            }),
    {
        proof {
            old(main_ram).lemma_ok_bounds();
        }
        let ghost ents = entries_view(upcoming@);
        let limit = self.fetch_length as usize;
        let mut buf: Vec<u8> = Vec::new();
        let mut i: usize = 0;
        let mut done = false;
        while !done && i < upcoming.len()
            invariant
                i <= upcoming@.len(),
                ents == entries_view(upcoming@),
                limit == self@.length,
                buf@.len() <= limit,
                dir_page(ents, limit as int, Seq::empty(), 0) == dir_page(ents, limit as int, buf@, i as int),
                done ==> dir_page(ents, limit as int, buf@, i as int) == (i as int, Some(buf@)),
                self@ == old(self)@,
                *main_ram == *old(main_ram),
                main_ram.ok(),
            decreases upcoming.len() - i, if done { 0int } else { 1int },
        {
            match &upcoming[i] {
                None => {
                    self.success = 0;
                    return i;
                },
                Some(e) => {
                    if e.len() > limit - buf.len() {
                        done = true;
                    } else {
                        let ghost before = buf@;
                        let mut j: usize = 0;
                        while j < e.len()
                            invariant
                                j <= e@.len(),
                                buf@ == before + e@.take(j as int),
                            decreases e.len() - j,
                        {
                            buf.push(e[j]);
                            assert(e@.take(j + 1) =~= e@.take(j as int).push(e@[j as int]));
                            j = j + 1;
                        }
                        assert(e@.take(e@.len() as int) =~= e@);
                        i = i + 1;
                    }
                },
            }
        }
        let address = self.target_address;
        self.put(address, buf.as_slice(), main_ram);
        i
    }

    /// Reads `port`: ports 2 and 3 give the result of the last request, high byte first.
    pub fn read(&self, port: u8) -> (r: u8)
        requires
            port <= 0xf,
        ensures
            r == (if port == 0x2 {
                (self@.success / 256) as u8
            } else if port == 0x3 {
                (self@.success % 256) as u8
            } else {
                0
            }),
    {
        if port == 0x2 {
            (self.success / 256) as u8
        } else if port == 0x3 {
            (self.success % 256) as u8
        } else {
            0
        }
    }
}

} // verus!
