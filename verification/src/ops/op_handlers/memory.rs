use vstd::prelude::*;

use super::control_flow::relative_address;
use super::{
    lemma_push_all_restores, other_stack, push_all, short_from, stack_effect, this_stack, top, top_short, UxnWrapper,
};
use crate::uxninterface::{STACK_CAPACITY, Uxn, UxnError, UxnState, UxnWithDevices, spec_push};

verus! {

/// The address a relative load or store refers to.
pub open spec fn relative_target(pc: Option<u16>, offset: u8) -> Result<u16, UxnError> {
    match pc {
        None => Err(UxnError::OutOfRangeMemoryAddress),
        Some(p) => match relative_address(p, offset) {
            Some(a) => Ok(a),
            None => Err(UxnError::OutOfRangeMemoryAddress),
        },
    }
}

/// The bytes a load pushes: the byte at `a` and, in short mode, the one after it (a short
/// load of the last byte of memory pushes that byte and then fails).
pub open spec fn load_outputs(ram: Seq<u8>, a: u16, short: bool) -> Seq<u8> {
    if short && a < u16::MAX {
        seq![ram[a as int], ram[a + 1]]
    } else {
        seq![ram[a as int]]
    }
}

/// What a load guarantees: it takes `k` bytes (the address) from its stack and pushes what
/// memory holds at the address, touching nothing else.
pub open spec fn load_post<U: UxnState>(
    pre: &U,
    post: &U,
    keep: bool,
    short: bool,
    ret: bool,
    k: nat,
    addr: Result<u16, UxnError>,
    r: Result<(), UxnError>,
) -> bool {
    let s = this_stack(pre, ret);
    &&& post.ok()
    &&& post.ram() == pre.ram()
    &&& post.pc() == pre.pc()
    &&& post.device_writes() == pre.device_writes()
    &&& post.device_reads() == pre.device_reads()
    &&& other_stack(post, ret) == other_stack(pre, ret)
    &&& if s.len() < k {
        this_stack(post, ret) == stack_effect(s, k, Seq::empty(), keep).0 && r
            == Err::<(), UxnError>(UxnError::StackUnderflow)
    } else {
        match addr {
            Err(e) => this_stack(post, ret) == stack_effect(s, k, Seq::empty(), keep).0 && r
                == Err::<(), UxnError>(e),
            Ok(a) => {
                let eff = stack_effect(s, k, load_outputs(pre.ram(), a, short), keep);
                &&& this_stack(post, ret) == eff.0
                &&& r == (if short && a == u16::MAX && eff.1 is Ok {
                    Err::<(), UxnError>(UxnError::OutOfRangeMemoryAddress)
                } else {
                    eff.1
                })
            },
        }
    }
}

/// Memory after a store of the value below the address bytes (`na` of them) at `a`; in short
/// mode the high byte goes to `a` and the low byte after it.
pub open spec fn stored_ram(ram: Seq<u8>, s: Seq<u8>, na: int, a: u16, short: bool) -> Seq<u8> {
    if !short {
        ram.update(a as int, top(s, na))
    } else if a == u16::MAX {
        ram.update(a as int, top(s, na + 1))
    } else {
        ram.update(a as int, top(s, na + 1)).update(a + 1, top(s, na))
    }
}

/// A value stored at an address is what a load from that address then gives: one byte, or in
/// short mode the high byte and then the low byte (a short store at the last byte of memory
/// fails, and is left out).
pub proof fn lemma_store_then_load(ram: Seq<u8>, s: Seq<u8>, na: int, a: u16, short: bool)
    requires
        ram.len() == 0x10000,
        0 <= na,
        s.len() >= na + (if short { 2int } else { 1int }),
        !(short && a == u16::MAX),
    ensures
        load_outputs(stored_ram(ram, s, na, a, short), a, short) == (if short {
            seq![top(s, na + 1), top(s, na)]
        } else {
            seq![top(s, na)]
        }),
{
    assert(load_outputs(stored_ram(ram, s, na, a, short), a, short) =~= (if short {
        seq![top(s, na + 1), top(s, na)]
    } else {
        seq![top(s, na)]
    }));
}

/// What a store guarantees: it takes the address (`na` bytes) and the value from its stack and
/// writes the value to memory.
pub open spec fn store_post<U: UxnState>(
    pre: &U,
    post: &U,
    keep: bool,
    short: bool,
    ret: bool,
    na: nat,
    addr: Result<u16, UxnError>,
    r: Result<(), UxnError>,
) -> bool {
    let s = this_stack(pre, ret);
    let k: nat = na + if short { 2nat } else { 1nat };
    &&& post.ok()
    &&& post.pc() == pre.pc()
    &&& post.device_writes() == pre.device_writes()
    &&& post.device_reads() == pre.device_reads()
    &&& other_stack(post, ret) == other_stack(pre, ret)
    &&& this_stack(post, ret) == stack_effect(s, k, Seq::empty(), keep).0
    &&& if s.len() < k {
        post.ram() == pre.ram() && r == Err::<(), UxnError>(UxnError::StackUnderflow)
    } else {
        match addr {
            Err(e) => post.ram() == pre.ram() && r == Err::<(), UxnError>(e),
            Ok(a) => {
                &&& post.ram() == stored_ram(pre.ram(), s, na as int, a, short)
                &&& r == (if short && a == u16::MAX {
                    Err::<(), UxnError>(UxnError::OutOfRangeMemoryAddress)
                } else {
                    Ok::<(), UxnError>(())
                })
            },
        }
    }
}

/// Pushes the byte at `address` (and, in short mode, the one after it) for a load whose
/// address bytes have been taken.
fn load<U: Uxn>(wrapper: &mut UxnWrapper, u: &mut U, address: u16, short: bool) -> (r: Result<(), UxnError>)
    requires
        old(u).ok(),
    ensures
        final(u).ok(),
        final(u).ram() == old(u).ram(),
        final(u).pc() == old(u).pc(),
        final(u).device_writes() == old(u).device_writes(),
        final(u).device_reads() == old(u).device_reads(),
        other_stack(final(u), old(wrapper).ret) == other_stack(old(u), old(wrapper).ret),
        final(wrapper).ret == old(wrapper).ret,
        ({
            let base = push_all(this_stack(old(u), old(wrapper).ret), old(wrapper).popped_values@.reverse());
            let outs = load_outputs(old(u).ram(), address, short);
            let ok = base.len() + outs.len() <= STACK_CAPACITY;
            &&& this_stack(final(u), old(wrapper).ret) == push_all(base, outs)
            &&& r == (if !ok {
                Err::<(), UxnError>(UxnError::StackOverflow)
            } else if short && address == u16::MAX {
                Err::<(), UxnError>(UxnError::OutOfRangeMemoryAddress)
            } else {
                Ok::<(), UxnError>(())
            })
        }),
{
    let value = wrapper.read_from_ram(u, address);
    let mut outs = vec![value];
    if short == true && address < u16::MAX {
        let value = wrapper.read_from_ram(u, address + 1);
        outs.push(value);
    }
    assert(outs@ =~= load_outputs(old(u).ram(), address, short));
    let res = wrapper.push_outputs(u, &outs);
    if res.is_err() {
        return res;
    }
    if short == true && address == u16::MAX {
        return Err(UxnError::OutOfRangeMemoryAddress);
    }
    Ok(())
}

/// Writes the value below the address bytes (`na` of them, already taken) to memory.
fn store<U: Uxn>(u: &mut U, ins: &Vec<u8>, na: usize, address: u16, short: bool) -> (r: Result<(), UxnError>)
    requires
        old(u).ok(),
        na + (if short { 2int } else { 1int }) == ins@.len(),
        na <= 2,
    ensures
        final(u).ok(),
        final(u).pc() == old(u).pc(),
        final(u).wst() == old(u).wst(),
        final(u).rst() == old(u).rst(),
        final(u).device_writes() == old(u).device_writes(),
        final(u).device_reads() == old(u).device_reads(),
        final(u).ram() == (if !short {
            old(u).ram().update(address as int, ins@[na as int])
        } else if address == u16::MAX {
            old(u).ram().update(address as int, ins@[na + 1])
        } else {
            old(u).ram().update(address as int, ins@[na + 1]).update(address + 1, ins@[na as int])
        }),
        r == (if short && address == u16::MAX {
            Err::<(), UxnError>(UxnError::OutOfRangeMemoryAddress)
        } else {
            Ok::<(), UxnError>(())
        }),
{
    if short == false {
        u.write_to_ram(address, ins[na]);
        return Ok(());
    }
    u.write_to_ram(address, ins[na + 1]);
    if address == u16::MAX {
        return Err(UxnError::OutOfRangeMemoryAddress);
    }
    u.write_to_ram(address + 1, ins[na]);
    Ok(())
}

/// The program counter moved by a signed byte, as an address to load from or store to.
fn relative_target_exec<U: Uxn>(u: &U, offset: u8) -> (r: Result<u16, UxnError>)
    requires
        u.ok(),
    ensures
        r == relative_target(u.pc(), offset),
{
    let pc = match u.get_program_counter() {
        Ok(p) => p,
        Err(e) => {
            return Err(e);
        },
    };
    let off: i32 = if offset < 128 {
        offset as i32
    } else {
        offset as i32 - 256
    };
    let t = pc as i32 + off;
    if 0 <= t && t <= 0xffff {
        Ok(t as u16)
    } else {
        Err(UxnError::OutOfRangeMemoryAddress)
    }
}

// load zero-page handler: pushes the value at an address within the first 256 bytes of memory, to the top of the stack
pub fn ldz_handler<U: UxnWithDevices>(u: &mut U, keep: bool, short: bool, ret: bool) -> (r: Result<(), UxnError>)
    requires
        old(u).ok(),
    ensures
        load_post(old(u), final(u), keep, short, ret, 1, Ok(top(this_stack(old(u), ret), 0) as u16), r),
{
    let mut wrapper = UxnWrapper::new(keep, ret);
    let ins = match wrapper.pop_inputs(u, 1) {
        Ok(v) => v,
        Err(e) => {
            return Err(e);
        },
    };
    load(&mut wrapper, u, ins[0] as u16, short)
}

// store zero-page handler: writes a value to an address within the first 256 bytes of memory
pub fn stz_handler<U: UxnWithDevices>(u: &mut U, keep: bool, short: bool, ret: bool) -> (r: Result<(), UxnError>)
    requires
        old(u).ok(),
    ensures
        store_post(old(u), final(u), keep, short, ret, 1, Ok(top(this_stack(old(u), ret), 0) as u16), r),
{
    let mut wrapper = UxnWrapper::new(keep, ret);
    let k: usize = if short { 3 } else { 2 };
    let ghost s = this_stack(old(u), ret);
    let ins = match wrapper.pop_inputs(u, k) {
        Ok(v) => v,
        Err(e) => {
            return Err(e);
        },
    };
    let res = store(u, &ins, 1, ins[0] as u16, short);
    proof {
        u.lemma_ok_bounds();
    }
    wrapper.restore(u);
    proof {
        let base = if keep { s } else { s.take(s.len() - k) };
        assert(base + Seq::<u8>::empty() =~= base);
    }
    res
}

// load relative handler: pushes the value at a relative address, to the top of the stack. The possible relative range is -128 to +127 bytes
pub fn ldr_handler<U: UxnWithDevices>(u: &mut U, keep: bool, short: bool, ret: bool) -> (r: Result<(), UxnError>)
    requires
        old(u).ok(),
    ensures
        load_post(old(u), final(u), keep, short, ret, 1, relative_target(old(u).pc(), top(this_stack(old(u), ret), 0)), r),
{
    let mut wrapper = UxnWrapper::new(keep, ret);
    let ghost s = this_stack(old(u), ret);
    let ins = match wrapper.pop_inputs(u, 1) {
        Ok(v) => v,
        Err(e) => {
            return Err(e);
        },
    };
    match relative_target_exec(u, ins[0]) {
        Ok(address) => load(&mut wrapper, u, address, short),
        Err(e) => {
            proof {
                u.lemma_ok_bounds();
            }
            wrapper.restore(u);
            proof {
                let base = if keep { s } else { s.take(s.len() - 1) };
                assert(base + Seq::<u8>::empty() =~= base);
            }
            Err(e)
        },
    }
}

// store relative handler: writes a value to a relative address. The possible relative range is -128 to +127 bytes
pub fn str_handler<U: UxnWithDevices>(u: &mut U, keep: bool, short: bool, ret: bool) -> (r: Result<(), UxnError>)
    requires
        old(u).ok(),
    ensures
        store_post(old(u), final(u), keep, short, ret, 1, relative_target(old(u).pc(), top(this_stack(old(u), ret), 0)), r),
{
    let mut wrapper = UxnWrapper::new(keep, ret);
    let k: usize = if short { 3 } else { 2 };
    let ghost s = this_stack(old(u), ret);
    let ins = match wrapper.pop_inputs(u, k) {
        Ok(v) => v,
        Err(e) => {
            return Err(e);
        },
    };
    let res = match relative_target_exec(u, ins[0]) {
        Ok(address) => store(u, &ins, 1, address, short),
        Err(e) => Err(e),
    };
    proof {
        u.lemma_ok_bounds();
    }
    wrapper.restore(u);
    proof {
        let base = if keep { s } else { s.take(s.len() - k) };
        assert(base + Seq::<u8>::empty() =~= base);
    }
    res
}

// load absolute handler: push value at absolute address to the top of the stack
pub fn lda_handler<U: UxnWithDevices>(u: &mut U, keep: bool, short: bool, ret: bool) -> (r: Result<(), UxnError>)
    requires
        old(u).ok(),
    ensures
        load_post(old(u), final(u), keep, short, ret, 2, Ok(top_short(this_stack(old(u), ret), 0)), r),
{
    let mut wrapper = UxnWrapper::new(keep, ret);

    // get 16 bit absolute address (first byte on stack provides least significant byte of address,
    // second byte on stack the most significant)
    let ins = match wrapper.pop_inputs(u, 2) {
        Ok(v) => v,
        Err(e) => {
            return Err(e);
        },
    };
    let address = short_from(ins[1], ins[0]);
    load(&mut wrapper, u, address, short)
}

// store absolute handler: writes a value to an absolute address
pub fn sta_handler<U: UxnWithDevices>(u: &mut U, keep: bool, short: bool, ret: bool) -> (r: Result<(), UxnError>)
    requires
        old(u).ok(),
    ensures
        store_post(old(u), final(u), keep, short, ret, 2, Ok(top_short(this_stack(old(u), ret), 0)), r),
{
    let mut wrapper = UxnWrapper::new(keep, ret);
    let k: usize = if short { 4 } else { 3 };
    let ghost s = this_stack(old(u), ret);
    let ins = match wrapper.pop_inputs(u, k) {
        Ok(v) => v,
        Err(e) => {
            return Err(e);
        },
    };
    let address = short_from(ins[1], ins[0]);
    let res = store(u, &ins, 2, address, short);
    proof {
        u.lemma_ok_bounds();
    }
    wrapper.restore(u);
    proof {
        let base = if keep { s } else { s.take(s.len() - k) };
        assert(base + Seq::<u8>::empty() =~= base);
    }
    res
}

/// The device address after `d`, wrapping round.
pub open spec fn next_device_address(d: u8) -> u8 {
    ((d as int + 1) % 256) as u8
}

/// What the device input operation guarantees: the device address is taken from the stack, and
/// each byte read from the device (one, or two from consecutive addresses in short mode, as
/// recorded in the history of device reads) is pushed.
pub open spec fn dei_post<U: UxnState>(pre: &U, post: &U, keep: bool, short: bool, ret: bool, r: Result<(), UxnError>) -> bool {
    let s = this_stack(pre, ret);
    let n = pre.device_reads().len();
    let reads = post.device_reads().skip(n as int);
    &&& post.ok()
    &&& post.ram() == pre.ram()
    &&& post.pc() == pre.pc()
    &&& post.device_writes() == pre.device_writes()
    &&& other_stack(post, ret) == other_stack(pre, ret)
    &&& post.device_reads().len() >= n
    &&& post.device_reads().take(n as int) == pre.device_reads()
    &&& if s.len() < 1 {
        &&& reads.len() == 0
        &&& this_stack(post, ret) == stack_effect(s, 1, Seq::empty(), keep).0
        &&& r == Err::<(), UxnError>(UxnError::StackUnderflow)
    } else {
        let d = top(s, 0);
        let base = if keep {
            s
        } else {
            s.drop_last()
        };
        &&& reads.len() <= (if short { 2int } else { 1int })
        &&& reads.len() >= 1 ==> reads[0].0 == d
        &&& reads.len() >= 2 ==> reads[1].0 == next_device_address(d)
        &&& if reads.len() == 0 {
            this_stack(post, ret) == base && r is Err
        } else if base.len() >= STACK_CAPACITY {
            &&& reads.len() == 1
            &&& this_stack(post, ret) == base
            &&& r == Err::<(), UxnError>(UxnError::StackOverflow)
        } else if !short {
            this_stack(post, ret) == base.push(reads[0].1) && r == Ok::<(), UxnError>(())
        } else if reads.len() == 1 {
            this_stack(post, ret) == base.push(reads[0].1) && r is Err
        } else {
            &&& this_stack(post, ret) == spec_push(base.push(reads[0].1), reads[1].1)
            &&& r == (if base.len() + 2 <= STACK_CAPACITY {
                Ok::<(), UxnError>(())
            } else {
                Err::<(), UxnError>(UxnError::StackOverflow)
            })
        }
    }
}

// device input handler: pushes a value from the device page, to the top of the stack. The target device might capture the reading to trigger an I/O event
pub fn dei_handler<U: UxnWithDevices>(u: &mut U, keep: bool, short: bool, ret: bool) -> (r: Result<(), UxnError>)
    requires
        old(u).ok(),
    ensures
        dei_post(old(u), final(u), keep, short, ret, r),
{
    let mut wrapper = UxnWrapper::new(keep, ret);
    let ghost s = this_stack(old(u), ret);
    let ghost n = old(u).device_reads().len();
    proof {
        assert(old(u).device_reads().skip(n as int) =~= Seq::<(u8, u8)>::empty());
        assert(old(u).device_reads().take(n as int) =~= old(u).device_reads());
    }
    let ins = match wrapper.pop_inputs(u, 1) {
        Ok(v) => v,
        Err(e) => {
            return Err(e);
        },
    };
    let device_address = ins[0];
    let value = match u.read_from_device(device_address) {
        Ok(v) => v,
        Err(e) => {
            proof {
                u.lemma_ok_bounds();
            }
            wrapper.restore(u);
            proof {
                let base = if keep { s } else { s.take(s.len() - 1) };
                assert(base + Seq::<u8>::empty() =~= base);
                assert(s.drop_last() =~= s.take(s.len() - 1));
            }
            return Err(e);
        },
    };
    let ghost reads1 = u.device_reads();
    proof {
        assert(reads1.skip(n as int) =~= seq![(device_address, value)]);
        assert(reads1.take(n as int) =~= old(u).device_reads());
        assert(s.drop_last() =~= s.take(s.len() - 1));
        u.lemma_ok_bounds();
    }
    let res = wrapper.push(u, value);
    if res.is_err() {
        return res;
    }
    if short == false {
        return Ok(());
    }
    let next_address = ((device_address as u16 + 1) % 256) as u8;
    let value = match u.read_from_device(next_address) {
        Ok(v) => v,
        Err(e) => {
            return Err(e);
        },
    };
    proof {
        assert(u.device_reads().skip(n as int) =~= seq![(device_address, reads1.last().1), (next_address, value)]);
        assert(u.device_reads().take(n as int) =~= old(u).device_reads());
        assert(Seq::<u8>::empty().reverse() =~= Seq::<u8>::empty());
        u.lemma_ok_bounds();
        assert(this_stack(u, ret) + Seq::<u8>::empty() =~= this_stack(u, ret));
    }
    wrapper.push(u, value)
}

/// What the device output operation guarantees: the device address and then a value are taken
/// from the stack and the value is written to the device; in short mode the byte below them is
/// the second value, written to the same device address after the first (with only two bytes on
/// the stack, the first value is written and the operation then fails). Unless the address is a
/// stack index port of the system device, which sets a stack's depth, the stacks end as taking
/// those bytes leaves them.
pub open spec fn deo_post<U: UxnState>(pre: &U, post: &U, keep: bool, short: bool, ret: bool, r: Result<(), UxnError>) -> bool {
    let s = this_stack(pre, ret);
    let n = pre.device_writes().len();
    let writes = post.device_writes().skip(n as int);
    &&& post.ok()
    &&& post.pc() == pre.pc()
    &&& post.device_reads() == pre.device_reads()
    &&& post.device_writes().len() >= n
    &&& post.device_writes().take(n as int) == pre.device_writes()
    &&& if s.len() < 2 {
        &&& writes.len() == 0
        &&& post.ram() == pre.ram()
        &&& other_stack(post, ret) == other_stack(pre, ret)
        &&& this_stack(post, ret) == stack_effect(s, 2, Seq::empty(), keep).0
        &&& r == Err::<(), UxnError>(UxnError::StackUnderflow)
    } else {
        &&& writes.len() >= 1
        &&& writes[0] == (top(s, 0), top(s, 1))
        &&& (top(s, 0) % 16 != 0x2 && top(s, 0) % 16 != 0x3) ==> {
            &&& this_stack(post, ret) == stack_effect(s, if short && s.len() >= 3 { 3 } else { 2 }, Seq::empty(), keep).0
            &&& other_stack(post, ret) == other_stack(pre, ret)
        }
        &&& if !short {
            writes.len() == 1 && r == Ok::<(), UxnError>(())
        } else if s.len() >= 3 {
            writes.len() == 2 && writes[1] == (top(s, 0), top(s, 2)) && r == Ok::<(), UxnError>(())
        } else {
            writes.len() == 1 && r == Err::<(), UxnError>(UxnError::StackUnderflow)
        }
    }
}

/// Putting back what was taken for a device output (nothing, unless the operation keeps its
/// operands) leaves the stack as the operation's stack effect says.
proof fn deo_restored(s: Seq<u8>, mid: Seq<u8>, k: int, keep: bool, plain: bool)
    requires
        s.len() <= STACK_CAPACITY,
        2 <= k <= s.len(),
        plain ==> mid == s.take(s.len() - k),
    ensures
        plain ==> push_all(mid, if keep { s.skip(s.len() - k) } else { Seq::<u8>::empty() }) == stack_effect(s, k as nat, Seq::empty(), keep).0,
{
    if plain {
        if keep {
            lemma_push_all_restores(s, k);
            assert(stack_effect(s, k as nat, Seq::empty(), keep).0 == push_all(s, Seq::<u8>::empty()));
            assert(s + Seq::<u8>::empty() =~= s);
        } else {
            assert(mid + Seq::<u8>::empty() =~= mid);
        }
    }
}

// device output handler: writes a value to the device page. The target device might capture the writing to trigger an I/O event
pub fn deo_handler<U: UxnWithDevices>(u: &mut U, keep: bool, short: bool, ret: bool) -> (r: Result<(), UxnError>)
    requires
        old(u).ok(),
    ensures
        deo_post(old(u), final(u), keep, short, ret, r),
{
    let mut wrapper = UxnWrapper::new(keep, ret);
    let ghost s = this_stack(old(u), ret);
    let ghost other = other_stack(old(u), ret);
    let ghost n = old(u).device_writes().len();
    proof {
        old(u).lemma_ok_bounds();
        assert(old(u).device_writes().skip(n as int) =~= Seq::<(u8, u8)>::empty());
        assert(old(u).device_writes().take(n as int) =~= old(u).device_writes());
    }

    // get device address to write to from working/return stack, then the byte to write
    let ins = match wrapper.pop_inputs(u, 2) {
        Ok(v) => v,
        Err(e) => {
            return Err(e);
        },
    };
    let device_address = ins[0];
    let value = ins[1];
    let ghost plain = device_address % 16 != 0x2 && device_address % 16 != 0x3;

    // in short mode the second value is the next byte on the stack
    let second = if short {
        match wrapper.pop(u) {
            Ok(value2) => Ok(value2),
            Err(e) => Err(e),
        }
    } else {
        Ok(0)
    };
    let ghost k: int = if short && s.len() >= 3 { 3 } else { 2 };
    proof {
        assert(this_stack(u, ret) == s.take(s.len() - k));
        assert(other_stack(u, ret) == other);
        if keep {
            assert(wrapper.popped_values@.reverse() =~= s.skip(s.len() - k));
        } else {
            assert(wrapper.popped_values@ =~= Seq::<u8>::empty());
        }
    }

    // write byte to device responsible for device address
    wrapper.write_to_device(u, device_address, value);
    proof {
        assert(u.device_writes().skip(n as int) =~= seq![(device_address, value)]);
        assert(u.device_writes().take(n as int) =~= old(u).device_writes());
    }

    if short == true {
        match second {
            Ok(value2) => {
                wrapper.write_to_device(u, device_address, value2);
                proof {
                    assert(u.device_writes().skip(n as int) =~= seq![(device_address, value), (device_address, value2)]);
                    assert(u.device_writes().take(n as int) =~= old(u).device_writes());
                }
            },
            Err(e) => {
                let ghost mid = this_stack(u, ret);
                wrapper.restore(u);
                proof {
                    deo_restored(s, mid, k, keep, plain);
                }
                return Err(e);
            },
        }
    }
    let ghost mid = this_stack(u, ret);
    wrapper.restore(u);
    proof {
        deo_restored(s, mid, k, keep, plain);
    }
    Ok(())
}

} // verus!
