use vstd::prelude::*;

use super::{
    other_stack, push_all, short_bytes, short_from, short_to_vec, stack_effect, this_stack, top,
    top_short, UxnWrapper,
};
use crate::uxninterface::{STACK_CAPACITY, Uxn, UxnError, UxnState, UxnWithDevices, same_except_stacks};

verus! {

/// A byte read as a signed (two's complement) offset.
pub open spec fn signed_offset(b: u8) -> int {
    if b < 128 {
        b as int
    } else {
        b as int - 256
    }
}

/// The address `offset` bytes away from `pc`, if there is one.
pub open spec fn relative_address(pc: u16, offset: u8) -> Option<u16> {
    let t = pc as int + signed_offset(offset);
    if 0 <= t <= 0xffff {
        Some(t as u16)
    } else {
        None
    }
}

/// Where a jump goes: the absolute address on top of the stack in short mode, else the
/// program counter moved by the signed byte on top of the stack.
pub open spec fn jump_target(pc: Option<u16>, short: bool, s: Seq<u8>) -> Result<u16, UxnError> {
    if short {
        Ok(top_short(s, 0))
    } else {
        match pc {
            None => Err(UxnError::OutOfRangeMemoryAddress),
            Some(p) => match relative_address(p, top(s, 0)) {
                Some(t) => Ok(t),
                None => Err(UxnError::OutOfRangeMemoryAddress),
            },
        }
    }
}

/// What an operation guarantees that takes `k` bytes from its stack, pushes nothing there,
/// and changes only the program counter and possibly the other stack.
pub open spec fn takes_inputs<U: UxnState>(pre: &U, post: &U, keep: bool, ret: bool, k: nat) -> bool {
    &&& post.ok()
    &&& post.ram() == pre.ram()
    &&& post.device_writes() == pre.device_writes()
    &&& post.device_reads() == pre.device_reads()
    &&& this_stack(post, ret) == stack_effect(this_stack(pre, ret), k, Seq::empty(), keep).0
}

/// The jump operation, which also serves the conditional jump once its condition holds.
pub open spec fn jump_post<U: UxnState>(
    pre: &U,
    post: &U,
    keep: bool,
    short: bool,
    ret: bool,
    k: nat,
    taken: bool,
    r: Result<(), UxnError>,
) -> bool {
    let s = this_stack(pre, ret);
    &&& takes_inputs(pre, post, keep, ret, k)
    &&& other_stack(post, ret) == other_stack(pre, ret)
    &&& if s.len() < k {
        post.pc() == pre.pc() && r == Err::<(), UxnError>(UxnError::StackUnderflow)
    } else if !taken {
        post.pc() == pre.pc() && r == Ok::<(), UxnError>(())
    } else {
        match jump_target(pre.pc(), short, s) {
            Ok(t) => post.pc() == Some(t) && r == Ok::<(), UxnError>(()),
            Err(e) => post.pc() == pre.pc() && r == Err::<(), UxnError>(e),
        }
    }
}

/// Moves the program counter by a signed byte and gives back the program counter it had.
fn do_signed_jump<U: Uxn>(u: &mut U, dst: u8) -> (r: Result<u16, UxnError>)
    requires
        old(u).ok(),
    ensures
        final(u).ok(),
        final(u).ram() == old(u).ram(),
        final(u).wst() == old(u).wst(),
        final(u).rst() == old(u).rst(),
        final(u).device_writes() == old(u).device_writes(),
        final(u).device_reads() == old(u).device_reads(),
        match jump_target(old(u).pc(), false, seq![dst]) {
            Ok(t) => final(u).pc() == Some(t) && r == Ok::<u16, UxnError>(old(u).pc().unwrap()),
            Err(e) => final(u).pc() == old(u).pc() && r == Err::<u16, UxnError>(e),
        },
{
    let current_pc = match u.get_program_counter() {
        Ok(p) => p,
        Err(e) => {
            return Err(e);
        },
    };
    let dst: i32 = if dst < 128 {
        dst as i32
    } else {
        dst as i32 - 256
    };
    let dst = current_pc as i32 + dst;
    if 0 <= dst && dst <= 0xffff {
        u.set_program_counter(dst as u16);
    } else {
        return Err(UxnError::OutOfRangeMemoryAddress);
    }
    Ok(current_pc)
}

// jump handler: moves the program counter by a signed value equal to the byte on the top of the stack, or an absolute address in short mode
pub fn jmp_handler<U: UxnWithDevices>(u: &mut U, keep: bool, short: bool, ret: bool) -> (r: Result<(), UxnError>)
    requires
        old(u).ok(),
    ensures
        jump_post(old(u), final(u), keep, short, ret, if short { 2 } else { 1 }, true, r),
{
    let mut wrapper = UxnWrapper::new(keep, ret);
    let k: usize = if short { 2 } else { 1 };
    let ghost s = this_stack(old(u), ret);
    let ins = match wrapper.pop_inputs(u, k) {
        Ok(v) => v,
        Err(e) => {
            return Err(e);
        },
    };
    let res = if short == true {
        let dst = short_from(ins[1], ins[0]);
        u.set_program_counter(dst);
        Ok(())
    } else {
        match do_signed_jump(u, ins[0]) {
            Ok(_) => Ok(()),
            Err(e) => Err(e),
        }
    };
    proof {
        assert(seq![top(s, 0)] =~= seq![ins@[0]]);
        u.lemma_ok_bounds();
    }
    wrapper.restore(u);
    proof {
        let base = if keep { s } else { s.take(s.len() - k) };
        assert(base + Seq::<u8>::empty() =~= base);
    }
    res
}

// jump conditional handler: if the byte preceeding the address is not 00, moves the program counter by a signed value equal to the byte on the top of the stack, or an absolute address in short mode
pub fn jcn_handler<U: UxnWithDevices>(u: &mut U, keep: bool, short: bool, ret: bool) -> (r: Result<(), UxnError>)
    requires
        old(u).ok(),
    ensures
        jump_post(
            old(u),
            final(u),
            keep,
            short,
            ret,
            if short { 3 } else { 2 },
            top(this_stack(old(u), ret), if short { 2 } else { 1 }) != 0,
            r,
        ),
{
    let mut wrapper = UxnWrapper::new(keep, ret);
    let k: usize = if short { 3 } else { 2 };
    let ghost s = this_stack(old(u), ret);
    let ins = match wrapper.pop_inputs(u, k) {
        Ok(v) => v,
        Err(e) => {
            return Err(e);
        },
    };
    let res = if short == true {
        let dst = short_from(ins[1], ins[0]);
        let b = ins[2];
        if b != 0 {
            u.set_program_counter(dst);
        }
        Ok(())
    } else {
        let dst = ins[0];
        let b = ins[1];
        if b != 0 {
            match do_signed_jump(u, dst) {
                Ok(_) => Ok(()),
                Err(e) => Err(e),
            }
        } else {
            Ok(())
        }
    };
    proof {
        assert(seq![top(s, 0)] =~= seq![ins@[0]]);
        u.lemma_ok_bounds();
    }
    wrapper.restore(u);
    proof {
        let base = if keep { s } else { s.take(s.len() - k) };
        assert(base + Seq::<u8>::empty() =~= base);
    }
    res
}

/// The jump to subroutine operation: the program counter is stashed on the other stack, high
/// byte first. In short mode the program counter is stashed before the jump; otherwise the
/// jump is made first.
pub open spec fn jsr_post<U: UxnState>(pre: &U, post: &U, keep: bool, short: bool, ret: bool, r: Result<(), UxnError>) -> bool {
    let s = this_stack(pre, ret);
    let k: nat = if short { 2 } else { 1 };
    let o = other_stack(pre, ret);
    &&& takes_inputs(pre, post, keep, ret, k)
    &&& if s.len() < k {
        &&& post.pc() == pre.pc()
        &&& other_stack(post, ret) == o
        &&& r == Err::<(), UxnError>(UxnError::StackUnderflow)
    } else {
        match pre.pc() {
            None => {
                &&& post.pc() == pre.pc()
                &&& other_stack(post, ret) == o
                &&& r == Err::<(), UxnError>(UxnError::OutOfRangeMemoryAddress)
            },
            Some(p) => match jump_target(pre.pc(), short, s) {
                Err(e) => {
                    &&& post.pc() == pre.pc()
                    &&& other_stack(post, ret) == o
                    &&& r == Err::<(), UxnError>(e)
                },
                Ok(t) => {
                    let fits = o.len() + 2 <= STACK_CAPACITY;
                    &&& other_stack(post, ret) == push_all(o, short_bytes(p))
                    &&& post.pc() == (if fits || !short {
                        Some(t)
                    } else {
                        pre.pc()
                    })
                    &&& r == (if fits {
                        Ok::<(), UxnError>(())
                    } else {
                        Err::<(), UxnError>(UxnError::StackOverflow)
                    })
                },
            },
        }
    }
}

/// Pushes a short onto the other stack than the operation's, high byte first.
fn stash_short<U: Uxn>(wrapper: &UxnWrapper, u: &mut U, v: u16) -> (r: Result<(), UxnError>)
    requires
        old(u).ok(),
    ensures
        final(u).ok(),
        same_except_stacks(final(u), old(u)),
        this_stack(final(u), wrapper.ret) == this_stack(old(u), wrapper.ret),
        other_stack(final(u), wrapper.ret) == push_all(other_stack(old(u), wrapper.ret), short_bytes(v)),
        r == (if other_stack(old(u), wrapper.ret).len() + 2 <= STACK_CAPACITY {
            Ok::<(), UxnError>(())
        } else {
            Err::<(), UxnError>(UxnError::StackOverflow)
        }),
{
    stash_bytes(wrapper, u, &short_to_vec(v))
}

/// Pushes `bytes` in order onto the other stack than the operation's, stopping at the first
/// that does not fit.
fn stash_bytes<U: Uxn>(wrapper: &UxnWrapper, u: &mut U, bytes: &Vec<u8>) -> (r: Result<(), UxnError>)
    requires
        old(u).ok(),
    ensures
        final(u).ok(),
        same_except_stacks(final(u), old(u)),
        this_stack(final(u), wrapper.ret) == this_stack(old(u), wrapper.ret),
        other_stack(final(u), wrapper.ret) == push_all(other_stack(old(u), wrapper.ret), bytes@),
        r == (if other_stack(old(u), wrapper.ret).len() + bytes@.len() <= STACK_CAPACITY {
            Ok::<(), UxnError>(())
        } else {
            Err::<(), UxnError>(UxnError::StackOverflow)
        }),
{
    let ghost base = other_stack(old(u), wrapper.ret);
    proof {
        old(u).lemma_ok_bounds();
        assert(bytes@.take(0) =~= Seq::<u8>::empty());
        assert(base + Seq::<u8>::empty() =~= base);
    }
    let mut i: usize = 0;
    while i < bytes.len()
        invariant
            u.ok(),
            same_except_stacks(u, old(u)),
            this_stack(u, wrapper.ret) == this_stack(old(u), wrapper.ret),
            base == other_stack(old(u), wrapper.ret),
            base.len() <= STACK_CAPACITY,
            i <= bytes.len(),
            base.len() + i <= STACK_CAPACITY,
            other_stack(u, wrapper.ret) == push_all(base, bytes@.take(i as int)),
        decreases bytes.len() - i,
    {
        proof {
            super::lemma_push_all_step(base, bytes@, i as int);
        }
        let res = wrapper.push_to_return_stack(u, bytes[i]);
        if res.is_err() {
            proof {
                super::lemma_push_all_full(base, bytes@, i as int);
            }
            return res;
        }
        i = i + 1;
    }
    proof {
        super::lemma_push_all_full(base, bytes@, i as int);
    }
    Ok(())
}

// jump stash return handler: pushes the value of the program counter to the return-stack and moves the program counter by a signed value equal to the byte on the top of the stack, or an absolute address in short mode
pub fn jsr_handler<U: UxnWithDevices>(u: &mut U, keep: bool, short: bool, ret: bool) -> (r: Result<(), UxnError>)
    requires
        old(u).ok(),
    ensures
        jsr_post(old(u), final(u), keep, short, ret, r),
{
    let mut wrapper = UxnWrapper::new(keep, ret);
    let k: usize = if short { 2 } else { 1 };
    let ghost s = this_stack(old(u), ret);
    let ins = match wrapper.pop_inputs(u, k) {
        Ok(v) => v,
        Err(e) => {
            return Err(e);
        },
    };
    let res = if short == true {
        let dst = short_from(ins[1], ins[0]);
        match u.get_program_counter() {
            Ok(pc) => {
                match stash_short(&wrapper, u, pc) {
                    Ok(()) => {
                        u.set_program_counter(dst);
                        Ok(())
                    },
                    Err(e) => Err(e),
                }
            },
            Err(e) => Err(e),
        }
    } else {
        match do_signed_jump(u, ins[0]) {
            Ok(pc) => stash_short(&wrapper, u, pc),
            Err(e) => Err(e),
        }
    };
    proof {
        assert(seq![top(s, 0)] =~= seq![ins@[0]]);
        u.lemma_ok_bounds();
    }
    wrapper.restore(u);
    proof {
        let base = if keep { s } else { s.take(s.len() - k) };
        assert(base + Seq::<u8>::empty() =~= base);
    }
    res
}

pub open spec fn sth_outputs(s: Seq<u8>, short: bool) -> Seq<u8> {
    if short {
        seq![top(s, 1), top(s, 0)]
    } else {
        seq![top(s, 0)]
    }
}

/// The stash operation: bytes taken from the operation's stack are pushed onto the other.
pub open spec fn sth_post<U: UxnState>(pre: &U, post: &U, keep: bool, short: bool, ret: bool, r: Result<(), UxnError>) -> bool {
    let s = this_stack(pre, ret);
    let k: nat = if short { 2 } else { 1 };
    let o = other_stack(pre, ret);
    let outs = sth_outputs(s, short);
    &&& takes_inputs(pre, post, keep, ret, k)
    &&& post.pc() == pre.pc()
    &&& if s.len() < k {
        other_stack(post, ret) == o && r == Err::<(), UxnError>(UxnError::StackUnderflow)
    } else {
        &&& other_stack(post, ret) == push_all(o, outs)
        &&& r == (if o.len() + outs.len() <= STACK_CAPACITY {
            Ok::<(), UxnError>(())
        } else {
            Err::<(), UxnError>(UxnError::StackOverflow)
        })
    }
}

// stash handler: moves the value at the top of the stack, to the return stack
pub fn sth_handler<U: UxnWithDevices>(u: &mut U, keep: bool, short: bool, ret: bool) -> (r: Result<(), UxnError>)
    requires
        old(u).ok(),
    ensures
        sth_post(old(u), final(u), keep, short, ret, r),
{
    let mut wrapper = UxnWrapper::new(keep, ret);
    let k: usize = if short { 2 } else { 1 };
    let ghost s = this_stack(old(u), ret);
    let ins = match wrapper.pop_inputs(u, k) {
        Ok(v) => v,
        Err(e) => {
            return Err(e);
        },
    };
    let outs = if short == true {
        let b1 = ins[0];
        let b2 = ins[1];
        vec![b2, b1]
    } else {
        let b = ins[0];
        vec![b]
    };
    assert(outs@ =~= sth_outputs(s, short));
    let res = stash_bytes(&wrapper, u, &outs);
    proof {
        u.lemma_ok_bounds();
    }
    wrapper.restore(u);
    proof {
        let base = if keep { s } else { s.take(s.len() - k) };
        assert(base + Seq::<u8>::empty() =~= base);
    }
    res
}

} // verus!
