use vstd::prelude::*;

use super::{
    other_stack, short_bytes, short_from, short_to_vec, stack_op_post, this_stack, top,
    top_short, UxnWrapper,
};
use crate::uxninterface::{STACK_CAPACITY, Uxn, UxnError, UxnState, UxnWithDevices, next_pc, same_state, spec_push};

verus! {

/// What the literal operation does: the next byte of the program (and, in short mode, the one
/// after) is pushed onto the stack.
pub open spec fn lit_post<U: UxnState>(pre: &U, post: &U, short: bool, ret: bool, r: Result<(), UxnError>) -> bool {
    &&& post.ok()
    &&& post.ram() == pre.ram()
    &&& post.device_writes() == pre.device_writes()
    &&& post.device_reads() == pre.device_reads()
    &&& other_stack(post, ret) == other_stack(pre, ret)
    &&& match pre.pc() {
        None => {
            &&& same_state(post, pre)
            &&& r == Err::<(), UxnError>(UxnError::OutOfRangeMemoryAddress)
        },
        Some(p) => {
            let s = this_stack(pre, ret);
            let s1 = spec_push(s, pre.ram()[p as int]);
            if s.len() >= STACK_CAPACITY {
                &&& this_stack(post, ret) == s
                &&& post.pc() == next_pc(p)
                &&& r == Err::<(), UxnError>(UxnError::StackOverflow)
            } else if !short {
                &&& this_stack(post, ret) == s1
                &&& post.pc() == next_pc(p)
                &&& r == Ok::<(), UxnError>(())
            } else {
                match next_pc(p) {
                    None => {
                        &&& this_stack(post, ret) == s1
                        &&& post.pc() == next_pc(p)
                        &&& r == Err::<(), UxnError>(UxnError::OutOfRangeMemoryAddress)
                    },
                    Some(q) => {
                        &&& this_stack(post, ret) == spec_push(s1, pre.ram()[q as int])
                        &&& post.pc() == next_pc(q)
                        &&& r == (if s1.len() < STACK_CAPACITY {
                            Ok::<(), UxnError>(())
                        } else {
                            Err::<(), UxnError>(UxnError::StackOverflow)
                        })
                    },
                }
            }
        },
    }
}

// literal handler: pushes the next value seen in the program onto the stack
pub fn lit_handler<U: UxnWithDevices>(u: &mut U, keep: bool, short: bool, ret: bool) -> (r: Result<(), UxnError>)
    requires
        old(u).ok(),
    ensures
        lit_post(old(u), final(u), short, ret, r),
{
    let mut wrapper = UxnWrapper::new(keep, ret);
    proof {
        old(u).lemma_ok_bounds();
        assert(Seq::<u8>::empty().reverse() =~= Seq::<u8>::empty());
        assert(this_stack(old(u), ret) + Seq::<u8>::empty() =~= this_stack(old(u), ret));
    }

    // read byte/short from ram
    let a = match wrapper.read_next_byte_from_ram(u) {
        Ok(a) => a,
        Err(e) => {
            return Err(e);
        },
    };
    proof {
        u.lemma_ok_bounds();
        assert(Seq::<u8>::empty().reverse() =~= Seq::<u8>::empty());
        assert(this_stack(u, ret) + Seq::<u8>::empty() =~= this_stack(u, ret));
    }
    let res = wrapper.push(u, a);
    if res.is_err() {
        return res;
    }
    if short == false {
        return Ok(());
    }

    let a = match wrapper.read_next_byte_from_ram(u) {
        Ok(a) => a,
        Err(e) => {
            return Err(e);
        },
    };
    proof {
        u.lemma_ok_bounds();
        assert(Seq::<u8>::empty().reverse() =~= Seq::<u8>::empty());
        assert(this_stack(u, ret) + Seq::<u8>::empty() =~= this_stack(u, ret));
    }
    wrapper.push(u, a)
}

pub open spec fn inc_outputs(s: Seq<u8>, short: bool) -> Seq<u8> {
    if short {
        short_bytes(((top_short(s, 0) as int + 1) % 0x10000) as u16)
    } else {
        seq![((top(s, 0) as int + 1) % 0x100) as u8]
    }
}

// increment handler: adds 1 to value at top of stack
pub fn inc_handler<U: UxnWithDevices>(u: &mut U, keep: bool, short: bool, ret: bool) -> (r: Result<(), UxnError>)
    requires
        old(u).ok(),
    ensures
        stack_op_post(old(u), final(u), keep, ret, if short { 2 } else { 1 }, inc_outputs(this_stack(old(u), ret), short), r),
{
    let mut wrapper = UxnWrapper::new(keep, ret);
    let k: usize = if short { 2 } else { 1 };
    let ins = match wrapper.pop_inputs(u, k) {
        Ok(v) => v,
        Err(e) => {
            return Err(e);
        },
    };
    let outs = if short == false {
        vec![((ins[0] as u16 + 1) % 0x100) as u8]
    } else {
        let val = short_from(ins[1], ins[0]);
        short_to_vec(((val as u32 + 1) % 0x10000) as u16)
    };
    assert(outs@ =~= inc_outputs(this_stack(old(u), ret), short));
    wrapper.push_outputs(u, &outs)
}

// pop handler: removes the value at the top of the stack
pub fn pop_handler<U: UxnWithDevices>(u: &mut U, keep: bool, short: bool, ret: bool) -> (r: Result<(), UxnError>)
    requires
        old(u).ok(),
    ensures
        keep ==> same_state(final(u), old(u)) && final(u).ok() && r == Ok::<(), UxnError>(()),
        !keep ==> stack_op_post(old(u), final(u), keep, ret, if short { 2 } else { 1 }, Seq::<u8>::empty(), r),
{
    // pop with the keep flag is a no-op
    if keep == true {
        return Ok(());
    }
    let mut wrapper = UxnWrapper::new(keep, ret);
    let k: usize = if short { 2 } else { 1 };
    let ins = match wrapper.pop_inputs(u, k) {
        Ok(v) => v,
        Err(e) => {
            return Err(e);
        },
    };
    let outs: Vec<u8> = Vec::new();
    wrapper.push_outputs(u, &outs)
}

pub open spec fn dup_outputs(s: Seq<u8>, short: bool) -> Seq<u8> {
    if short {
        seq![top(s, 1), top(s, 0), top(s, 1), top(s, 0)]
    } else {
        seq![top(s, 0), top(s, 0)]
    }
}

// duplicate handler: duplicates the value at the top of the stack
pub fn dup_handler<U: UxnWithDevices>(u: &mut U, keep: bool, short: bool, ret: bool) -> (r: Result<(), UxnError>)
    requires
        old(u).ok(),
    ensures
        stack_op_post(old(u), final(u), keep, ret, if short { 2 } else { 1 }, dup_outputs(this_stack(old(u), ret), short), r),
{
    let mut wrapper = UxnWrapper::new(keep, ret);
    let k: usize = if short { 2 } else { 1 };
    let ins = match wrapper.pop_inputs(u, k) {
        Ok(v) => v,
        Err(e) => {
            return Err(e);
        },
    };
    let outs = if short == true {
        let byte_low = ins[0];
        let byte_high = ins[1];
        vec![byte_high, byte_low, byte_high, byte_low]
    } else {
        let byte = ins[0];
        vec![byte, byte]
    };
    assert(outs@ =~= dup_outputs(this_stack(old(u), ret), short));
    wrapper.push_outputs(u, &outs)
}

pub open spec fn nip_outputs(s: Seq<u8>, short: bool) -> Seq<u8> {
    if short {
        seq![top(s, 1), top(s, 0)]
    } else {
        seq![top(s, 0)]
    }
}

//nip handler: removes the second value from the stack
pub fn nip_handler<U: UxnWithDevices>(u: &mut U, keep: bool, short: bool, ret: bool) -> (r: Result<(), UxnError>)
    requires
        old(u).ok(),
    ensures
        stack_op_post(old(u), final(u), keep, ret, if short { 4 } else { 2 }, nip_outputs(this_stack(old(u), ret), short), r),
{
    let mut wrapper = UxnWrapper::new(keep, ret);
    let k: usize = if short { 4 } else { 2 };
    let ins = match wrapper.pop_inputs(u, k) {
        Ok(v) => v,
        Err(e) => {
            return Err(e);
        },
    };
    let outs = if short == true {
        let byte_low = ins[0];
        let byte_high = ins[1];
        vec![byte_high, byte_low]
    } else {
        let byte = ins[0];
        vec![byte]
    };
    assert(outs@ =~= nip_outputs(this_stack(old(u), ret), short));
    wrapper.push_outputs(u, &outs)
}

pub open spec fn swp_outputs(s: Seq<u8>, short: bool) -> Seq<u8> {
    if short {
        seq![top(s, 1), top(s, 0), top(s, 3), top(s, 2)]
    } else {
        seq![top(s, 0), top(s, 1)]
    }
}

// swap handler: exchanges the first and second values at the top of the stack
pub fn swp_handler<U: UxnWithDevices>(u: &mut U, keep: bool, short: bool, ret: bool) -> (r: Result<(), UxnError>)
    requires
        old(u).ok(),
    ensures
        stack_op_post(old(u), final(u), keep, ret, if short { 4 } else { 2 }, swp_outputs(this_stack(old(u), ret), short), r),
{
    let mut wrapper = UxnWrapper::new(keep, ret);
    let k: usize = if short { 4 } else { 2 };
    let ins = match wrapper.pop_inputs(u, k) {
        Ok(v) => v,
        Err(e) => {
            return Err(e);
        },
    };
    let outs = if short == true {
        let short_low_byte = ins[0];
        let short_high_byte = ins[1];
        let short2_low_byte = ins[2];
        let short2_high_byte = ins[3];
        vec![short_high_byte, short_low_byte, short2_high_byte, short2_low_byte]
    } else {
        let byte = ins[0];
        let byte2 = ins[1];
        vec![byte, byte2]
    };
    assert(outs@ =~= swp_outputs(this_stack(old(u), ret), short));
    wrapper.push_outputs(u, &outs)
}

pub open spec fn ovr_outputs(s: Seq<u8>, short: bool) -> Seq<u8> {
    if short {
        seq![top(s, 3), top(s, 2), top(s, 1), top(s, 0), top(s, 3), top(s, 2)]
    } else {
        seq![top(s, 1), top(s, 0), top(s, 1)]
    }
}

// over handler: duplicates the second value at the top of the stack
pub fn ovr_handler<U: UxnWithDevices>(u: &mut U, keep: bool, short: bool, ret: bool) -> (r: Result<(), UxnError>)
    requires
        old(u).ok(),
    ensures
        stack_op_post(old(u), final(u), keep, ret, if short { 4 } else { 2 }, ovr_outputs(this_stack(old(u), ret), short), r),
{
    let mut wrapper = UxnWrapper::new(keep, ret);
    let k: usize = if short { 4 } else { 2 };
    let ins = match wrapper.pop_inputs(u, k) {
        Ok(v) => v,
        Err(e) => {
            return Err(e);
        },
    };
    let outs = if short == true {
        let short_low_byte = ins[0];
        let short_high_byte = ins[1];
        let short2_low_byte = ins[2];
        let short2_high_byte = ins[3];
        vec![
            short2_high_byte,
            short2_low_byte,
            short_high_byte,
            short_low_byte,
            short2_high_byte,
            short2_low_byte,
        ]
    } else {
        let byte = ins[0];
        let byte2 = ins[1];
        vec![byte2, byte, byte2]
    };
    assert(outs@ =~= ovr_outputs(this_stack(old(u), ret), short));
    wrapper.push_outputs(u, &outs)
}

pub open spec fn rot_outputs(s: Seq<u8>, short: bool) -> Seq<u8> {
    if short {
        seq![top(s, 3), top(s, 2), top(s, 1), top(s, 0), top(s, 5), top(s, 4)]
    } else {
        seq![top(s, 1), top(s, 0), top(s, 2)]
    }
}

// rotate handler: rotates three values at the top of the stack, to the left, wrapping
pub fn rot_handler<U: UxnWithDevices>(u: &mut U, keep: bool, short: bool, ret: bool) -> (r: Result<(), UxnError>)
    requires
        old(u).ok(),
    ensures
        stack_op_post(old(u), final(u), keep, ret, if short { 6 } else { 3 }, rot_outputs(this_stack(old(u), ret), short), r),
{
    let mut wrapper = UxnWrapper::new(keep, ret);
    let k: usize = if short { 6 } else { 3 };
    let ins = match wrapper.pop_inputs(u, k) {
        Ok(v) => v,
        Err(e) => {
            return Err(e);
        },
    };
    let outs = if short == true {
        let a_low = ins[0];
        let a_high = ins[1];
        let b_low = ins[2];
        let b_high = ins[3];
        let c_low = ins[4];
        let c_high = ins[5];
        vec![b_high, b_low, a_high, a_low, c_high, c_low]
    } else {
        let a = ins[0];
        let b = ins[1];
        let c = ins[2];
        vec![b, a, c]
    };
    assert(outs@ =~= rot_outputs(this_stack(old(u), ret), short));
    wrapper.push_outputs(u, &outs)
}

} // verus!
