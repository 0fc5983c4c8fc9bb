use vstd::prelude::*;

use super::{short_from, short_to_vec, stack_op_post, this_stack, top, top_short, short_bytes, UxnWrapper};
use crate::uxninterface::{Uxn, UxnError, UxnState, UxnWithDevices};

verus! {

/// `v` shifted right by the low nibble of `a`, then left by its high nibble, modulo `m`.
pub open spec fn shift_value(v: u16, a: u8, m: u32) -> u16 {
    ((((v as u32) >> ((a % 16) as u32)) << ((a / 16) as u32)) % m) as u16
}

fn shift(v: u16, a: u8, m: u32) -> (r: u16)
    requires
        m == 0x100 || m == 0x10000,
    ensures
        r == shift_value(v, a, m),
{
    let right: u32 = (a % 16) as u32;
    let left: u32 = (a / 16) as u32;
    ((((v as u32) >> right) << left) % m) as u16
}

pub open spec fn and_outputs(s: Seq<u8>, short: bool) -> Seq<u8> {
    if short {
        short_bytes(top_short(s, 2) & top_short(s, 0))
    } else {
        seq![top(s, 1) & top(s, 0)]
    }
}

// and handler: pushes the result of the bitwise operation AND, to the top of the stack
pub fn and_handler<U: UxnWithDevices>(u: &mut U, keep: bool, short: bool, ret: bool) -> (r: Result<(), UxnError>)
    requires
        old(u).ok(),
    ensures
        stack_op_post(old(u), final(u), keep, ret, if short { 4 } else { 2 }, and_outputs(this_stack(old(u), ret), short), r),
{
    let mut wrapper = UxnWrapper::new(keep, ret);
    let k: usize = if short { 4 } else { 2 };
    let ins = match wrapper.pop_inputs(u, k) {
        Ok(v) => v,
        Err(e) => {
            return Err(e);
        },
    };
    let outs = if short == true {
        let a = short_from(ins[1], ins[0]);
        let b = short_from(ins[3], ins[2]);
        short_to_vec(b & a)
    } else {
        let a = ins[0];
        let b = ins[1];
        vec![b & a]
    };
    assert(outs@ =~= and_outputs(this_stack(old(u), ret), short));
    wrapper.push_outputs(u, &outs)
}

pub open spec fn ora_outputs(s: Seq<u8>, short: bool) -> Seq<u8> {
    if short {
        short_bytes(top_short(s, 2) | top_short(s, 0))
    } else {
        seq![top(s, 1) | top(s, 0)]
    }
}

// or handler: pushes the result of the bitwise operation OR, to the top of the stack
pub fn ora_handler<U: UxnWithDevices>(u: &mut U, keep: bool, short: bool, ret: bool) -> (r: Result<(), UxnError>)
    requires
        old(u).ok(),
    ensures
        stack_op_post(old(u), final(u), keep, ret, if short { 4 } else { 2 }, ora_outputs(this_stack(old(u), ret), short), r),
{
    let mut wrapper = UxnWrapper::new(keep, ret);
    let k: usize = if short { 4 } else { 2 };
    let ins = match wrapper.pop_inputs(u, k) {
        Ok(v) => v,
        Err(e) => {
            return Err(e);
        },
    };
    let outs = if short == true {
        let a = short_from(ins[1], ins[0]);
        let b = short_from(ins[3], ins[2]);
        short_to_vec(b | a)
    } else {
        let a = ins[0];
        let b = ins[1];
        vec![b | a]
    };
    assert(outs@ =~= ora_outputs(this_stack(old(u), ret), short));
    wrapper.push_outputs(u, &outs)
}

pub open spec fn eor_outputs(s: Seq<u8>, short: bool) -> Seq<u8> {
    if short {
        short_bytes(top_short(s, 2) ^ top_short(s, 0))
    } else {
        seq![top(s, 1) ^ top(s, 0)]
    }
}

// exclusive or handler: pushes the result of the bitwise operation XOR, to the top of the stack
pub fn eor_handler<U: UxnWithDevices>(u: &mut U, keep: bool, short: bool, ret: bool) -> (r: Result<(), UxnError>)
    requires
        old(u).ok(),
    ensures
        stack_op_post(old(u), final(u), keep, ret, if short { 4 } else { 2 }, eor_outputs(this_stack(old(u), ret), short), r),
{
    let mut wrapper = UxnWrapper::new(keep, ret);
    let k: usize = if short { 4 } else { 2 };
    let ins = match wrapper.pop_inputs(u, k) {
        Ok(v) => v,
        Err(e) => {
            return Err(e);
        },
    };
    let outs = if short == true {
        let a = short_from(ins[1], ins[0]);
        let b = short_from(ins[3], ins[2]);
        short_to_vec(b ^ a)
    } else {
        let a = ins[0];
        let b = ins[1];
        vec![b ^ a]
    };
    assert(outs@ =~= eor_outputs(this_stack(old(u), ret), short));
    wrapper.push_outputs(u, &outs)
}

pub open spec fn sft_outputs(s: Seq<u8>, short: bool) -> Seq<u8> {
    if short {
        short_bytes(shift_value(super::short_of(top(s, 2), top(s, 1)), top(s, 0), 0x10000))
    } else {
        seq![shift_value(top(s, 1) as u16, top(s, 0), 0x100) as u8]
    }
}

// shift handler: shifts the second value right by the low nibble of the top byte, then left by its high nibble; bits moved past the width of the value are lost
pub fn sft_handler<U: UxnWithDevices>(u: &mut U, keep: bool, short: bool, ret: bool) -> (r: Result<(), UxnError>)
    requires
        old(u).ok(),
    ensures
        stack_op_post(old(u), final(u), keep, ret, if short { 3 } else { 2 }, sft_outputs(this_stack(old(u), ret), short), r),
{
    let mut wrapper = UxnWrapper::new(keep, ret);
    let k: usize = if short { 3 } else { 2 };
    let ins = match wrapper.pop_inputs(u, k) {
        Ok(v) => v,
        Err(e) => {
            return Err(e);
        },
    };
    let outs = if short == true {
        let a = ins[0];
        let b = short_from(ins[2], ins[1]);
        short_to_vec(shift(b, a, 0x10000) as u16)
    } else {
        let a = ins[0];
        let b = ins[1];
        vec![shift(b as u16, a, 0x100) as u8]
    };
    assert(outs@ =~= sft_outputs(this_stack(old(u), ret), short));
    wrapper.push_outputs(u, &outs)
}

} // verus!
