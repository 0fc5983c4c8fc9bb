use vstd::prelude::*;

use super::{short_from, short_to_vec, stack_op_post, this_stack, top, top_short, short_bytes, UxnWrapper};
use crate::uxninterface::{Uxn, UxnError, UxnState, UxnWithDevices};

verus! {

/// `x * y` modulo `m`.
fn product(x: u32, y: u32, m: u32) -> (r: u32)
    requires
        x < 0x10000,
        y < 0x10000,
        m > 0,
    ensures
        r == (x as int * y as int) % (m as int),
        r < m,
{
    assert(x as int * y as int <= 0xffff * 0xffff) by (nonlinear_arith)
        requires
            x < 0x10000,
            y < 0x10000,
    ;
    let p: u64 = x as u64 * y as u64;
    (p % (m as u64)) as u32
}

/// `x - y` modulo `m`, for `0 <= x, y < m`.
pub open spec fn difference(x: int, y: int, m: int) -> int {
    (x + m - y) % m
}

pub open spec fn add_outputs(s: Seq<u8>, short: bool) -> Seq<u8> {
    if short {
        short_bytes(((top_short(s, 2) as int + top_short(s, 0) as int) % 0x10000) as u16)
    } else {
        seq![((top(s, 1) as int + top(s, 0) as int) % 0x100) as u8]
    }
}

// add handler: pushes the sum of the two values at the top of the stack
pub fn add_handler<U: UxnWithDevices>(u: &mut U, keep: bool, short: bool, ret: bool) -> (r: Result<(), UxnError>)
    requires
        old(u).ok(),
    ensures
        stack_op_post(old(u), final(u), keep, ret, if short { 4 } else { 2 }, add_outputs(this_stack(old(u), ret), short), r),
{
    let mut wrapper = UxnWrapper::new(keep, ret);
    let k: usize = if short { 4 } else { 2 };
    let ins = match wrapper.pop_inputs(u, k) {
        Ok(v) => v,
        Err(e) => {
            return Err(e);
        },
    };
    let outs = if short == true {
        let a = short_from(ins[1], ins[0]);
        let b = short_from(ins[3], ins[2]);
        short_to_vec(((b as u32 + a as u32) % 0x10000) as u16)
    } else {
        let a = ins[0];
        let b = ins[1];
        vec![((b as u16 + a as u16) % 0x100) as u8]
    };
    assert(outs@ =~= add_outputs(this_stack(old(u), ret), short));
    wrapper.push_outputs(u, &outs)
}

pub open spec fn sub_outputs(s: Seq<u8>, short: bool) -> Seq<u8> {
    if short {
        short_bytes(difference(top_short(s, 2) as int, top_short(s, 0) as int, 0x10000) as u16)
    } else {
        seq![difference(top(s, 1) as int, top(s, 0) as int, 0x100) as u8]
    }
}

// subtract handler: pushes the difference of the first value minus the second, to the top of the stack
pub fn sub_handler<U: UxnWithDevices>(u: &mut U, keep: bool, short: bool, ret: bool) -> (r: Result<(), UxnError>)
    requires
        old(u).ok(),
    ensures
        stack_op_post(old(u), final(u), keep, ret, if short { 4 } else { 2 }, sub_outputs(this_stack(old(u), ret), short), r),
{
    let mut wrapper = UxnWrapper::new(keep, ret);
    let k: usize = if short { 4 } else { 2 };
    let ins = match wrapper.pop_inputs(u, k) {
        Ok(v) => v,
        Err(e) => {
            return Err(e);
        },
    };
    let outs = if short == true {
        let a = short_from(ins[1], ins[0]);
        let b = short_from(ins[3], ins[2]);
        short_to_vec(((b as u32 + 0x10000 - a as u32) % 0x10000) as u16)
    } else {
        let a = ins[0];
        let b = ins[1];
        let d = ((b as u16 + 0x100 - a as u16) % 0x100) as u8;
        vec![d]
    };
    assert(outs@ =~= sub_outputs(this_stack(old(u), ret), short));
    wrapper.push_outputs(u, &outs)
}

pub open spec fn mul_outputs(s: Seq<u8>, short: bool) -> Seq<u8> {
    if short {
        short_bytes(((top_short(s, 2) as int * top_short(s, 0) as int) % 0x10000) as u16)
    } else {
        seq![((top(s, 1) as int * top(s, 0) as int) % 0x100) as u8]
    }
}

// multiply handler: pushes the product of the first and second values at the top of the stack
pub fn mul_handler<U: UxnWithDevices>(u: &mut U, keep: bool, short: bool, ret: bool) -> (r: Result<(), UxnError>)
    requires
        old(u).ok(),
    ensures
        stack_op_post(old(u), final(u), keep, ret, if short { 4 } else { 2 }, mul_outputs(this_stack(old(u), ret), short), r),
{
    let mut wrapper = UxnWrapper::new(keep, ret);
    let k: usize = if short { 4 } else { 2 };
    let ins = match wrapper.pop_inputs(u, k) {
        Ok(v) => v,
        Err(e) => {
            return Err(e);
        },
    };
    let outs = if short == true {
        let a = short_from(ins[1], ins[0]);
        let b = short_from(ins[3], ins[2]);
        short_to_vec(product(b as u32, a as u32, 0x10000) as u16)
    } else {
        let a = ins[0];
        let b = ins[1];
        vec![product(b as u32, a as u32, 0x100) as u8]
    };
    assert(outs@ =~= mul_outputs(this_stack(old(u), ret), short));
    wrapper.push_outputs(u, &outs)
}

pub open spec fn div_outputs(s: Seq<u8>, short: bool) -> Seq<u8> {
    if short {
        short_bytes(if top_short(s, 0) == 0 { 0u16 } else { (top_short(s, 2) / top_short(s, 0)) as u16 })
    } else {
        seq![if top(s, 0) == 0 { 0u8 } else { (top(s, 1) / top(s, 0)) as u8 }]
    }
}

// divide handler: pushes the quotient of the first value over the second, to the top of the stack (a division by zero gives zero)
pub fn div_handler<U: UxnWithDevices>(u: &mut U, keep: bool, short: bool, ret: bool) -> (r: Result<(), UxnError>)
    requires
        old(u).ok(),
    ensures
        stack_op_post(old(u), final(u), keep, ret, if short { 4 } else { 2 }, div_outputs(this_stack(old(u), ret), short), r),
{
    let mut wrapper = UxnWrapper::new(keep, ret);
    let k: usize = if short { 4 } else { 2 };
    let ins = match wrapper.pop_inputs(u, k) {
        Ok(v) => v,
        Err(e) => {
            return Err(e);
        },
    };
    let outs = if short == true {
        let a = short_from(ins[1], ins[0]);
        let b = short_from(ins[3], ins[2]);
        short_to_vec(if a == 0 { 0u16 } else { b / a })
    } else {
        let a = ins[0];
        let b = ins[1];
        vec![if a == 0 { 0u8 } else { b / a }]
    };
    assert(outs@ =~= div_outputs(this_stack(old(u), ret), short));
    wrapper.push_outputs(u, &outs)
}

} // verus!
