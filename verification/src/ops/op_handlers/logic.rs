use vstd::prelude::*;

use super::{short_from, stack_op_post, this_stack, top, top_short, UxnWrapper};
use crate::uxninterface::{Uxn, UxnError, UxnState, UxnWithDevices};

verus! {

pub open spec fn equ_outputs(s: Seq<u8>, short: bool) -> Seq<u8> {
    if short {
        seq![if top_short(s, 2) == top_short(s, 0) { 1u8 } else { 0u8 }]
    } else {
        seq![if top(s, 1) == top(s, 0) { 1u8 } else { 0u8 }]
    }
}

// equal handler: pushes 01 to the stack if the two values at the top of the stack are equal, 00 otherwise
pub fn equ_handler<U: UxnWithDevices>(u: &mut U, keep: bool, short: bool, ret: bool) -> (r: Result<(), UxnError>)
    requires
        old(u).ok(),
    ensures
        stack_op_post(old(u), final(u), keep, ret, if short { 4 } else { 2 }, equ_outputs(this_stack(old(u), ret), short), r),
{
    let mut wrapper = UxnWrapper::new(keep, ret);
    let k: usize = if short { 4 } else { 2 };
    let ins = match wrapper.pop_inputs(u, k) {
        Ok(v) => v,
        Err(e) => {
            return Err(e);
        },
    };
    let outs = if short == true {
        let a = short_from(ins[1], ins[0]);
        let b = short_from(ins[3], ins[2]);
        if b == a {
            vec![1u8]
        } else {
            vec![0u8]
        }
    } else {
        let a = ins[0];
        let b = ins[1];
        if b == a {
            vec![1u8]
        } else {
            vec![0u8]
        }
    };
    assert(outs@ =~= equ_outputs(this_stack(old(u), ret), short));
    wrapper.push_outputs(u, &outs)
}

pub open spec fn neq_outputs(s: Seq<u8>, short: bool) -> Seq<u8> {
    if short {
        seq![if top_short(s, 2) != top_short(s, 0) { 1u8 } else { 0u8 }]
    } else {
        seq![if top(s, 1) != top(s, 0) { 1u8 } else { 0u8 }]
    }
}

// not equal handler: pushes 01 to the stack if the two values at the top of the stack are not equal, 00 otherwise
pub fn neq_handler<U: UxnWithDevices>(u: &mut U, keep: bool, short: bool, ret: bool) -> (r: Result<(), UxnError>)
    requires
        old(u).ok(),
    ensures
        stack_op_post(old(u), final(u), keep, ret, if short { 4 } else { 2 }, neq_outputs(this_stack(old(u), ret), short), r),
{
    let mut wrapper = UxnWrapper::new(keep, ret);
    let k: usize = if short { 4 } else { 2 };
    let ins = match wrapper.pop_inputs(u, k) {
        Ok(v) => v,
        Err(e) => {
            return Err(e);
        },
    };
    let outs = if short == true {
        let a = short_from(ins[1], ins[0]);
        let b = short_from(ins[3], ins[2]);
        if b != a {
            vec![1u8]
        } else {
            vec![0u8]
        }
    } else {
        let a = ins[0];
        let b = ins[1];
        if b != a {
            vec![1u8]
        } else {
            vec![0u8]
        }
    };
    assert(outs@ =~= neq_outputs(this_stack(old(u), ret), short));
    wrapper.push_outputs(u, &outs)
}

pub open spec fn gth_outputs(s: Seq<u8>, short: bool) -> Seq<u8> {
    if short {
        seq![if top_short(s, 2) > top_short(s, 0) { 1u8 } else { 0u8 }]
    } else {
        seq![if top(s, 1) > top(s, 0) { 1u8 } else { 0u8 }]
    }
}

// greater than handler: pushes 01 to the stack if the second value at the top of the stack is greater than the value at the top of the stack, 00 otherwise
pub fn gth_handler<U: UxnWithDevices>(u: &mut U, keep: bool, short: bool, ret: bool) -> (r: Result<(), UxnError>)
    requires
        old(u).ok(),
    ensures
        stack_op_post(old(u), final(u), keep, ret, if short { 4 } else { 2 }, gth_outputs(this_stack(old(u), ret), short), r),
{
    let mut wrapper = UxnWrapper::new(keep, ret);
    let k: usize = if short { 4 } else { 2 };
    let ins = match wrapper.pop_inputs(u, k) {
        Ok(v) => v,
        Err(e) => {
            return Err(e);
        },
    };
    let outs = if short == true {
        let a = short_from(ins[1], ins[0]);
        let b = short_from(ins[3], ins[2]);
        if b > a {
            vec![1u8]
        } else {
            vec![0u8]
        }
    } else {
        let a = ins[0];
        let b = ins[1];
        if b > a {
            vec![1u8]
        } else {
            vec![0u8]
        }
    };
    assert(outs@ =~= gth_outputs(this_stack(old(u), ret), short));
    wrapper.push_outputs(u, &outs)
}

pub open spec fn lth_outputs(s: Seq<u8>, short: bool) -> Seq<u8> {
    if short {
        seq![if top_short(s, 2) < top_short(s, 0) { 1u8 } else { 0u8 }]
    } else {
        seq![if top(s, 1) < top(s, 0) { 1u8 } else { 0u8 }]
    }
}

// lesser than handler: pushes 01 to the stack if the second value at the top of the stack is lesser than the value at the top of the stack, 00 otherwise
pub fn lth_handler<U: UxnWithDevices>(u: &mut U, keep: bool, short: bool, ret: bool) -> (r: Result<(), UxnError>)
    requires
        old(u).ok(),
    ensures
        stack_op_post(old(u), final(u), keep, ret, if short { 4 } else { 2 }, lth_outputs(this_stack(old(u), ret), short), r),
{
    let mut wrapper = UxnWrapper::new(keep, ret);
    let k: usize = if short { 4 } else { 2 };
    let ins = match wrapper.pop_inputs(u, k) {
        Ok(v) => v,
        Err(e) => {
            return Err(e);
        },
    };
    let outs = if short == true {
        let a = short_from(ins[1], ins[0]);
        let b = short_from(ins[3], ins[2]);
        if b < a {
            vec![1u8]
        } else {
            vec![0u8]
        }
    } else {
        let a = ins[0];
        let b = ins[1];
        if b < a {
            vec![1u8]
        } else {
            vec![0u8]
        }
    };
    assert(outs@ =~= lth_outputs(this_stack(old(u), ret), short));
    wrapper.push_outputs(u, &outs)
}

} // verus!
