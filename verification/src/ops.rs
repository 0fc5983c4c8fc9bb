use vstd::prelude::*;

use crate::instruction::Instruction;
use crate::instruction::InstructionFactory;
use crate::uxninterface::{model_of, UxnModel, Uxn, UxnError, UxnState, UxnWithDevices};
use op_handlers::arithmetic::{add_handler, add_outputs, div_handler, div_outputs, mul_handler, mul_outputs, sub_handler, sub_outputs};
use op_handlers::bitwise::{and_handler, and_outputs, eor_handler, eor_outputs, ora_handler, ora_outputs, sft_handler, sft_outputs};
use op_handlers::control_flow::{jcn_handler, jmp_handler, jsr_handler, jsr_post, jump_post, sth_handler, sth_post};
use op_handlers::logic::{equ_handler, equ_outputs, gth_handler, gth_outputs, lth_handler, lth_outputs, neq_handler, neq_outputs};
use op_handlers::memory::{dei_handler, dei_post, deo_handler, deo_post, lda_handler, ldr_handler, ldz_handler, load_post, relative_target, sta_handler, stz_handler, store_post, str_handler};
use op_handlers::stack::{dup_handler, dup_outputs, inc_handler, inc_outputs, lit_handler, lit_post, nip_handler, nip_outputs, ovr_handler, ovr_outputs, pop_handler, rot_handler, rot_outputs, swp_handler, swp_outputs};
use op_handlers::{stack_op_post, this_stack, top, top_short};
use crate::uxninterface::same_state;

pub mod op_handlers;

verus! {

#[derive(Debug, PartialEq, Eq, Clone, Copy, Structural)]
pub enum OpCode {
    Brk,
    Inc,
    Pop,
    Dup,
    Nip,
    Swp,
    Ovr,
    Rot,
    Equ,
    Neq,
    Gth,
    Lth,
    Jmp,
    Jcn,
    Jsr,
    Sth,
    Ldz,
    Stz,
    Ldr,
    Str,
    Lda,
    Sta,
    Dei,
    Deo,
    Add,
    Sub,
    Mul,
    Div,
    And,
    Ora,
    Eor,
    Sft,
}

/// The byte (with no mode flags) that encodes each operation.
pub open spec fn op_code_byte(c: OpCode) -> u8 {
    match c {
        OpCode::Brk => 0x00,
        OpCode::Inc => 0x01,
        OpCode::Pop => 0x02,
        OpCode::Dup => 0x03,
        OpCode::Nip => 0x04,
        OpCode::Swp => 0x05,
        OpCode::Ovr => 0x06,
        OpCode::Rot => 0x07,
        OpCode::Equ => 0x08,
        OpCode::Neq => 0x09,
        OpCode::Gth => 0x0a,
        OpCode::Lth => 0x0b,
        OpCode::Jmp => 0x0c,
        OpCode::Jcn => 0x0d,
        OpCode::Jsr => 0x0e,
        OpCode::Sth => 0x0f,
        OpCode::Ldz => 0x10,
        OpCode::Stz => 0x11,
        OpCode::Ldr => 0x12,
        OpCode::Str => 0x13,
        OpCode::Lda => 0x14,
        OpCode::Sta => 0x15,
        OpCode::Dei => 0x16,
        OpCode::Deo => 0x17,
        OpCode::Add => 0x18,
        OpCode::Sub => 0x19,
        OpCode::Mul => 0x1a,
        OpCode::Div => 0x1b,
        OpCode::And => 0x1c,
        OpCode::Ora => 0x1d,
        OpCode::Eor => 0x1e,
        OpCode::Sft => 0x1f,
    }
}

/// The three letter assembly mnemonic of each operation.
pub open spec fn op_code_name(c: OpCode) -> (char, char, char) {
    match c {
        OpCode::Brk => ('B', 'R', 'K'),
        OpCode::Inc => ('I', 'N', 'C'),
        OpCode::Pop => ('P', 'O', 'P'),
        OpCode::Dup => ('D', 'U', 'P'),
        OpCode::Nip => ('N', 'I', 'P'),
        OpCode::Swp => ('S', 'W', 'P'),
        OpCode::Ovr => ('O', 'V', 'R'),
        OpCode::Rot => ('R', 'O', 'T'),
        OpCode::Equ => ('E', 'Q', 'U'),
        OpCode::Neq => ('N', 'E', 'Q'),
        OpCode::Gth => ('G', 'T', 'H'),
        OpCode::Lth => ('L', 'T', 'H'),
        OpCode::Jmp => ('J', 'M', 'P'),
        OpCode::Jcn => ('J', 'C', 'N'),
        OpCode::Jsr => ('J', 'S', 'R'),
        OpCode::Sth => ('S', 'T', 'H'),
        OpCode::Ldz => ('L', 'D', 'Z'),
        OpCode::Stz => ('S', 'T', 'Z'),
        OpCode::Ldr => ('L', 'D', 'R'),
        OpCode::Str => ('S', 'T', 'R'),
        OpCode::Lda => ('L', 'D', 'A'),
        OpCode::Sta => ('S', 'T', 'A'),
        OpCode::Dei => ('D', 'E', 'I'),
        OpCode::Deo => ('D', 'E', 'O'),
        OpCode::Add => ('A', 'D', 'D'),
        OpCode::Sub => ('S', 'U', 'B'),
        OpCode::Mul => ('M', 'U', 'L'),
        OpCode::Div => ('D', 'I', 'V'),
        OpCode::And => ('A', 'N', 'D'),
        OpCode::Ora => ('O', 'R', 'A'),
        OpCode::Eor => ('E', 'O', 'R'),
        OpCode::Sft => ('S', 'F', 'T'),
    }
}

/// The operation encoded by the low five bits of an instruction byte.
pub open spec fn op_code_of_byte(b: u8) -> OpCode
    recommends
        b < 32,
{
    if b == 0x00 {
        OpCode::Brk
    } else if b == 0x01 {
        OpCode::Inc
    } else if b == 0x02 {
        OpCode::Pop
    } else if b == 0x03 {
        OpCode::Dup
    } else if b == 0x04 {
        OpCode::Nip
    } else if b == 0x05 {
        OpCode::Swp
    } else if b == 0x06 {
        OpCode::Ovr
    } else if b == 0x07 {
        OpCode::Rot
    } else if b == 0x08 {
        OpCode::Equ
    } else if b == 0x09 {
        OpCode::Neq
    } else if b == 0x0a {
        OpCode::Gth
    } else if b == 0x0b {
        OpCode::Lth
    } else if b == 0x0c {
        OpCode::Jmp
    } else if b == 0x0d {
        OpCode::Jcn
    } else if b == 0x0e {
        OpCode::Jsr
    } else if b == 0x0f {
        OpCode::Sth
    } else if b == 0x10 {
        OpCode::Ldz
    } else if b == 0x11 {
        OpCode::Stz
    } else if b == 0x12 {
        OpCode::Ldr
    } else if b == 0x13 {
        OpCode::Str
    } else if b == 0x14 {
        OpCode::Lda
    } else if b == 0x15 {
        OpCode::Sta
    } else if b == 0x16 {
        OpCode::Dei
    } else if b == 0x17 {
        OpCode::Deo
    } else if b == 0x18 {
        OpCode::Add
    } else if b == 0x19 {
        OpCode::Sub
    } else if b == 0x1a {
        OpCode::Mul
    } else if b == 0x1b {
        OpCode::Div
    } else if b == 0x1c {
        OpCode::And
    } else if b == 0x1d {
        OpCode::Ora
    } else if b == 0x1e {
        OpCode::Eor
    } else {
        OpCode::Sft
    }
}

/// Every operation is found again from its byte.
pub proof fn lemma_op_code_byte_roundtrip(c: OpCode)
    ensures
        op_code_byte(c) < 32,
        op_code_of_byte(op_code_byte(c)) == c,
{
}

/// Every byte below 32 encodes the operation that gives it back.
pub proof fn lemma_byte_op_code_roundtrip(b: u8)
    requires
        b < 32,
    ensures
        op_code_byte(op_code_of_byte(b)) == b,
{
}

pub fn op_code_to_byte(c: OpCode) -> (b: u8)
    ensures
        b == op_code_byte(c),
{
    match c {
        OpCode::Brk => 0x00,
        OpCode::Inc => 0x01,
        OpCode::Pop => 0x02,
        OpCode::Dup => 0x03,
        OpCode::Nip => 0x04,
        OpCode::Swp => 0x05,
        OpCode::Ovr => 0x06,
        OpCode::Rot => 0x07,
        OpCode::Equ => 0x08,
        OpCode::Neq => 0x09,
        OpCode::Gth => 0x0a,
        OpCode::Lth => 0x0b,
        OpCode::Jmp => 0x0c,
        OpCode::Jcn => 0x0d,
        OpCode::Jsr => 0x0e,
        OpCode::Sth => 0x0f,
        OpCode::Ldz => 0x10,
        OpCode::Stz => 0x11,
        OpCode::Ldr => 0x12,
        OpCode::Str => 0x13,
        OpCode::Lda => 0x14,
        OpCode::Sta => 0x15,
        OpCode::Dei => 0x16,
        OpCode::Deo => 0x17,
        OpCode::Add => 0x18,
        OpCode::Sub => 0x19,
        OpCode::Mul => 0x1a,
        OpCode::Div => 0x1b,
        OpCode::And => 0x1c,
        OpCode::Ora => 0x1d,
        OpCode::Eor => 0x1e,
        OpCode::Sft => 0x1f,
    }
}

pub fn op_code_from_byte(b: u8) -> (c: OpCode)
    requires
        b < 32,
    ensures
        c == op_code_of_byte(b),
{
    if b == 0x00 {
        OpCode::Brk
    } else if b == 0x01 {
        OpCode::Inc
    } else if b == 0x02 {
        OpCode::Pop
    } else if b == 0x03 {
        OpCode::Dup
    } else if b == 0x04 {
        OpCode::Nip
    } else if b == 0x05 {
        OpCode::Swp
    } else if b == 0x06 {
        OpCode::Ovr
    } else if b == 0x07 {
        OpCode::Rot
    } else if b == 0x08 {
        OpCode::Equ
    } else if b == 0x09 {
        OpCode::Neq
    } else if b == 0x0a {
        OpCode::Gth
    } else if b == 0x0b {
        OpCode::Lth
    } else if b == 0x0c {
        OpCode::Jmp
    } else if b == 0x0d {
        OpCode::Jcn
    } else if b == 0x0e {
        OpCode::Jsr
    } else if b == 0x0f {
        OpCode::Sth
    } else if b == 0x10 {
        OpCode::Ldz
    } else if b == 0x11 {
        OpCode::Stz
    } else if b == 0x12 {
        OpCode::Ldr
    } else if b == 0x13 {
        OpCode::Str
    } else if b == 0x14 {
        OpCode::Lda
    } else if b == 0x15 {
        OpCode::Sta
    } else if b == 0x16 {
        OpCode::Dei
    } else if b == 0x17 {
        OpCode::Deo
    } else if b == 0x18 {
        OpCode::Add
    } else if b == 0x19 {
        OpCode::Sub
    } else if b == 0x1a {
        OpCode::Mul
    } else if b == 0x1b {
        OpCode::Div
    } else if b == 0x1c {
        OpCode::And
    } else if b == 0x1d {
        OpCode::Ora
    } else if b == 0x1e {
        OpCode::Eor
    } else {
        OpCode::Sft
    }
}

fn op_code_name_exec(c: OpCode) -> (n: (char, char, char))
    ensures
        n == op_code_name(c),
{
    match c {
        OpCode::Brk => ('B', 'R', 'K'),
        OpCode::Inc => ('I', 'N', 'C'),
        OpCode::Pop => ('P', 'O', 'P'),
        OpCode::Dup => ('D', 'U', 'P'),
        OpCode::Nip => ('N', 'I', 'P'),
        OpCode::Swp => ('S', 'W', 'P'),
        OpCode::Ovr => ('O', 'V', 'R'),
        OpCode::Rot => ('R', 'O', 'T'),
        OpCode::Equ => ('E', 'Q', 'U'),
        OpCode::Neq => ('N', 'E', 'Q'),
        OpCode::Gth => ('G', 'T', 'H'),
        OpCode::Lth => ('L', 'T', 'H'),
        OpCode::Jmp => ('J', 'M', 'P'),
        OpCode::Jcn => ('J', 'C', 'N'),
        OpCode::Jsr => ('J', 'S', 'R'),
        OpCode::Sth => ('S', 'T', 'H'),
        OpCode::Ldz => ('L', 'D', 'Z'),
        OpCode::Stz => ('S', 'T', 'Z'),
        OpCode::Ldr => ('L', 'D', 'R'),
        OpCode::Str => ('S', 'T', 'R'),
        OpCode::Lda => ('L', 'D', 'A'),
        OpCode::Sta => ('S', 'T', 'A'),
        OpCode::Dei => ('D', 'E', 'I'),
        OpCode::Deo => ('D', 'E', 'O'),
        OpCode::Add => ('A', 'D', 'D'),
        OpCode::Sub => ('S', 'U', 'B'),
        OpCode::Mul => ('M', 'U', 'L'),
        OpCode::Div => ('D', 'I', 'V'),
        OpCode::And => ('A', 'N', 'D'),
        OpCode::Ora => ('O', 'R', 'A'),
        OpCode::Eor => ('E', 'O', 'R'),
        OpCode::Sft => ('S', 'F', 'T'),
    }
}

/// An operation together with its mode flags; `handler_index` is the position of the operation
/// in the table of operations, which is its byte.
#[derive(Debug, PartialEq, Eq, Clone, Copy, Structural)]
pub struct OpObject {
    pub keep: bool,
    pub ret: bool,
    pub short: bool,
    pub op_code: OpCode,
    pub handler_index: usize,
}

pub struct OpObjectFactory {}

#[derive(Debug, PartialEq, Eq, Clone, Copy, Structural)]
pub struct ParseOpObjectError {}

/// The instruction byte of an operation with its mode flags.
pub open spec fn op_object_byte(o: OpObject) -> u8 {
    (op_code_byte(o.op_code) + (if o.keep {
        0x80int
    } else {
        0
    }) + (if o.ret {
        0x40int
    } else {
        0
    }) + (if o.short {
        0x20int
    } else {
        0
    })) as u8
}

/// The operation an instruction byte encodes.
pub open spec fn op_object_of_byte(b: u8) -> OpObject {
    OpObject {
        keep: b >= 0x80,
        ret: (b / 0x40) % 2 == 1,
        short: (b / 0x20) % 2 == 1,
        op_code: op_code_of_byte(b % 32),
        handler_index: (b % 32) as usize,
    }
}

/// An operation whose handler index agrees with its operation, as every operation that the
/// library makes has.
pub open spec fn op_object_wf(o: OpObject) -> bool {
    o.handler_index == op_code_byte(o.op_code) as usize
}

/// Decoding an instruction byte and encoding it again gives the byte back.
pub proof fn lemma_byte_roundtrip(b: u8)
    ensures
        op_object_byte(op_object_of_byte(b)) == b,
        op_object_wf(op_object_of_byte(b)),
{
    lemma_byte_op_code_roundtrip(b % 32);
}

/// Encoding a well formed operation and decoding the byte gives the operation back.
pub proof fn lemma_op_object_roundtrip(o: OpObject)
    requires
        op_object_wf(o),
    ensures
        op_object_of_byte(op_object_byte(o)) == o,
{
    lemma_op_code_byte_roundtrip(o.op_code);
}

/// Applies the mode flags that follow a mnemonic, in order.
pub open spec fn apply_mode_flags(o: OpObject, flags: Seq<char>) -> Option<OpObject>
    decreases flags.len(),
{
    if flags.len() == 0 {
        Some(o)
    } else if flags[0] == '2' {
        apply_mode_flags(OpObject { short: true, ..o }, flags.skip(1))
    } else if flags[0] == 'k' {
        if o.op_code == OpCode::Brk {
            None
        } else {
            apply_mode_flags(OpObject { keep: true, ..o }, flags.skip(1))
        }
    } else if flags[0] == 'r' {
        apply_mode_flags(OpObject { ret: true, ..o }, flags.skip(1))
    } else {
        None
    }
}

pub open spec fn plain_op(c: OpCode) -> OpObject {
    OpObject {
        keep: false,
        ret: false,
        short: false,
        op_code: c,
        handler_index: op_code_byte(c) as usize,
    }
}

/// The operation written as `s` in assembly: a mnemonic (or `LIT`, which is `BRK` in keep
/// mode) followed by mode flags; `BRK` takes no flags.
pub open spec fn parse_op_object(s: Seq<char>) -> Option<OpObject> {
    if s.len() < 3 {
        None
    } else {
        let name = (s[0], s[1], s[2]);
        if name == ('B', 'R', 'K') {
            if s.len() > 3 {
                None
            } else {
                Some(plain_op(OpCode::Brk))
            }
        } else if name == ('L', 'I', 'T') {
            apply_mode_flags(OpObject { keep: true, ..plain_op(OpCode::Brk) }, s.skip(3))
        } else if exists|c: OpCode| op_code_name(c) == name {
            apply_mode_flags(plain_op(choose|c: OpCode| op_code_name(c) == name), s.skip(3))
        } else {
            None
        }
    }
}

/// No two operations share a mnemonic.
pub proof fn lemma_op_code_name_injective(a: OpCode, b: OpCode)
    requires
        op_code_name(a) == op_code_name(b),
    ensures
        a == b,
{
}

pub fn plain_op_object(op_code: OpCode, handler_index: usize) -> (o: OpObject)
    ensures
        o == (OpObject { keep: false, ret: false, short: false, op_code, handler_index }),
{
    OpObject { keep: false, ret: false, short: false, op_code, handler_index }
}

fn same_name(a: (char, char, char), b: (char, char, char)) -> (r: bool)
    ensures
        r == (a == b),
{
    a.0 == b.0 && a.1 == b.1 && a.2 == b.2
}

fn op_code_from_name(name: (char, char, char)) -> (r: Option<OpCode>)
    ensures
        match r {
            Some(c) => op_code_name(c) == name,
            None => forall|c: OpCode| op_code_name(c) != name,
        },
{
    let mut i: u8 = 0;
    while i < 32
        invariant
            i <= 32,
            forall|j: u8| j < i ==> op_code_name(#[trigger] op_code_of_byte(j)) != name,
        decreases 32 - i,
    {
        let c = op_code_from_byte(i);
        if same_name(op_code_name_exec(c), name) {
            return Some(c);
        }
        i = i + 1;
    }
    assert forall|c: OpCode| op_code_name(c) != name by {
        lemma_op_code_byte_roundtrip(c);
        let j = op_code_byte(c);
        assert(op_code_name(op_code_of_byte(j)) != name);
    }
    None
}

impl OpObject {
    pub fn get_bytes(&self) -> (v: Vec<u8>)
        ensures
            v@ == seq![op_object_byte(*self)],
    {
        let byte = op_code_to_byte(self.op_code);
        let byte = if self.keep {
            byte + 0x80
        } else {
            byte
        };
        let byte = if self.ret {
            byte + 0x40
        } else {
            byte
        };
        let byte = if self.short {
            byte + 0x20
        } else {
            byte
        };
        vec![byte]
    }

    pub fn from_byte(byte: u8) -> (o: Self)
        ensures
            o == op_object_of_byte(byte),
    {
        let keep: bool = byte >= 0x80;
        let ret: bool = (byte / 0x40) % 2 == 1;
        let short: bool = (byte / 0x20) % 2 == 1;
        let index = byte % 32;
        let op_code = op_code_from_byte(index);
        OpObject { keep, ret, short, op_code, handler_index: index as usize }
    }

    fn apply_flags(o: OpObject, s: &str, start: usize) -> (r: Result<OpObject, ParseOpObjectError>)
        requires
            start <= s@.len(),
        ensures
            match r {
                Ok(x) => apply_mode_flags(o, s@.skip(start as int)) == Some(x),
                Err(_) => apply_mode_flags(o, s@.skip(start as int)) is None,
            },
        decreases s@.len() - start,
    {
        let n = s.unicode_len();
        if start == n {
            assert(s@.skip(start as int).len() == 0);
            return Ok(o);
        }
        let f = s.get_char(start);
        assert(s@.skip(start as int).skip(1) =~= s@.skip(start + 1));
        if f == '2' {
            Self::apply_flags(OpObject { short: true, ..o }, s, start + 1)
        } else if f == 'k' {
            if o.op_code == OpCode::Brk {
                Err(ParseOpObjectError {})
            } else {
                Self::apply_flags(OpObject { keep: true, ..o }, s, start + 1)
            }
        } else if f == 'r' {
            Self::apply_flags(OpObject { ret: true, ..o }, s, start + 1)
        } else {
            Err(ParseOpObjectError {})
        }
    }

    /// Parses an operation as written in assembly.
    pub fn parse_str(s: &str) -> (r: Result<OpObject, ParseOpObjectError>)
        ensures
            match r {
                Ok(o) => parse_op_object(s@) == Some(o),
                Err(_) => parse_op_object(s@) is None,
            },
    {
        let n = s.unicode_len();
        if n < 3 {
            return Err(ParseOpObjectError {});
        }
        let name = (s.get_char(0), s.get_char(1), s.get_char(2));
        if same_name(name, ('B', 'R', 'K')) {
            if n > 3 {
                return Err(ParseOpObjectError {});
            }
            return Ok(plain_op_object(OpCode::Brk, 0));
        }
        if same_name(name, ('L', 'I', 'T')) {
            let lit = OpObject { keep: true, ret: false, short: false, op_code: OpCode::Brk, handler_index: 0 };
            return Self::apply_flags(lit, s, 3);
        }
        match op_code_from_name(name) {
            Some(c) => {
                proof {
                    let chosen = choose|c: OpCode| op_code_name(c) == name;
                    lemma_op_code_name_injective(chosen, c);
                }
                let index = op_code_to_byte(c) as usize;
                Self::apply_flags(plain_op_object(c, index), s, 3)
            },
            None => Err(ParseOpObjectError {}),
        }
    }
}

/// What executing an operation does to a machine: the instruction set of the machine.
pub open spec fn op_post<U: UxnState>(o: OpObject, pre: &U, post: &U, r: Result<(), UxnError>) -> bool {
    let (keep, short, ret) = (o.keep, o.short, o.ret);
    let s = this_stack(pre, ret);
    match o.op_code {
        OpCode::Brk => lit_post(pre, post, short, ret, r),
        OpCode::Inc => stack_op_post(pre, post, keep, ret, if short { 2 } else { 1 }, inc_outputs(s, short), r),
        OpCode::Pop => if keep {
            same_state(post, pre) && post.ok() && r == Ok::<(), UxnError>(())
        } else {
            stack_op_post(pre, post, keep, ret, if short { 2 } else { 1 }, Seq::empty(), r)
        },
        OpCode::Dup => stack_op_post(pre, post, keep, ret, if short { 2 } else { 1 }, dup_outputs(s, short), r),
        OpCode::Nip => stack_op_post(pre, post, keep, ret, if short { 4 } else { 2 }, nip_outputs(s, short), r),
        OpCode::Swp => stack_op_post(pre, post, keep, ret, if short { 4 } else { 2 }, swp_outputs(s, short), r),
        OpCode::Ovr => stack_op_post(pre, post, keep, ret, if short { 4 } else { 2 }, ovr_outputs(s, short), r),
        OpCode::Rot => stack_op_post(pre, post, keep, ret, if short { 6 } else { 3 }, rot_outputs(s, short), r),
        OpCode::Equ => stack_op_post(pre, post, keep, ret, if short { 4 } else { 2 }, equ_outputs(s, short), r),
        OpCode::Neq => stack_op_post(pre, post, keep, ret, if short { 4 } else { 2 }, neq_outputs(s, short), r),
        OpCode::Gth => stack_op_post(pre, post, keep, ret, if short { 4 } else { 2 }, gth_outputs(s, short), r),
        OpCode::Lth => stack_op_post(pre, post, keep, ret, if short { 4 } else { 2 }, lth_outputs(s, short), r),
        OpCode::Jmp => jump_post(pre, post, keep, short, ret, if short { 2 } else { 1 }, true, r),
        OpCode::Jcn => jump_post(pre, post, keep, short, ret, if short { 3 } else { 2 }, top(s, if short { 2 } else { 1 }) != 0, r),
        OpCode::Jsr => jsr_post(pre, post, keep, short, ret, r),
        OpCode::Sth => sth_post(pre, post, keep, short, ret, r),
        OpCode::Ldz => load_post(pre, post, keep, short, ret, 1, Ok(top(s, 0) as u16), r),
        OpCode::Stz => store_post(pre, post, keep, short, ret, 1, Ok(top(s, 0) as u16), r),
        OpCode::Ldr => load_post(pre, post, keep, short, ret, 1, relative_target(pre.pc(), top(s, 0)), r),
        OpCode::Str => store_post(pre, post, keep, short, ret, 1, relative_target(pre.pc(), top(s, 0)), r),
        OpCode::Lda => load_post(pre, post, keep, short, ret, 2, Ok(top_short(s, 0)), r),
        OpCode::Sta => store_post(pre, post, keep, short, ret, 2, Ok(top_short(s, 0)), r),
        OpCode::Dei => dei_post(pre, post, keep, short, ret, r),
        OpCode::Deo => deo_post(pre, post, keep, short, ret, r),
        OpCode::Add => stack_op_post(pre, post, keep, ret, if short { 4 } else { 2 }, add_outputs(s, short), r),
        OpCode::Sub => stack_op_post(pre, post, keep, ret, if short { 4 } else { 2 }, sub_outputs(s, short), r),
        OpCode::Mul => stack_op_post(pre, post, keep, ret, if short { 4 } else { 2 }, mul_outputs(s, short), r),
        OpCode::Div => stack_op_post(pre, post, keep, ret, if short { 4 } else { 2 }, div_outputs(s, short), r),
        OpCode::And => stack_op_post(pre, post, keep, ret, if short { 4 } else { 2 }, and_outputs(s, short), r),
        OpCode::Ora => stack_op_post(pre, post, keep, ret, if short { 4 } else { 2 }, ora_outputs(s, short), r),
        OpCode::Eor => stack_op_post(pre, post, keep, ret, if short { 4 } else { 2 }, eor_outputs(s, short), r),
        OpCode::Sft => stack_op_post(pre, post, keep, ret, if short { 3 } else { 2 }, sft_outputs(s, short), r),
    }
}

/// What an operation guarantees depends on nothing but what can be seen of the machines: it
/// holds of their snapshots too.
pub proof fn lemma_op_post_model<U: Uxn>(o: OpObject, pre: &U, post: &U, r: Result<(), UxnError>)
    requires
        pre.ok(),
        post.ok(),
        op_post(o, pre, post, r),
    ensures
        op_post(o, &model_of(pre), &model_of(post), r),
{
    pre.lemma_ok_bounds();
    post.lemma_ok_bounds();
}

impl Instruction for OpObject {
    /// The guarantee of the operation's handler.
    open spec fn effect(&self, pre: UxnModel, post: UxnModel, r: Result<(), UxnError>) -> bool {
        op_post(*self, &pre, &post, r)
    }

    /// Runs the handler of the operation.
    fn execute<U: UxnWithDevices>(&self, uxn: &mut U) -> (r: Result<(), UxnError>)
        ensures
            op_post(*self, old(uxn), final(uxn), r),
    {
        let r = self.run_handler(uxn);
        proof {
            lemma_op_post_model(*self, old(uxn), uxn, r);
        }
        r
    }
}

impl OpObject {
    fn run_handler<U: UxnWithDevices>(&self, uxn: &mut U) -> (r: Result<(), UxnError>)
        requires
            old(uxn).ok(),
        ensures
            final(uxn).ok(),
            op_post(*self, old(uxn), final(uxn), r),
    {
        let (keep, short, ret) = (self.keep, self.short, self.ret);
        match self.op_code {
            OpCode::Brk => lit_handler(uxn, keep, short, ret),
            OpCode::Inc => inc_handler(uxn, keep, short, ret),
            OpCode::Pop => pop_handler(uxn, keep, short, ret),
            OpCode::Dup => dup_handler(uxn, keep, short, ret),
            OpCode::Nip => nip_handler(uxn, keep, short, ret),
            OpCode::Swp => swp_handler(uxn, keep, short, ret),
            OpCode::Ovr => ovr_handler(uxn, keep, short, ret),
            OpCode::Rot => rot_handler(uxn, keep, short, ret),
            OpCode::Equ => equ_handler(uxn, keep, short, ret),
            OpCode::Neq => neq_handler(uxn, keep, short, ret),
            OpCode::Gth => gth_handler(uxn, keep, short, ret),
            OpCode::Lth => lth_handler(uxn, keep, short, ret),
            OpCode::Jmp => jmp_handler(uxn, keep, short, ret),
            OpCode::Jcn => jcn_handler(uxn, keep, short, ret),
            OpCode::Jsr => jsr_handler(uxn, keep, short, ret),
            OpCode::Sth => sth_handler(uxn, keep, short, ret),
            OpCode::Ldz => ldz_handler(uxn, keep, short, ret),
            OpCode::Stz => stz_handler(uxn, keep, short, ret),
            OpCode::Ldr => ldr_handler(uxn, keep, short, ret),
            OpCode::Str => str_handler(uxn, keep, short, ret),
            OpCode::Lda => lda_handler(uxn, keep, short, ret),
            OpCode::Sta => sta_handler(uxn, keep, short, ret),
            OpCode::Dei => dei_handler(uxn, keep, short, ret),
            OpCode::Deo => deo_handler(uxn, keep, short, ret),
            OpCode::Add => add_handler(uxn, keep, short, ret),
            OpCode::Sub => sub_handler(uxn, keep, short, ret),
            OpCode::Mul => mul_handler(uxn, keep, short, ret),
            OpCode::Div => div_handler(uxn, keep, short, ret),
            OpCode::And => and_handler(uxn, keep, short, ret),
            OpCode::Ora => ora_handler(uxn, keep, short, ret),
            OpCode::Eor => eor_handler(uxn, keep, short, ret),
            OpCode::Sft => sft_handler(uxn, keep, short, ret),
        }
    }
}

impl InstructionFactory for OpObjectFactory {
    type Instr = OpObject;

    /// The guarantee of the handler of the operation that `byte` stands for.
    open spec fn byte_effect(&self, byte: u8, pre: UxnModel, post: UxnModel, r: Result<(), UxnError>) -> bool {
        op_post(op_object_of_byte(byte), &pre, &post, r)
    }

    fn from_byte(&self, byte: u8) -> (o: OpObject)
        ensures
            o == op_object_of_byte(byte),
    {
        OpObject::from_byte(byte)
    }
}

impl std::str::FromStr for OpObject {
    type Err = ParseOpObjectError;

    fn from_str(s: &str) -> (r: Result<Self, Self::Err>)
        ensures
            match r {
                Ok(o) => parse_op_object(s@) == Some(o),
                Err(_) => parse_op_object(s@) is None,
            },
    {
        OpObject::parse_str(s)
    }
}

} // verus!
