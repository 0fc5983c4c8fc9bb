use vstd::prelude::*;

use vstd::arithmetic::power2::{lemma2_to64, lemma_pow2_pos, lemma_pow2_strictly_increases, pow2};
use vstd::bits::{lemma_u32_shl_is_mul, lemma_u32_shr_is_div};

use super::arithmetic::{add_outputs, div_outputs, mul_outputs, sub_outputs};
use super::bitwise::{and_outputs, eor_outputs, ora_outputs, sft_outputs, shift_value};
use super::logic::{equ_outputs, gth_outputs, lth_outputs, neq_outputs};
use super::control_flow::{jump_target, relative_address};
use crate::uxnasmlib::assembler::prog_state::LabelModel;
use crate::uxnasmlib::assembler::tokens::{label_address, token_bytes, LabelRefModel, TokenModel};
use super::memory::{load_outputs, relative_target, stored_ram};
use super::stack::{dup_outputs, inc_outputs, nip_outputs, ovr_outputs, rot_outputs, swp_outputs};
use crate::uxninterface::UxnError;

verus! {

/// The number a byte stands for, from 0 to 255.
pub open spec fn byte_value(b: u8) -> int {
    b as int
}

/// The number that two bytes, high then low, stand for as a big-endian short, from 0 to 65535.
pub open spec fn short_value(high: u8, low: u8) -> int {
    high as int * 256 + low as int
}

/// The number that the bytes `out` stand for: one byte, or a big-endian short of two.
pub open spec fn value_of(out: Seq<u8>) -> int {
    if out.len() == 1 {
        out[0] as int
    } else {
        out[0] as int * 256 + out[1] as int
    }
}

/// The byte comparisons take the two bytes on top of a stack as unsigned numbers, `a` on top
/// and `b` below it, and push one byte: 1 where EQU finds `b == a`, NEQ finds `b != a`, GTH
/// finds `b > a`, LTH finds `b < a`, and 0 otherwise.
pub proof fn lemma_byte_comparisons(s: Seq<u8>)
    requires
        s.len() >= 2,
    ensures
        ({
            let a = byte_value(s[s.len() - 1]);
            let b = byte_value(s[s.len() - 2]);
            &&& equ_outputs(s, false).len() == 1 && (equ_outputs(s, false)[0] == 1 <==> b == a)
                && (equ_outputs(s, false)[0] == 0 <==> b != a)
            &&& neq_outputs(s, false).len() == 1 && (neq_outputs(s, false)[0] == 1 <==> b != a)
                && (neq_outputs(s, false)[0] == 0 <==> b == a)
            &&& gth_outputs(s, false).len() == 1 && (gth_outputs(s, false)[0] == 1 <==> b > a)
                && (gth_outputs(s, false)[0] == 0 <==> b <= a)
            &&& lth_outputs(s, false).len() == 1 && (lth_outputs(s, false)[0] == 1 <==> b < a)
                && (lth_outputs(s, false)[0] == 0 <==> b >= a)
        }),
{
}

/// The short comparisons take the two shorts on top of a stack as unsigned numbers, each
/// big-endian (`a` the top two bytes, `b` the two below them), and push one byte: 1 where EQU
/// finds `b == a`, NEQ finds `b != a`, GTH finds `b > a`, LTH finds `b < a`, and 0 otherwise.
pub proof fn lemma_short_comparisons(s: Seq<u8>)
    requires
        s.len() >= 4,
    ensures
        ({
            let n = s.len();
            let a = short_value(s[n - 2], s[n - 1]);
            let b = short_value(s[n - 4], s[n - 3]);
            &&& equ_outputs(s, true).len() == 1 && (equ_outputs(s, true)[0] == 1 <==> b == a)
                && (equ_outputs(s, true)[0] == 0 <==> b != a)
            &&& neq_outputs(s, true).len() == 1 && (neq_outputs(s, true)[0] == 1 <==> b != a)
                && (neq_outputs(s, true)[0] == 0 <==> b == a)
            &&& gth_outputs(s, true).len() == 1 && (gth_outputs(s, true)[0] == 1 <==> b > a)
                && (gth_outputs(s, true)[0] == 0 <==> b <= a)
            &&& lth_outputs(s, true).len() == 1 && (lth_outputs(s, true)[0] == 1 <==> b < a)
                && (lth_outputs(s, true)[0] == 0 <==> b >= a)
        }),
{
}

/// ADD pushes the sum `b + a` of the two values on top of a stack, `a` on top and `b` below it, both unsigned:
/// bytes modulo 256 in byte mode, big-endian shorts modulo 65536 in short mode (a carry or
/// borrow between the low and the high byte is kept).
pub proof fn lemma_add(s: Seq<u8>)
    requires
        s.len() >= 2,
    ensures
        ({
            let a = byte_value(s[s.len() - 1]);
            let b = byte_value(s[s.len() - 2]);
            add_outputs(s, false).len() == 1 && value_of(add_outputs(s, false)) == (b + a) % 256
        }),
        s.len() >= 4 ==> ({
            let n = s.len();
            let a = short_value(s[n - 2], s[n - 1]);
            let b = short_value(s[n - 4], s[n - 3]);
            add_outputs(s, true).len() == 2 && value_of(add_outputs(s, true)) == (b + a) % 65536
        }),
{
}

/// SUB pushes the difference `b - a` of the two values on top of a stack, `a` on top and `b` below it, both unsigned:
/// bytes modulo 256 in byte mode, big-endian shorts modulo 65536 in short mode (a carry or
/// borrow between the low and the high byte is kept).
pub proof fn lemma_sub(s: Seq<u8>)
    requires
        s.len() >= 2,
    ensures
        ({
            let a = byte_value(s[s.len() - 1]);
            let b = byte_value(s[s.len() - 2]);
            sub_outputs(s, false).len() == 1 && value_of(sub_outputs(s, false)) == (b - a) % 256
        }),
        s.len() >= 4 ==> ({
            let n = s.len();
            let a = short_value(s[n - 2], s[n - 1]);
            let b = short_value(s[n - 4], s[n - 3]);
            sub_outputs(s, true).len() == 2 && value_of(sub_outputs(s, true)) == (b - a) % 65536
        }),
{
}

/// MUL pushes the product `b * a` of the two values on top of a stack, `a` on top and `b` below it, both unsigned:
/// bytes modulo 256 in byte mode, big-endian shorts modulo 65536 in short mode (a carry or
/// borrow between the low and the high byte is kept).
pub proof fn lemma_mul(s: Seq<u8>)
    requires
        s.len() >= 2,
    ensures
        ({
            let a = byte_value(s[s.len() - 1]);
            let b = byte_value(s[s.len() - 2]);
            mul_outputs(s, false).len() == 1 && value_of(mul_outputs(s, false)) == (b * a) % 256
        }),
        s.len() >= 4 ==> ({
            let n = s.len();
            let a = short_value(s[n - 2], s[n - 1]);
            let b = short_value(s[n - 4], s[n - 3]);
            mul_outputs(s, true).len() == 2 && value_of(mul_outputs(s, true)) == (b * a) % 65536
        }),
{
}

/// DIV pushes the whole part of `b / a` for the two values on top of a stack, `a` on top and
/// `b` below it, both unsigned (bytes, or big-endian shorts in short mode), and 0 where `a` is 0.
pub proof fn lemma_div(s: Seq<u8>)
    requires
        s.len() >= 2,
    ensures
        ({
            let a = byte_value(s[s.len() - 1]);
            let b = byte_value(s[s.len() - 2]);
            div_outputs(s, false).len() == 1 && value_of(div_outputs(s, false)) == (if a == 0 { 0 } else { b / a })
        }),
        s.len() >= 4 ==> ({
            let n = s.len();
            let a = short_value(s[n - 2], s[n - 1]);
            let b = short_value(s[n - 4], s[n - 3]);
            div_outputs(s, true).len() == 2 && value_of(div_outputs(s, true)) == (if a == 0 { 0 } else { b / a })
        }),
{
}

/// INC pushes `a + 1` for the value `a` on top of a stack, unsigned: a byte modulo 256, or in
/// short mode a big-endian short modulo 65536, the carry out of the low byte going into the high
/// byte.
pub proof fn lemma_inc(s: Seq<u8>)
    requires
        s.len() >= 1,
    ensures
        inc_outputs(s, false).len() == 1 && value_of(inc_outputs(s, false)) == (byte_value(s[s.len() - 1]) + 1) % 256,
        s.len() >= 2 ==> inc_outputs(s, true).len() == 2 && value_of(inc_outputs(s, true)) == (short_value(
            s[s.len() - 2],
            s[s.len() - 1],
        ) + 1) % 65536,
{
}

/// The bitwise operations work bit by bit, so on each byte by itself: in byte mode on the two
/// bytes on top of a stack (`a` on top, `b` below it), in short mode on the high bytes of the two
/// shorts and on their low bytes. AND pushes `b & a`, ORA `b | a`, EOR `b ^ a`.
pub proof fn lemma_bitwise_bytes(s: Seq<u8>)
    requires
        s.len() >= 2,
    ensures
        ({
            let n = s.len();
            let a = s[n - 1];
            let b = s[n - 2];
            &&& and_outputs(s, false) == seq![b & a]
            &&& ora_outputs(s, false) == seq![b | a]
            &&& eor_outputs(s, false) == seq![b ^ a]
        }),
        s.len() >= 4 ==> ({
            let n = s.len();
            let (ah, al, bh, bl) = (s[n - 2], s[n - 1], s[n - 4], s[n - 3]);
            &&& and_outputs(s, true) == seq![bh & ah, bl & al]
            &&& ora_outputs(s, true) == seq![bh | ah, bl | al]
            &&& eor_outputs(s, true) == seq![bh ^ ah, bl ^ al]
        }),
{
    if s.len() >= 4 {
        let n = s.len();
        let (ah, al, bh, bl) = (s[n - 2], s[n - 1], s[n - 4], s[n - 3]);
        let x = (bh as int * 256 + bl as int) as u16;
        let y = (ah as int * 256 + al as int) as u16;
        assert(x == (bh as u16) * 256u16 + (bl as u16));
        assert(y == (ah as u16) * 256u16 + (al as u16));
        assert(((x & y) / 256) as u8 == bh & ah && ((x & y) % 256) as u8 == bl & al) by (bit_vector)
            requires
                x == (bh as u16) * 256u16 + (bl as u16),
                y == (ah as u16) * 256u16 + (al as u16),
        ;
        assert(((x | y) / 256) as u8 == bh | ah && ((x | y) % 256) as u8 == bl | al) by (bit_vector)
            requires
                x == (bh as u16) * 256u16 + (bl as u16),
                y == (ah as u16) * 256u16 + (al as u16),
        ;
        assert(((x ^ y) / 256) as u8 == bh ^ ah && ((x ^ y) % 256) as u8 == bl ^ al) by (bit_vector)
            requires
                x == (bh as u16) * 256u16 + (bl as u16),
                y == (ah as u16) * 256u16 + (al as u16),
        ;
        assert(and_outputs(s, true) =~= seq![bh & ah, bl & al]);
        assert(ora_outputs(s, true) =~= seq![bh | ah, bl | al]);
        assert(eor_outputs(s, true) =~= seq![bh ^ ah, bl ^ al]);
    }
}

/// Shifting `v` (below 65536) right by `r` and then left by `l` places, `r` and `l` below 16,
/// and keeping the remainder modulo `m`: the whole part of `v / 2^r`, times `2^l`, modulo `m`.
proof fn lemma_shift_value_arith(v: u16, a: u8, m: u32)
    requires
        m == 0x100 || m == 0x10000,
    ensures
        shift_value(v, a, m) as int == ((v as nat / pow2((a % 16) as nat)) * pow2((a / 16) as nat)) % (m as nat),
{
    let r: u32 = (a % 16) as u32;
    let l: u32 = (a / 16) as u32;
    let x: u32 = v as u32;
    lemma_u32_shr_is_div(x, r);
    let y: u32 = x >> r;
    lemma_pow2_pos(r as nat);
    assert(y as nat <= x as nat) by (nonlinear_arith)
        requires
            y as nat == x as nat / pow2(r as nat),
            pow2(r as nat) > 0,
    ;
    lemma2_to64();
    if l < 15 {
        lemma_pow2_strictly_increases(l as nat, 15);
    }
    assert(y * pow2(l as nat) <= 0xffff * 0x8000) by (nonlinear_arith)
        requires
            y <= 0xffff,
            pow2(l as nat) <= 0x8000,
    ;
    lemma_u32_shl_is_mul(y, l);
    assert(x >> r == y);
}

/// SFT takes the byte on top of a stack as a shift, its low nibble `r` and its high nibble `l`,
/// and the value below it as an unsigned number (a byte in byte mode, a big-endian short in
/// short mode), and pushes that value shifted right by `r` places and then left by `l`, zeros
/// coming in: the whole part of `value / 2^r`, times `2^l`, modulo 256 (a byte) or 65536 (a
/// short).
pub proof fn lemma_shift(s: Seq<u8>)
    requires
        s.len() >= 2,
    ensures
        ({
            let n = s.len();
            let a = s[n - 1];
            &&& sft_outputs(s, false).len() == 1
            &&& value_of(sft_outputs(s, false)) == ((byte_value(s[n - 2]) as nat / pow2((a % 16) as nat)) * pow2(
                (a / 16) as nat,
            )) % 256
        }),
        s.len() >= 3 ==> ({
            let n = s.len();
            let a = s[n - 1];
            &&& sft_outputs(s, true).len() == 2
            &&& value_of(sft_outputs(s, true)) == ((short_value(s[n - 3], s[n - 2]) as nat / pow2((a % 16) as nat))
                * pow2((a / 16) as nat)) % 65536
        }),
{
    let n = s.len();
    let a = s[n - 1];
    lemma_shift_value_arith(s[n - 2] as u16, a, 0x100);
    if n >= 3 {
        let v = (s[n - 3] as int * 256 + s[n - 2] as int) as u16;
        assert(v as int == short_value(s[n - 3], s[n - 2]));
        lemma_shift_value_arith(v, a, 0x10000);
    }
}

/// A byte read as a two's complement number, from -128 to 127.
pub open spec fn twos_complement(b: u8) -> int {
    (b as int + 128) % 256 - 128
}

/// Where a jump goes: in short mode the absolute address that the big-endian short on top of
/// the stack stands for; in byte mode the program counter moved by the byte on top of the stack
/// read as a two's complement offset (so 0xff steps back one), and nowhere (an error) where
/// that leaves memory or there is no program counter.
pub proof fn lemma_jump_target(pc: Option<u16>, s: Seq<u8>)
    requires
        s.len() >= 1,
    ensures
        s.len() >= 2 ==> (jump_target(pc, true, s) matches Ok(t) && t as int == short_value(s[s.len() - 2], s[s.len() - 1])),
        ({
            let off = twos_complement(s[s.len() - 1]);
            match pc {
                None => jump_target(pc, false, s) == Err::<u16, UxnError>(UxnError::OutOfRangeMemoryAddress),
                Some(p) => if 0 <= p + off <= 0xffff {
                    (jump_target(pc, false, s) matches Ok(t) && t == p + off)
                } else {
                    jump_target(pc, false, s) == Err::<u16, UxnError>(UxnError::OutOfRangeMemoryAddress)
                },
            }
        }),
{
}

/// The address that a relative load or store refers to: the program counter moved by the
/// offset byte read as a two's complement number, or an error where that leaves memory or there
/// is no program counter.
pub proof fn lemma_relative_target(pc: Option<u16>, offset: u8)
    ensures
        match pc {
            None => relative_target(pc, offset) == Err::<u16, UxnError>(UxnError::OutOfRangeMemoryAddress),
            Some(p) => if 0 <= p + twos_complement(offset) <= 0xffff {
                (relative_target(pc, offset) matches Ok(t) && t == p + twos_complement(offset))
            } else {
                relative_target(pc, offset) == Err::<u16, UxnError>(UxnError::OutOfRangeMemoryAddress)
            },
        },
{
}

/// The stack shuffles, with `a` the value on top of a stack, `b` the one below it and `c` the one
/// below that (bytes, or in short mode shorts of two bytes each, high byte first), push: DUP
/// `a a`, NIP `a` (dropping `b`), SWP `a b`, OVR `b a b`, ROT `b a c`, the last pushed on top.
pub proof fn lemma_stack_shuffles(s: Seq<u8>)
    requires
        s.len() >= 3,
    ensures
        ({
            let n = s.len();
            let (a, b, c) = (s[n - 1], s[n - 2], s[n - 3]);
            &&& dup_outputs(s, false) == seq![a, a]
            &&& nip_outputs(s, false) == seq![a]
            &&& swp_outputs(s, false) == seq![a, b]
            &&& ovr_outputs(s, false) == seq![b, a, b]
            &&& rot_outputs(s, false) == seq![b, a, c]
        }),
        s.len() >= 6 ==> ({
            let n = s.len();
            let (ah, al, bh, bl, ch, cl) = (s[n - 2], s[n - 1], s[n - 4], s[n - 3], s[n - 6], s[n - 5]);
            &&& dup_outputs(s, true) == seq![ah, al, ah, al]
            &&& nip_outputs(s, true) == seq![ah, al]
            &&& swp_outputs(s, true) == seq![ah, al, bh, bl]
            &&& ovr_outputs(s, true) == seq![bh, bl, ah, al, bh, bl]
            &&& rot_outputs(s, true) == seq![bh, bl, ah, al, ch, cl]
        }),
{
    let n = s.len();
    assert(dup_outputs(s, false) =~= seq![s[n - 1], s[n - 1]]);
    assert(nip_outputs(s, false) =~= seq![s[n - 1]]);
    assert(swp_outputs(s, false) =~= seq![s[n - 1], s[n - 2]]);
    assert(ovr_outputs(s, false) =~= seq![s[n - 2], s[n - 1], s[n - 2]]);
    assert(rot_outputs(s, false) =~= seq![s[n - 2], s[n - 1], s[n - 3]]);
    if n >= 6 {
        assert(dup_outputs(s, true) =~= seq![s[n - 2], s[n - 1], s[n - 2], s[n - 1]]);
        assert(nip_outputs(s, true) =~= seq![s[n - 2], s[n - 1]]);
        assert(swp_outputs(s, true) =~= seq![s[n - 2], s[n - 1], s[n - 4], s[n - 3]]);
        assert(ovr_outputs(s, true) =~= seq![s[n - 4], s[n - 3], s[n - 2], s[n - 1], s[n - 4], s[n - 3]]);
        assert(rot_outputs(s, true) =~= seq![s[n - 4], s[n - 3], s[n - 2], s[n - 1], s[n - 6], s[n - 5]]);
    }
}

/// A store writes the value that stands below its address bytes (`na` of them) on the stack:
/// one byte at the address, or in short mode the high byte at the address and the low byte at
/// the next one; every other byte of memory stays as it was. A load reads those bytes back in
/// the same order, a short load giving the big-endian short of the byte at the address and the
/// one after it.
pub proof fn lemma_store_and_load_cells(ram: Seq<u8>, s: Seq<u8>, na: int, a: u16)
    requires
        ram.len() == 0x10000,
        0 <= na,
        s.len() >= na + 2,
        a < u16::MAX,
    ensures
        ({
            let n = s.len();
            let one = stored_ram(ram, s, na, a, false);
            let two = stored_ram(ram, s, na, a, true);
            &&& one.len() == ram.len() && two.len() == ram.len()
            &&& one[a as int] == s[n - 1 - na]
            &&& forall|i: int| 0 <= i < ram.len() && i != a ==> one[i] == ram[i]
            &&& two[a as int] == s[n - 2 - na] && two[a + 1] == s[n - 1 - na]
            &&& forall|i: int| 0 <= i < ram.len() && i != a && i != a + 1 ==> two[i] == ram[i]
            &&& load_outputs(ram, a, false) == seq![ram[a as int]]
            &&& load_outputs(ram, a, true).len() == 2
            &&& value_of(load_outputs(ram, a, true)) == short_value(ram[a as int], ram[a + 1])
        }),
{
}

/// A relative label address written by the assembler takes the machine to the label: the
/// literal's offset byte, read by a jump as a two's complement offset from the program counter
/// just past the literal and the jump (three bytes on from where the literal stands), gives the
/// label's address.
pub proof fn lemma_relative_literal_lands(
    r: LabelRefModel,
    counter: u16,
    labels: Seq<(Seq<char>, LabelModel)>,
    current: Seq<char>,
)
    requires
        token_bytes(TokenModel::LitAddressRel(r), counter, labels, current) is Ok,
        counter + 3 <= 0xffff,
    ensures
        ({
            let bytes = token_bytes(TokenModel::LitAddressRel(r), counter, labels, current)->Ok_0;
            &&& bytes.len() == 2
            &&& label_address(r, labels, current) matches Ok(a)
                && relative_address((counter + 3) as u16, bytes[1]) == Some(a)
            &&& twos_complement(bytes[1]) == label_address(r, labels, current)->Ok_0 - (counter + 3)
        }),
{
}

} // verus!
