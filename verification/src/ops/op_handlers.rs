use vstd::prelude::*;

use crate::uxninterface::{STACK_CAPACITY, Uxn, UxnError, UxnState, UxnWithDevices, next_pc, same_except_stacks, spec_push};

pub mod arithmetic;
pub mod laws;
pub mod bitwise;
pub mod control_flow;
pub mod logic;
pub mod memory;
pub mod stack;

pub use arithmetic::{add_handler, div_handler, mul_handler, sub_handler};
pub use bitwise::{and_handler, eor_handler, ora_handler, sft_handler};
pub use control_flow::{jcn_handler, jmp_handler, jsr_handler, sth_handler};
pub use logic::{equ_handler, gth_handler, lth_handler, neq_handler};
pub use memory::{dei_handler, deo_handler, lda_handler, ldr_handler, ldz_handler, sta_handler, str_handler, stz_handler};
pub use stack::{dup_handler, inc_handler, lit_handler, nip_handler, ovr_handler, pop_handler, rot_handler, swp_handler};

verus! {

/// The stack an operation works on: the return stack in return mode, else the working stack.
pub open spec fn this_stack<U: UxnState>(u: &U, ret: bool) -> Seq<u8> {
    if ret {
        u.rst()
    } else {
        u.wst()
    }
}

/// The stack an operation stashes to: the working stack in return mode, else the return stack.
pub open spec fn other_stack<U: UxnState>(u: &U, ret: bool) -> Seq<u8> {
    if ret {
        u.wst()
    } else {
        u.rst()
    }
}

/// The `i`th byte from the top of `s` (the top is `top(s, 0)`).
pub open spec fn top(s: Seq<u8>, i: int) -> u8 {
    s[s.len() - 1 - i]
}

/// The short made of a high and a low byte.
pub open spec fn short_of(high: u8, low: u8) -> u16 {
    (high as int * 256 + low as int) as u16
}

/// The short whose low byte is `top(s, i)` and whose high byte is `top(s, i + 1)`.
pub open spec fn top_short(s: Seq<u8>, i: int) -> u16 {
    short_of(top(s, i + 1), top(s, i))
}

/// The high byte of a short followed by its low byte.
pub open spec fn short_bytes(v: u16) -> Seq<u8> {
    seq![(v / 256) as u8, (v % 256) as u8]
}

/// The stack that results from pushing `bytes`, in order, onto `s`: once the stack is full,
/// the remaining bytes are refused.
pub open spec fn push_all(s: Seq<u8>, bytes: Seq<u8>) -> Seq<u8> {
    if s.len() >= STACK_CAPACITY {
        s
    } else if s.len() + bytes.len() <= STACK_CAPACITY {
        s + bytes
    } else {
        s + bytes.take(STACK_CAPACITY - s.len())
    }
}

/// The stack, and the result, of an operation that takes `k` bytes from the top of `s` and
/// pushes `outs`. In keep mode the taken bytes stay where they were; when `s` holds fewer
/// than `k` bytes the operation fails, and in keep mode leaves `s` as it was.
pub open spec fn stack_effect(s: Seq<u8>, k: nat, outs: Seq<u8>, keep: bool) -> (
    Seq<u8>,
    Result<(), UxnError>,
) {
    if s.len() < k {
        (
            if keep {
                s
            } else {
                Seq::empty()
            },
            Err(UxnError::StackUnderflow),
        )
    } else {
        let base = if keep {
            s
        } else {
            s.take(s.len() - k)
        };
        (
            push_all(base, outs),
            if base.len() + outs.len() <= STACK_CAPACITY {
                Ok(())
            } else {
                Err(UxnError::StackOverflow)
            },
        )
    }
}

/// In keep mode an operation leaves the bytes it took where they were: the stack after it
/// starts with the whole stack before it.
pub proof fn lemma_keep_preserves_operands(s: Seq<u8>, k: nat, outs: Seq<u8>)
    ensures
        stack_effect(s, k, outs, true).0.len() >= s.len(),
        stack_effect(s, k, outs, true).0.take(s.len() as int) == s,
{
    let r = stack_effect(s, k, outs, true).0;
    assert(r.take(s.len() as int) =~= s);
}

/// What every operation that only rearranges or computes on one stack guarantees: it takes
/// `k` bytes from the top of its stack and pushes `outs`, and touches nothing else.
pub open spec fn stack_op_post<U: UxnState>(
    pre: &U,
    post: &U,
    keep: bool,
    ret: bool,
    k: nat,
    outs: Seq<u8>,
    r: Result<(), UxnError>,
) -> bool {
    &&& post.ok()
    &&& same_except_stacks(post, pre)
    &&& other_stack(post, ret) == other_stack(pre, ret)
    &&& this_stack(post, ret) == stack_effect(this_stack(pre, ret), k, outs, keep).0
    &&& r == stack_effect(this_stack(pre, ret), k, outs, keep).1
}

/// Pushing one byte after another agrees with `push_all`.
pub proof fn lemma_push_all_step(s: Seq<u8>, bytes: Seq<u8>, i: int)
    requires
        s.len() <= STACK_CAPACITY,
        0 <= i < bytes.len(),
    ensures
        push_all(s, bytes.take(i + 1)) == spec_push(push_all(s, bytes.take(i)), bytes[i]),
        push_all(s, bytes.take(i)).len() < STACK_CAPACITY <==> s.len() + i < STACK_CAPACITY,
{
    assert(bytes.take(i + 1) =~= bytes.take(i).push(bytes[i]));
    if s.len() + i < STACK_CAPACITY {
        assert((s + bytes.take(i)).push(bytes[i]) =~= s + bytes.take(i).push(bytes[i]));
    } else if s.len() < STACK_CAPACITY {
        assert(bytes.take(i + 1).take(STACK_CAPACITY - s.len()) =~= bytes.take(i).take(
            STACK_CAPACITY - s.len(),
        ));
    }
}

/// Pushing back the bytes taken from the top of a stack gives the stack back.
pub proof fn lemma_push_all_restores(s: Seq<u8>, k: int)
    requires
        s.len() <= STACK_CAPACITY,
        0 <= k <= s.len(),
    ensures
        push_all(s.take(s.len() - k), s.skip(s.len() - k)) == s,
{
    assert(s.take(s.len() - k) + s.skip(s.len() - k) =~= s);
}

/// Once all bytes have been pushed, or the stack is full, the rest of `bytes` changes nothing.
pub proof fn lemma_push_all_full(s: Seq<u8>, bytes: Seq<u8>, i: int)
    requires
        s.len() <= STACK_CAPACITY,
        0 <= i <= bytes.len(),
        s.len() + i >= STACK_CAPACITY || i == bytes.len(),
    ensures
        push_all(s, bytes.take(i)) == push_all(s, bytes),
{
    if i == bytes.len() {
        assert(bytes.take(i) =~= bytes);
    } else if s.len() < STACK_CAPACITY {
        assert(bytes.take(i).take(STACK_CAPACITY - s.len()) =~= bytes.take(
            STACK_CAPACITY - s.len(),
        ));
    }
}

/// Carries out the stack side of an operation in a given mode: which stack it takes from and
/// pushes to, and, in keep mode, the bytes taken so far, which are put back before anything
/// else is pushed.
pub struct UxnWrapper {
    pub keep: bool,
    pub ret: bool,
    pub popped_values: Vec<u8>,
}

/// The short made of a high and a low byte.
pub fn short_from(high: u8, low: u8) -> (r: u16)
    ensures
        r == short_of(high, low),
{
    high as u16 * 256 + low as u16
}

/// The bytes of a short, high byte first.
pub fn short_to_vec(v: u16) -> (r: Vec<u8>)
    ensures
        r@ == short_bytes(v),
{
    vec![(v / 256) as u8, (v % 256) as u8]
}

impl UxnWrapper {
    pub fn new(keep: bool, ret: bool) -> (w: Self)
        ensures
            w.keep == keep,
            w.ret == ret,
            w.popped_values@ == Seq::<u8>::empty(),
    {
        UxnWrapper { keep, ret, popped_values: Vec::new() }
    }

    pub fn read_next_byte_from_ram<U: Uxn>(&self, u: &mut U) -> (r: Result<u8, UxnError>)
        requires
            old(u).ok(),
        ensures
            final(u).ok(),
            final(u).ram() == old(u).ram(),
            final(u).wst() == old(u).wst(),
            final(u).rst() == old(u).rst(),
            final(u).device_writes() == old(u).device_writes(),
            final(u).device_reads() == old(u).device_reads(),
            match old(u).pc() {
                None => {
                    &&& r == Err::<u8, UxnError>(UxnError::OutOfRangeMemoryAddress)
                    &&& final(u).pc() == old(u).pc()
                },
                Some(p) => {
                    &&& r == Ok::<u8, UxnError>(old(u).ram()[p as int])
                    &&& final(u).pc() == next_pc(p)
                },
            },
    {
        u.read_next_byte_from_ram()
    }

    pub fn read_from_ram<U: Uxn>(&self, u: &U, addr: u16) -> (r: u8)
        requires
            u.ok(),
        ensures
            r == u.ram()[addr as int],
    {
        u.read_from_ram(addr)
    }

    pub fn write_to_device<U: UxnWithDevices>(&self, u: &mut U, device_address: u8, val: u8)
        requires
            old(u).ok(),
        ensures
            final(u).ok(),
            final(u).pc() == old(u).pc(),
            final(u).device_writes() == old(u).device_writes().push((device_address, val)),
            final(u).device_reads() == old(u).device_reads(),
            (device_address % 16 != 0x2 && device_address % 16 != 0x3) ==> final(u).wst() == old(u).wst()
                && final(u).rst() == old(u).rst(),
    {
        u.write_to_device(device_address, val)
    }

    /// Pushes onto this operation's stack, without first putting back what was taken.
    fn push_raw<U: Uxn>(&self, u: &mut U, byte: u8) -> (r: Result<(), UxnError>)
        requires
            old(u).ok(),
        ensures
            final(u).ok(),
            same_except_stacks(final(u), old(u)),
            other_stack(final(u), self.ret) == other_stack(old(u), self.ret),
            this_stack(final(u), self.ret) == spec_push(this_stack(old(u), self.ret), byte),
            r == (if this_stack(old(u), self.ret).len() < STACK_CAPACITY {
                Ok::<(), UxnError>(())
            } else {
                Err::<(), UxnError>(UxnError::StackOverflow)
            }),
    {
        if self.ret {
            u.push_to_return_stack(byte)
        } else {
            u.push_to_working_stack(byte)
        }
    }

    /// Puts back, in keep mode, every byte taken so far (the last taken first).
    pub fn restore<U: Uxn>(&mut self, u: &mut U)
        requires
            old(u).ok(),
        ensures
            final(u).ok(),
            same_except_stacks(final(u), old(u)),
            other_stack(final(u), old(self).ret) == other_stack(old(u), old(self).ret),
            this_stack(final(u), old(self).ret) == push_all(
                this_stack(old(u), old(self).ret),
                old(self).popped_values@.reverse(),
            ),
            final(self).popped_values@ == Seq::<u8>::empty(),
            final(self).keep == old(self).keep,
            final(self).ret == old(self).ret,
    {
        let ghost s0 = this_stack(old(u), self.ret);
        let ghost rev = self.popped_values@.reverse();
        proof {
            old(u).lemma_ok_bounds();
            assert(rev.take(0) =~= Seq::<u8>::empty());
            assert(s0 + Seq::<u8>::empty() =~= s0);
        }
        let ghost mut i: int = 0;
        while self.popped_values.len() > 0
            invariant
                u.ok(),
                same_except_stacks(u, old(u)),
                other_stack(u, self.ret) == other_stack(old(u), self.ret),
                self.ret == old(self).ret,
                self.keep == old(self).keep,
                rev == old(self).popped_values@.reverse(),
                s0 == this_stack(old(u), self.ret),
                s0.len() <= STACK_CAPACITY,
                0 <= i <= rev.len(),
                i + self.popped_values@.len() == rev.len(),
                self.popped_values@ == old(self).popped_values@.take(rev.len() - i),
                this_stack(u, self.ret) == push_all(s0, rev.take(i)),
            decreases self.popped_values.len(),
        {
            let val = self.popped_values.pop().unwrap();
            proof {
                lemma_push_all_step(s0, rev, i);
                assert(rev[i] == old(self).popped_values@[rev.len() - 1 - i]);
            }
            let _ = self.push_raw(u, val);
            proof {
                i = i + 1;
                assert(self.popped_values@ =~= old(self).popped_values@.take(rev.len() - i));
            }
        }
        proof {
            assert(rev.take(i) =~= rev);
        }
    }

    /// Pushes onto this operation's stack; in keep mode the bytes taken so far are put back
    /// first.
    pub fn push<U: Uxn>(&mut self, u: &mut U, byte: u8) -> (r: Result<(), UxnError>)
        requires
            old(u).ok(),
        ensures
            final(u).ok(),
            same_except_stacks(final(u), old(u)),
            other_stack(final(u), old(self).ret) == other_stack(old(u), old(self).ret),
            this_stack(final(u), old(self).ret) == spec_push(
                push_all(this_stack(old(u), old(self).ret), old(self).popped_values@.reverse()),
                byte,
            ),
            r == (if push_all(
                this_stack(old(u), old(self).ret),
                old(self).popped_values@.reverse(),
            ).len() < STACK_CAPACITY {
                Ok::<(), UxnError>(())
            } else {
                Err::<(), UxnError>(UxnError::StackOverflow)
            }),
            final(self).popped_values@ == Seq::<u8>::empty(),
            final(self).keep == old(self).keep,
            final(self).ret == old(self).ret,
    {
        self.restore(u);
        self.push_raw(u, byte)
    }

    /// Pushes onto the other stack than this operation's.
    pub fn push_to_return_stack<U: Uxn>(&self, u: &mut U, byte: u8) -> (r: Result<(), UxnError>)
        requires
            old(u).ok(),
        ensures
            final(u).ok(),
            same_except_stacks(final(u), old(u)),
            this_stack(final(u), self.ret) == this_stack(old(u), self.ret),
            other_stack(final(u), self.ret) == spec_push(other_stack(old(u), self.ret), byte),
            r == (if other_stack(old(u), self.ret).len() < STACK_CAPACITY {
                Ok::<(), UxnError>(())
            } else {
                Err::<(), UxnError>(UxnError::StackOverflow)
            }),
    {
        if self.ret {
            u.push_to_working_stack(byte)
        } else {
            u.push_to_return_stack(byte)
        }
    }

    /// Takes the top byte of this operation's stack; in keep mode it is remembered so that it
    /// can be put back.
    pub fn pop<U: Uxn>(&mut self, u: &mut U) -> (r: Result<u8, UxnError>)
        requires
            old(u).ok(),
        ensures
            final(u).ok(),
            same_except_stacks(final(u), old(u)),
            other_stack(final(u), old(self).ret) == other_stack(old(u), old(self).ret),
            final(self).keep == old(self).keep,
            final(self).ret == old(self).ret,
            if this_stack(old(u), old(self).ret).len() > 0 {
                &&& r == Ok::<u8, UxnError>(this_stack(old(u), old(self).ret).last())
                &&& this_stack(final(u), old(self).ret) == this_stack(
                    old(u),
                    old(self).ret,
                ).drop_last()
                &&& final(self).popped_values@ == (if old(self).keep {
                    old(self).popped_values@.push(this_stack(old(u), old(self).ret).last())
                } else {
                    old(self).popped_values@
                })
            } else {
                &&& r == Err::<u8, UxnError>(UxnError::StackUnderflow)
                &&& this_stack(final(u), old(self).ret) == this_stack(old(u), old(self).ret)
                &&& final(self).popped_values@ == old(self).popped_values@
            },
    {
        let popped = if self.ret {
            u.pop_from_return_stack()
        } else {
            u.pop_from_working_stack()
        };
        match popped {
            Ok(v) => {
                if self.keep {
                    self.popped_values.push(v);
                }
                Ok(v)
            },
            Err(e) => Err(e),
        }
    }

    /// Takes a short: its low byte is on top, its high byte below.
    pub fn pop_short<U: Uxn>(&mut self, u: &mut U) -> (r: Result<u16, UxnError>)
        requires
            old(u).ok(),
        ensures
            final(u).ok(),
            same_except_stacks(final(u), old(u)),
            other_stack(final(u), old(self).ret) == other_stack(old(u), old(self).ret),
            final(self).keep == old(self).keep,
            final(self).ret == old(self).ret,
            r is Ok <==> this_stack(old(u), old(self).ret).len() >= 2,
            r is Ok ==> r == Ok::<u16, UxnError>(top_short(this_stack(old(u), old(self).ret), 0)),
    {
        let low = match self.pop(u) {
            Ok(v) => v,
            Err(e) => {
                return Err(e);
            },
        };
        let high = match self.pop(u) {
            Ok(v) => v,
            Err(e) => {
                return Err(e);
            },
        };
        Ok(high as u16 * 256 + low as u16)
    }

    /// Takes `k` bytes from this operation's stack and gives them back in the order taken
    /// (the top first). When the stack holds fewer, everything taken by this operation so
    /// far is put back in keep mode, and the operation fails.
    pub fn pop_inputs<U: Uxn>(&mut self, u: &mut U, k: usize) -> (r: Result<Vec<u8>, UxnError>)
        requires
            old(u).ok(),
            old(self).popped_values@.len() == 0,
        ensures
            final(u).ok(),
            same_except_stacks(final(u), old(u)),
            other_stack(final(u), old(self).ret) == other_stack(old(u), old(self).ret),
            final(self).keep == old(self).keep,
            final(self).ret == old(self).ret,
            ({
                let s = this_stack(old(u), old(self).ret);
                match r {
                    Ok(v) => {
                        &&& s.len() >= k
                        &&& v@.len() == k
                        &&& forall|i: int| 0 <= i < k ==> v@[i] == #[trigger] top(s, i)
                        &&& this_stack(final(u), old(self).ret) == s.take(s.len() - k)
                        &&& final(self).popped_values@ == (if old(self).keep {
                            v@
                        } else {
                            Seq::<u8>::empty()
                        })
                        &&& push_all(
                            this_stack(final(u), old(self).ret),
                            final(self).popped_values@.reverse(),
                        ) == (if old(self).keep {
                            s
                        } else {
                            s.take(s.len() - k)
                        })
                    },
                    Err(e) => {
                        &&& s.len() < k
                        &&& e == UxnError::StackUnderflow
                        &&& this_stack(final(u), old(self).ret) == (if old(self).keep {
                            s
                        } else {
                            Seq::<u8>::empty()
                        })
                        &&& final(self).popped_values@ == Seq::<u8>::empty()
                    },
                }
            }),
    {
        let ghost s = this_stack(old(u), self.ret);
        proof {
            old(u).lemma_ok_bounds();
        }
        let mut v: Vec<u8> = Vec::new();
        let mut i: usize = 0;
        while i < k
            invariant
                u.ok(),
                same_except_stacks(u, old(u)),
                other_stack(u, self.ret) == other_stack(old(u), self.ret),
                self.keep == old(self).keep,
                self.ret == old(self).ret,
                s == this_stack(old(u), self.ret),
                s.len() <= STACK_CAPACITY,
                i <= k,
                i <= s.len(),
                v@.len() == i,
                forall|j: int| 0 <= j < i ==> v@[j] == #[trigger] top(s, j),
                this_stack(u, self.ret) == s.take(s.len() - i),
                self.popped_values@ == (if self.keep {
                    v@
                } else {
                    Seq::<u8>::empty()
                }),
            decreases k - i,
        {
            let ghost before = this_stack(u, self.ret);
            match self.pop(u) {
                Ok(b) => {
                    v.push(b);
                    proof {
                        assert(before.last() == top(s, i as int));
                        assert(before.drop_last() =~= s.take(s.len() - (i + 1)));
                    }
                    i = i + 1;
                },
                Err(e) => {
                    proof {
                        assert(s.take(s.len() - i) =~= Seq::<u8>::empty());
                    }
                    let ghost popped = self.popped_values@;
                    self.restore(u);
                    proof {
                        if self.keep {
                            assert forall|m: int| 0 <= m < s.len() implies popped.reverse()[m] == s.skip(0)[m] by {
                                assert(popped[s.len() - 1 - m] == top(s, s.len() - 1 - m));
                            }
                            assert(popped.reverse() =~= s.skip(0));
                            assert(s.take(0) =~= Seq::<u8>::empty());
                            lemma_push_all_restores(s, s.len() as int);
                        } else {
                            assert(popped.reverse() =~= Seq::<u8>::empty());
                            assert(Seq::<u8>::empty() + Seq::<u8>::empty() =~= Seq::<u8>::empty());
                        }
                    }
                    return Err(e);
                },
            }
        }
        proof {
            if self.keep {
                assert forall|m: int| 0 <= m < k implies v@.reverse()[m] == s.skip(s.len() - k)[m] by {
                    assert(v@[k - 1 - m] == top(s, k - 1 - m));
                }
                assert(v@.reverse() =~= s.skip(s.len() - k));
                lemma_push_all_restores(s, k as int);
            } else {
                assert(Seq::<u8>::empty().reverse() =~= Seq::<u8>::empty());
                assert(s.take(s.len() - k) + Seq::<u8>::empty() =~= s.take(s.len() - k));
            }
        }
        Ok(v)
    }

    /// Pushes `outs` in order; in keep mode the bytes taken are first put back. Stops at the
    /// first byte that does not fit.
    pub fn push_outputs<U: Uxn>(&mut self, u: &mut U, outs: &Vec<u8>) -> (r: Result<(), UxnError>)
        requires
            old(u).ok(),
        ensures
            final(u).ok(),
            same_except_stacks(final(u), old(u)),
            other_stack(final(u), old(self).ret) == other_stack(old(u), old(self).ret),
            final(self).keep == old(self).keep,
            final(self).ret == old(self).ret,
            final(self).popped_values@ == Seq::<u8>::empty(),
            ({
                let base = push_all(
                    this_stack(old(u), old(self).ret),
                    old(self).popped_values@.reverse(),
                );
                &&& this_stack(final(u), old(self).ret) == push_all(base, outs@)
                &&& r == (if base.len() + outs@.len() <= STACK_CAPACITY {
                    Ok::<(), UxnError>(())
                } else {
                    Err::<(), UxnError>(UxnError::StackOverflow)
                })
            }),
    {
        self.restore(u);
        let ghost base = this_stack(u, self.ret);
        proof {
            u.lemma_ok_bounds();
            assert(outs@.take(0) =~= Seq::<u8>::empty());
            assert(base + Seq::<u8>::empty() =~= base);
        }
        let mut i: usize = 0;
        while i < outs.len()
            invariant
                u.ok(),
                same_except_stacks(u, old(u)),
                other_stack(u, self.ret) == other_stack(old(u), self.ret),
                self.keep == old(self).keep,
                self.ret == old(self).ret,
                self.popped_values@ == Seq::<u8>::empty(),
                base.len() <= STACK_CAPACITY,
                base == push_all(this_stack(old(u), old(self).ret), old(self).popped_values@.reverse()),
                i <= outs.len(),
                base.len() + i <= STACK_CAPACITY,
                this_stack(u, self.ret) == push_all(base, outs@.take(i as int)),
            decreases outs.len() - i,
        {
            proof {
                lemma_push_all_step(base, outs@, i as int);
            }
            let res = self.push_raw(u, outs[i]);
            if res.is_err() {
                proof {
                    lemma_push_all_full(base, outs@, i as int);
                    assert(base.len() + i >= STACK_CAPACITY);
                    assert(res == Err::<(), UxnError>(UxnError::StackOverflow));
                    assert(this_stack(u, self.ret) == push_all(base, outs@));
                }
                return res;
            }
            i = i + 1;
        }
        proof {
            lemma_push_all_full(base, outs@, i as int);
        }
        Ok(())
    }
}

} // verus!
