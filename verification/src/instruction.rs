use vstd::prelude::*;

use crate::uxninterface::{model_of, Uxn, UxnError, UxnModel, UxnState, UxnWithDevices};

verus! {

/// An instruction of the machine, executed against a machine with devices.
pub trait Instruction {
    /// What running the instruction does: whether a machine can go from `pre` to `post` with
    /// the result `r`. An instruction set that states nothing of its instructions leaves every
    /// outcome possible.
    open spec fn effect(&self, pre: UxnModel, post: UxnModel, r: Result<(), UxnError>) -> bool {
        true
    }

    fn execute<U: UxnWithDevices>(&self, uxn: &mut U) -> (r: Result<(), UxnError>)
        requires
            old(uxn).ok(),
        ensures
            final(uxn).ok(),
            self.effect(model_of(old(uxn)), model_of(final(uxn)), r),
    ;
}

/// Decodes instruction bytes.
pub trait InstructionFactory {
    type Instr: Instruction;

    /// What the instruction that `byte` stands for does (see `Instruction::effect`). A decoder
    /// that states nothing of its instructions leaves every outcome possible.
    open spec fn byte_effect(&self, byte: u8, pre: UxnModel, post: UxnModel, r: Result<(), UxnError>) -> bool {
        true
    }

    fn from_byte(&self, byte: u8) -> (o: Self::Instr)
        ensures
            forall|pre: UxnModel, post: UxnModel, r: Result<(), UxnError>|
                #[trigger] o.effect(pre, post, r) ==> self.byte_effect(byte, pre, post, r),
    ;
}

} // verus!
