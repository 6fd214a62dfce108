use crate::throttle::CallSite;
use crate::word::{Address, Word};
use vstd::prelude::*;

verus! {

/// The opcode of the storage-read instruction.
pub const SLOAD: u8 = 0x54;

/// The opcode of the value-transferring call.
pub const CALL: u8 = 0xf1;

/// The opcode of the call that runs foreign code on the caller's storage.
pub const CALLCODE: u8 = 0xf2;

/// The opcode of the delegating call.
pub const DELEGATECALL: u8 = 0xf4;

/// The opcode of the read-only call.
pub const STATICCALL: u8 = 0xfa;

/// Whether the opcode reads a storage slot.
pub open spec fn is_storage_read(opcode: u8) -> bool {
    opcode == SLOAD
}

/// Whether the opcode is one of the four external-call instructions.
pub open spec fn is_external_call(opcode: u8) -> bool {
    opcode == CALL || opcode == CALLCODE || opcode == DELEGATECALL || opcode == STATICCALL
}

/// What the hook sees of the interpreter before one instruction executes: the opcode, its
/// program counter, the executing contract and the operand stack, whose top is its last entry.
#[derive(Clone, Debug, PartialEq, Eq)]
pub struct Frame {
    pub opcode: u8,
    pub pc: usize,
    pub address: Address,
    pub stack: Vec<Word>,
}

/// The mathematical value of a [`Frame`].
pub struct FrameView {
    pub opcode: u8,
    pub pc: usize,
    pub address: Address,
    pub stack: Seq<Word>,
}

impl View for Frame {
    type V = FrameView;

    open spec fn view(&self) -> FrameView {
        FrameView {
            opcode: self.opcode,
            pc: self.pc,
            address: self.address,
            stack: self.stack@,
        }
    }
}

impl FrameView {
    /// The stack entry `depth` places below the top, if the stack is that deep.
    pub open spec fn peek(self, depth: nat) -> Option<Word> {
        if depth < self.stack.len() {
            Some(self.stack[self.stack.len() - 1 - depth])
        } else {
            None
        }
    }

    /// The call site of the instruction.
    pub open spec fn site(self) -> CallSite {
        CallSite { contract: self.address, pc: self.pc }
    }
}

impl Frame {
    /// Reads the stack entry `depth` places below the top without removing it; `None` when
    /// the stack holds no such entry.
    pub fn peek(&self, depth: usize) -> (entry: Option<Word>)
        ensures
            entry == self@.peek(depth as nat),
    {
        if depth < self.stack.len() {
            Some(self.stack[self.stack.len() - 1 - depth])
        } else {
            None
        }
    }

    /// The call site of the instruction.
    pub fn site(&self) -> (site: CallSite)
        ensures
            site == self@.site(),
    {
        CallSite { contract: self.address, pc: self.pc }
    }
}

} // verus!
