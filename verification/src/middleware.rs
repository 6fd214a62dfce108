use crate::word::{Address, Word};
use vstd::prelude::*;

verus! {

/// A state update that the hook hands to the interpreter.
#[derive(Clone, Debug, PartialEq, Eq)]
pub enum MiddlewareOp {
    /// Write the value into the storage of the address at the slot.
    UpdateSlot(Address, Word, Word),
    /// Install the bytecode as the code of the address.
    UpdateCode(Address, Vec<u8>),
}

/// The mathematical value of a [`MiddlewareOp`].
pub enum OpView {
    UpdateSlot(Address, Word, Word),
    UpdateCode(Address, Seq<u8>),
}

impl View for MiddlewareOp {
    type V = OpView;

    open spec fn view(&self) -> OpView {
        match self {
            MiddlewareOp::UpdateSlot(address, slot, value) => OpView::UpdateSlot(
                *address,
                *slot,
                *value,
            ),
            MiddlewareOp::UpdateCode(address, code) => OpView::UpdateCode(*address, code@),
        }
    }
}

/// What the hook needs from the endpoint after one instruction.
#[derive(Clone, Copy, Debug, PartialEq, Eq, Structural)]
pub enum Lookup {
    /// Nothing is to be fetched.
    Nothing,
    /// The value stored by the address at the slot.
    Slot(Address, Word),
    /// The bytecode deployed at the address.
    Code(Address),
}

/// What the endpoint answered to a [`Lookup`].
#[derive(Clone, Debug, PartialEq, Eq)]
pub enum Reply {
    /// The endpoint gave no answer.
    Failed,
    /// The value of a storage slot.
    Slot(Word),
    /// The bytecode of a contract.
    Code(Vec<u8>),
}

/// The mathematical value of a [`Reply`].
pub enum ReplyView {
    Failed,
    Slot(Word),
    Code(Seq<u8>),
}

impl View for Reply {
    type V = ReplyView;

    open spec fn view(&self) -> ReplyView {
        match self {
            Reply::Failed => ReplyView::Failed,
            Reply::Slot(value) => ReplyView::Slot(*value),
            Reply::Code(code) => ReplyView::Code(code@),
        }
    }
}

impl ReplyView {
    /// The storage value that the reply carries; zero where it carries none.
    pub open spec fn slot_value(self) -> Word {
        match self {
            ReplyView::Slot(value) => value,
            _ => Word { hi: 0, lo: 0 },
        }
    }

    /// The bytecode that the reply carries; empty where it carries none.
    pub open spec fn code(self) -> Seq<u8> {
        match self {
            ReplyView::Code(code) => code,
            _ => Seq::empty(),
        }
    }
}

impl Lookup {
    /// The updates that a lookup and the endpoint's reply to it amount to: none where nothing
    /// was asked, else the one update that carries what was fetched, or the default value where
    /// the reply does not answer the lookup.
    pub open spec fn resolved(self, reply: ReplyView) -> Seq<OpView> {
        match self {
            Lookup::Nothing => Seq::empty(),
            Lookup::Slot(address, slot) => seq![
                OpView::UpdateSlot(address, slot, reply.slot_value()),
            ],
            Lookup::Code(address) => seq![OpView::UpdateCode(address, reply.code())],
        }
    }

    /// Turns the endpoint's reply into the updates for the interpreter. A failed lookup, or a
    /// reply that does not answer it, yields the default value: a zero word for a slot, empty
    /// bytecode for a contract.
    pub fn resolve(self, reply: Reply) -> (ops: Vec<MiddlewareOp>)
        ensures
            ops@.len() == self.resolved(reply@).len(),
            forall|i: int| 0 <= i < ops@.len() ==> (#[trigger] ops@[i])@ == self.resolved(reply@)[i],
    {
        let mut ops: Vec<MiddlewareOp> = Vec::new();
        match self {
            Lookup::Nothing => {},
            Lookup::Slot(address, slot) => {
                let value = match reply {
                    Reply::Slot(value) => value,
                    _ => Word::zero(),
                };
                ops.push(MiddlewareOp::UpdateSlot(address, slot, value));
            },
            Lookup::Code(address) => {
                let code = match reply {
                    Reply::Code(code) => code,
                    _ => Vec::new(),
                };
                ops.push(MiddlewareOp::UpdateCode(address, code));
            },
        }
        ops
    }
}

} // verus!
