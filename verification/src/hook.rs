use crate::dedup::{VisitedCode, VisitedSlots};
use crate::frame::{
    is_external_call, is_storage_read, Frame, FrameView, CALL, CALLCODE, DELEGATECALL, SLOAD,
    STATICCALL,
};
use crate::middleware::Lookup;
use crate::throttle::{CallSiteCounters, Throttle};
use crate::word::{Address, Word};
use vstd::prelude::*;

verus! {

/// The default saturation threshold: a call site is skipped once its count exceeds it.
pub const UNBOUND_THRESHOLD: u32 = 5;

/// The interpreter is not in a state that the instruction at hand can execute in.
#[derive(Clone, Copy, Debug, PartialEq, Eq, Structural)]
pub enum StepError {
    /// The operand stack lacks the entry that the instruction reads.
    StackUnderflow,
}

/// The mathematical state of the hook.
pub struct State {
    /// The (address, slot) pairs already resolved.
    pub slots: Set<(Address, Word)>,
    /// The addresses whose bytecode is already resolved.
    pub code: Set<Address>,
    /// The call-site counters.
    pub throttle: Throttle,
}

impl State {
    /// The state of a hook that has seen no instruction.
    pub open spec fn fresh(threshold: nat) -> State {
        State { slots: Set::empty(), code: Set::empty(), throttle: Throttle::fresh(threshold) }
    }

    /// A storage read of `slot` by `address`: the first one marks the pair and asks for its
    /// value, a later one does nothing.
    pub open spec fn read_slot(self, address: Address, slot: Word) -> (State, Lookup) {
        if self.slots.contains((address, slot)) {
            (self, Lookup::Nothing)
        } else {
            (
                State {
                    slots: self.slots.insert((address, slot)),
                    code: self.code,
                    throttle: self.throttle,
                },
                Lookup::Slot(address, slot),
            )
        }
    }

    /// A call that targets `callee`: the first one marks the address and asks for its
    /// bytecode, a later one does nothing.
    pub open spec fn load_code(self, callee: Address) -> (State, Lookup) {
        if self.code.contains(callee) {
            (self, Lookup::Nothing)
        } else {
            (
                State {
                    slots: self.slots,
                    code: self.code.insert(callee),
                    throttle: self.throttle,
                },
                Lookup::Code(callee),
            )
        }
    }

    /// The state with one more observation of the call site of `frame`.
    pub open spec fn count_call(self, frame: FrameView) -> State {
        State {
            slots: self.slots,
            code: self.code,
            throttle: self.throttle.observe(frame.site()),
        }
    }

    /// One instruction: the state after it, and the lookup it asks for or the error it ends in.
    ///
    /// A storage read takes the slot from the top of the stack. An external call at a
    /// saturated site is skipped without a look at the stack; at any other site it is counted
    /// first, then the callee is taken from the entry below the top of the stack. Any other
    /// instruction passes.
    pub open spec fn step(self, frame: FrameView) -> (State, Result<Lookup, StepError>) {
        if is_storage_read(frame.opcode) {
            match frame.peek(0) {
                Some(slot) => {
                    let (next, lookup) = self.read_slot(frame.address, slot);
                    (next, Ok(lookup))
                },
                None => (self, Err(StepError::StackUnderflow)),
            }
        } else if is_external_call(frame.opcode) {
            if self.throttle.saturated(frame.site()) {
                (self, Ok(Lookup::Nothing))
            } else {
                let counted = self.count_call(frame);
                match frame.peek(1) {
                    Some(raw) => {
                        let (next, lookup) = counted.load_code(raw.address());
                        (next, Ok(lookup))
                    },
                    None => (counted, Err(StepError::StackUnderflow)),
                }
            }
        } else {
            (self, Ok(Lookup::Nothing))
        }
    }
}

/// The hook that hydrates chain state lazily: it remembers which storage slots and which
/// contracts have been resolved, and how often each call site has been observed.
///
/// The hook also keeps the handle to the endpoint, of whatever type `E` the caller has. It
/// never calls the endpoint itself: [`OnChain::on_step`] says what is to be fetched, and the
/// caller fetches it through `endpoint`.
#[derive(Clone, Debug)]
pub struct OnChain<E> {
    /// The storage locations resolved so far.
    pub loaded_data: VisitedSlots,
    /// The contracts whose bytecode has been resolved so far.
    pub loaded_code: VisitedCode,
    /// The call-site counters.
    pub calls: CallSiteCounters,
    /// The handle to the endpoint.
    pub endpoint: E,
}

impl<E> View for OnChain<E> {
    type V = State;

    open spec fn view(&self) -> State {
        State { slots: self.loaded_data@, code: self.loaded_code@, throttle: self.calls@ }
    }
}

impl<E> OnChain<E> {
    /// A hook that has seen no instruction, with the default saturation threshold.
    pub fn new(endpoint: E) -> (hook: OnChain<E>)
        ensures
            hook@ == State::fresh(UNBOUND_THRESHOLD as nat),
            hook.endpoint == endpoint,
    {
        OnChain::with_threshold(endpoint, UNBOUND_THRESHOLD)
    }

    /// A hook that has seen no instruction, with the given saturation threshold.
    pub fn with_threshold(endpoint: E, threshold: u32) -> (hook: OnChain<E>)
        ensures
            hook@ == State::fresh(threshold as nat),
            hook.endpoint == endpoint,
    {
        OnChain {
            loaded_data: VisitedSlots::new(),
            loaded_code: VisitedCode::new(),
            calls: CallSiteCounters::new(threshold),
            endpoint,
        }
    }

    /// Observes the instruction that is about to execute, updates the caches and counters, and
    /// returns what is to be fetched from the endpoint, if anything. It fails where the stack
    /// lacks the entry that the instruction reads.
    pub fn on_step(&mut self, frame: &Frame) -> (outcome: Result<Lookup, StepError>)
        ensures
            final(self)@ == old(self)@.step(frame@).0,
            outcome == old(self)@.step(frame@).1,
            final(self).endpoint == old(self).endpoint,
    {
        let opcode = frame.opcode;
        if opcode == SLOAD {
            match frame.peek(0) {
                Some(slot) => {
                    if self.loaded_data.visit(frame.address, slot) {
                        Ok(Lookup::Slot(frame.address, slot))
                    } else {
                        assert(self.loaded_data@ =~= old(self).loaded_data@);
                        Ok(Lookup::Nothing)
                    }
                },
                None => Err(StepError::StackUnderflow),
            }
        } else if opcode == CALL || opcode == CALLCODE || opcode == DELEGATECALL || opcode
            == STATICCALL {
            if !self.calls.observe(frame.site()) {
                return Ok(Lookup::Nothing);
            }
            match frame.peek(1) {
                Some(raw) => {
                    let callee = raw.to_address();
                    if self.loaded_code.visit(callee) {
                        Ok(Lookup::Code(callee))
                    } else {
                        assert(self.loaded_code@ =~= old(self).loaded_code@);
                        Ok(Lookup::Nothing)
                    }
                },
                None => Err(StepError::StackUnderflow),
            }
        } else {
            Ok(Lookup::Nothing)
        }
    }
}

} // verus!
