use onchain::frame::{CALL, CALLCODE, DELEGATECALL, SLOAD, STATICCALL};
use onchain::hook::UNBOUND_THRESHOLD;
use onchain::{Address, CallSite, Frame, Lookup, MiddlewareOp, OnChain, Reply, StepError, Word};
use std::collections::HashMap;

fn addr(n: u128) -> Address {
    Address { hi: 0, lo: n }
}

fn word(n: u128) -> Word {
    Word { hi: 0, lo: n }
}

/// A stack whose second entry from the top names `callee`.
fn call_stack(callee: Address) -> Vec<Word> {
    vec![word(0), Word { hi: callee.hi as u128, lo: callee.lo }, word(21_000)]
}

fn sload(address: Address, slot: Word) -> Frame {
    Frame { opcode: SLOAD, pc: 0, address, stack: vec![slot] }
}

fn call(address: Address, pc: usize, callee: Address) -> Frame {
    Frame { opcode: CALL, pc, address, stack: call_stack(callee) }
}

/// An endpoint that knows some slots and some code, and records what it is asked.
struct Chain {
    slots: HashMap<(Address, Word), Word>,
    code: HashMap<Address, Vec<u8>>,
    asked: Vec<Lookup>,
}

impl Chain {
    fn new() -> Chain {
        Chain { slots: HashMap::new(), code: HashMap::new(), asked: Vec::new() }
    }

    fn answer(&mut self, lookup: Lookup) -> Reply {
        self.asked.push(lookup);
        match lookup {
            Lookup::Nothing => Reply::Failed,
            Lookup::Slot(address, slot) => match self.slots.get(&(address, slot)) {
                Some(value) => Reply::Slot(*value),
                None => Reply::Failed,
            },
            Lookup::Code(address) => match self.code.get(&address) {
                Some(code) => Reply::Code(code.clone()),
                None => Reply::Failed,
            },
        }
    }
}

/// One instruction as the interpreter's driver runs it: observe, fetch what is asked for,
/// resolve.
fn drive(hook: &mut OnChain<Chain>, frame: &Frame) -> Vec<MiddlewareOp> {
    let lookup = hook.on_step(frame).unwrap();
    let reply = match lookup {
        Lookup::Nothing => Reply::Failed,
        _ => hook.endpoint.answer(lookup),
    };
    lookup.resolve(reply)
}

#[test]
fn first_slot_read_is_hydrated_once() {
    let a = addr(0xA);
    let v = word(0xdead_beef);
    let mut chain = Chain::new();
    chain.slots.insert((a, word(7)), v);
    let mut hook = OnChain::new(chain);
    assert_eq!(drive(&mut hook, &sload(a, word(7))), vec![MiddlewareOp::UpdateSlot(a, word(7), v)]);
    assert_eq!(drive(&mut hook, &sload(a, word(7))), vec![]);
    assert_eq!(hook.endpoint.asked, vec![Lookup::Slot(a, word(7))]);
}

#[test]
fn one_site_resolves_two_callees() {
    let (a, b, c) = (addr(0xA), addr(0xB), addr(0xC));
    let mut chain = Chain::new();
    chain.code.insert(b, vec![0x60, 0x00]);
    chain.code.insert(c, vec![0xfe]);
    let mut hook = OnChain::new(chain);
    assert_eq!(
        drive(&mut hook, &call(a, 100, b)),
        vec![MiddlewareOp::UpdateCode(b, vec![0x60, 0x00])]
    );
    assert_eq!(drive(&mut hook, &call(a, 100, c)), vec![MiddlewareOp::UpdateCode(c, vec![0xfe])]);
    assert_eq!(hook.endpoint.asked, vec![Lookup::Code(b), Lookup::Code(c)]);
}

#[test]
fn seventh_call_from_one_site_is_skipped() {
    let a = addr(0xA);
    let mut chain = Chain::new();
    for k in 0..7u128 {
        chain.code.insert(addr(0x1000 + k), vec![k as u8]);
    }
    let mut hook = OnChain::new(chain);
    let mut produced = Vec::new();
    for k in 0..7u128 {
        produced.push(drive(&mut hook, &call(a, 200, addr(0x1000 + k))));
    }
    for k in 0..6u128 {
        assert_eq!(
            produced[k as usize],
            vec![MiddlewareOp::UpdateCode(addr(0x1000 + k), vec![k as u8])]
        );
    }
    assert_eq!(produced[6], vec![]);
    let total: usize = produced.iter().map(|ops| ops.len()).sum();
    assert_eq!(total, 6);
    assert_eq!(hook.endpoint.asked.len(), 6);
    assert!(!hook.loaded_code.contains(addr(0x1006)));
}

#[test]
fn endpoint_is_handed_back_untouched() {
    let mut hook = OnChain::new(vec![1u8, 2, 3]);
    assert_eq!(hook.endpoint, vec![1, 2, 3]);
    assert_eq!(hook.on_step(&sload(addr(1), word(1))), Ok(Lookup::Slot(addr(1), word(1))));
    assert_eq!(hook.on_step(&call(addr(1), 0, addr(2))), Ok(Lookup::Code(addr(2))));
    assert_eq!(hook.endpoint, vec![1, 2, 3]);
    let hook = OnChain::with_threshold("rpc", 9);
    assert_eq!(hook.endpoint, "rpc");
    assert_eq!(hook.calls.threshold(), 9);
}

#[test]
fn new_hook_has_seen_nothing() {
    let hook = OnChain::new(());
    assert!(!hook.loaded_data.contains(addr(1), word(1)));
    assert!(!hook.loaded_code.contains(addr(1)));
    assert_eq!(hook.calls.count(CallSite { contract: addr(1), pc: 0 }), None);
    assert_eq!(hook.calls.threshold(), 5);
    assert_eq!(UNBOUND_THRESHOLD, 5);
}

#[test]
fn slot_is_asked_for_on_first_read_only() {
    let (a, b) = (addr(0xA), addr(0xB));
    let mut hook = OnChain::new(());
    assert_eq!(hook.on_step(&sload(a, word(7))), Ok(Lookup::Slot(a, word(7))));
    assert!(hook.loaded_data.contains(a, word(7)));
    // Other slots, other contracts and other instructions in between do not bring it back.
    assert_eq!(hook.on_step(&sload(a, word(8))), Ok(Lookup::Slot(a, word(8))));
    assert_eq!(hook.on_step(&sload(b, word(7))), Ok(Lookup::Slot(b, word(7))));
    assert_eq!(hook.on_step(&call(a, 1, b)), Ok(Lookup::Code(b)));
    for _ in 0..20 {
        assert_eq!(hook.on_step(&sload(a, word(7))), Ok(Lookup::Nothing));
    }
    assert_eq!(hook.on_step(&sload(a, word(8))), Ok(Lookup::Nothing));
    assert_eq!(hook.on_step(&sload(b, word(7))), Ok(Lookup::Nothing));
}

#[test]
fn slot_key_takes_all_bits_of_address_and_slot() {
    let mut hook = OnChain::new(());
    let a = Address { hi: 0, lo: 1 };
    let a_high = Address { hi: 1, lo: 1 };
    let s = Word { hi: 0, lo: 1 };
    let s_high = Word { hi: 1, lo: 1 };
    assert_eq!(hook.on_step(&sload(a, s)), Ok(Lookup::Slot(a, s)));
    assert_eq!(hook.on_step(&sload(a_high, s)), Ok(Lookup::Slot(a_high, s)));
    assert_eq!(hook.on_step(&sload(a, s_high)), Ok(Lookup::Slot(a, s_high)));
    assert_eq!(hook.on_step(&sload(a_high, s_high)), Ok(Lookup::Slot(a_high, s_high)));
    assert_eq!(hook.on_step(&sload(a, s)), Ok(Lookup::Nothing));
    assert_eq!(hook.on_step(&sload(a_high, s_high)), Ok(Lookup::Nothing));
}

#[test]
fn slot_read_peeks_the_top_of_the_stack() {
    let a = addr(0xA);
    let mut hook = OnChain::new(());
    let frame = Frame { opcode: SLOAD, pc: 9, address: a, stack: vec![word(1), word(2), word(3)] };
    assert_eq!(hook.on_step(&frame), Ok(Lookup::Slot(a, word(3))));
    assert_eq!(frame.stack, vec![word(1), word(2), word(3)]);
    assert!(!hook.loaded_data.contains(a, word(1)));
    assert!(!hook.loaded_data.contains(a, word(2)));
}

#[test]
fn code_is_asked_for_on_first_resolution_only() {
    let (a, b, target) = (addr(0xA), addr(0xB), addr(0x7a6));
    let mut hook = OnChain::new(());
    assert_eq!(hook.on_step(&call(a, 10, target)), Ok(Lookup::Code(target)));
    assert!(hook.loaded_code.contains(target));
    // The same callee from the same site, another site and another contract.
    assert_eq!(hook.on_step(&call(a, 10, target)), Ok(Lookup::Nothing));
    assert_eq!(hook.on_step(&call(a, 11, target)), Ok(Lookup::Nothing));
    assert_eq!(hook.on_step(&call(b, 10, target)), Ok(Lookup::Nothing));
}

#[test]
fn call_reads_the_entry_below_the_top() {
    let a = addr(0xA);
    let mut hook = OnChain::new(());
    let frame = Frame { opcode: CALL, pc: 4, address: a, stack: vec![word(5), word(6), word(7)] };
    assert_eq!(hook.on_step(&frame), Ok(Lookup::Code(addr(6))));
    assert!(!hook.loaded_code.contains(addr(7)));
    assert!(!hook.loaded_code.contains(addr(5)));
}

#[test]
fn callee_is_the_low_160_bits_of_the_stack_entry() {
    let a = addr(0xA);
    let mut hook = OnChain::new(());
    let raw = Word { hi: 0xffff_ffff_ffff_ffff_ffff_ffff_1234_5678, lo: 0x9abc };
    let frame = Frame { opcode: STATICCALL, pc: 4, address: a, stack: vec![raw, word(0)] };
    let callee = Address { hi: 0x1234_5678, lo: 0x9abc };
    assert_eq!(hook.on_step(&frame), Ok(Lookup::Code(callee)));
    // A raw entry that differs in the dropped bits only names the same contract.
    let alias = Word { hi: 0x1234_5678, lo: 0x9abc };
    let frame = Frame { opcode: STATICCALL, pc: 5, address: a, stack: vec![alias, word(0)] };
    assert_eq!(hook.on_step(&frame), Ok(Lookup::Nothing));
}

#[test]
fn all_four_call_opcodes_are_handled() {
    let a = addr(0xA);
    let mut hook = OnChain::new(());
    let opcodes = [CALL, CALLCODE, DELEGATECALL, STATICCALL];
    assert_eq!(opcodes, [0xf1, 0xf2, 0xf4, 0xfa]);
    for (k, opcode) in opcodes.iter().enumerate() {
        let callee = addr(0x100 + k as u128);
        let frame = Frame { opcode: *opcode, pc: k, address: a, stack: call_stack(callee) };
        assert_eq!(hook.on_step(&frame), Ok(Lookup::Code(callee)));
        assert_eq!(hook.calls.count(CallSite { contract: a, pc: k }), Some(1));
    }
}

#[test]
fn other_opcodes_pass_without_effect() {
    let a = addr(0xA);
    let mut hook = OnChain::new(());
    for opcode in 0..=255u8 {
        if opcode == 0x54 || opcode == 0xf1 || opcode == 0xf2 || opcode == 0xf4 || opcode == 0xfa {
            continue;
        }
        // Neither a full stack nor an empty one matters.
        let full = Frame { opcode, pc: 3, address: a, stack: call_stack(addr(0xB)) };
        let empty = Frame { opcode, pc: 3, address: a, stack: vec![] };
        assert_eq!(hook.on_step(&full), Ok(Lookup::Nothing));
        assert_eq!(hook.on_step(&empty), Ok(Lookup::Nothing));
    }
    assert!(!hook.loaded_data.contains(a, word(21_000)));
    assert!(!hook.loaded_code.contains(addr(0xB)));
    assert_eq!(hook.calls.count(CallSite { contract: a, pc: 3 }), None);
}

#[test]
fn call_site_counts_to_six_and_freezes() {
    let a = addr(0xA);
    let site = CallSite { contract: a, pc: 200 };
    let mut hook = OnChain::new(());
    for k in 1..=6u64 {
        assert!(hook.on_step(&call(a, 200, addr(0xB))).is_ok());
        assert_eq!(hook.calls.count(site), Some(k));
    }
    for _ in 0..10 {
        assert_eq!(hook.on_step(&call(a, 200, addr(0x999))), Ok(Lookup::Nothing));
        assert_eq!(hook.calls.count(site), Some(6));
    }
    assert!(!hook.loaded_code.contains(addr(0x999)));
}

#[test]
fn saturated_site_does_not_read_the_stack() {
    let a = addr(0xA);
    let mut hook = OnChain::new(());
    let short = Frame { opcode: CALL, pc: 7, address: a, stack: vec![word(1)] };
    // Six observations are counted, though each of them fails on the short stack.
    for k in 1..=6u64 {
        assert_eq!(hook.on_step(&short), Err(StepError::StackUnderflow));
        assert_eq!(hook.calls.count(CallSite { contract: a, pc: 7 }), Some(k));
    }
    // From the seventh on the stack is not looked at any more.
    assert_eq!(hook.on_step(&short), Ok(Lookup::Nothing));
    let empty = Frame { opcode: CALL, pc: 7, address: a, stack: vec![] };
    assert_eq!(hook.on_step(&empty), Ok(Lookup::Nothing));
    assert_eq!(hook.on_step(&call(a, 7, addr(0x5eed))), Ok(Lookup::Nothing));
    assert!(!hook.loaded_code.contains(addr(0x5eed)));
}

#[test]
fn cache_hits_count_towards_saturation() {
    let (a, b) = (addr(0xA), addr(0xB));
    let mut hook = OnChain::new(());
    assert_eq!(hook.on_step(&call(a, 1, b)), Ok(Lookup::Code(b)));
    for _ in 0..5 {
        assert_eq!(hook.on_step(&call(a, 1, b)), Ok(Lookup::Nothing));
    }
    // The site is saturated now: a new callee is not resolved from it.
    assert_eq!(hook.on_step(&call(a, 1, addr(0xC))), Ok(Lookup::Nothing));
    assert!(!hook.loaded_code.contains(addr(0xC)));
}

#[test]
fn sites_keep_independent_counters() {
    let (a, b) = (addr(0xA), addr(0xB));
    let mut hook = OnChain::new(());
    for k in 0..8u128 {
        let _ = hook.on_step(&call(a, 200, addr(0x100 + k)));
    }
    assert_eq!(hook.calls.count(CallSite { contract: a, pc: 200 }), Some(6));
    // Another program counter in the same contract.
    assert_eq!(hook.calls.count(CallSite { contract: a, pc: 201 }), None);
    assert_eq!(hook.on_step(&call(a, 201, addr(0x200))), Ok(Lookup::Code(addr(0x200))));
    assert_eq!(hook.calls.count(CallSite { contract: a, pc: 201 }), Some(1));
    // The same program counter in another contract.
    assert_eq!(hook.on_step(&call(b, 200, addr(0x201))), Ok(Lookup::Code(addr(0x201))));
    assert_eq!(hook.calls.count(CallSite { contract: b, pc: 200 }), Some(1));
    // The saturated site stays saturated.
    assert_eq!(hook.on_step(&call(a, 200, addr(0x202))), Ok(Lookup::Nothing));
    assert_eq!(hook.calls.count(CallSite { contract: a, pc: 200 }), Some(6));
}

#[test]
fn storage_reads_are_not_throttled() {
    let a = addr(0xA);
    let mut hook = OnChain::new(());
    for k in 0..50u128 {
        assert_eq!(hook.on_step(&sload(a, word(k))), Ok(Lookup::Slot(a, word(k))));
    }
    assert_eq!(hook.calls.count(CallSite { contract: a, pc: 0 }), None);
}

#[test]
fn threshold_is_tunable() {
    let a = addr(0xA);
    let mut hook = OnChain::with_threshold((), 0);
    assert_eq!(hook.calls.threshold(), 0);
    assert_eq!(hook.on_step(&call(a, 1, addr(1))), Ok(Lookup::Code(addr(1))));
    assert_eq!(hook.on_step(&call(a, 1, addr(2))), Ok(Lookup::Nothing));
    assert!(!hook.loaded_code.contains(addr(2)));

    let mut hook = OnChain::with_threshold((), 2);
    for k in 0..3u128 {
        assert_eq!(hook.on_step(&call(a, 1, addr(k))), Ok(Lookup::Code(addr(k))));
    }
    assert_eq!(hook.on_step(&call(a, 1, addr(3))), Ok(Lookup::Nothing));
    assert_eq!(hook.calls.count(CallSite { contract: a, pc: 1 }), Some(3));
}

#[test]
fn storage_read_on_empty_stack_is_an_underflow() {
    let a = addr(0xA);
    let mut hook = OnChain::new(());
    let frame = Frame { opcode: SLOAD, pc: 0, address: a, stack: vec![] };
    assert_eq!(hook.on_step(&frame), Err(StepError::StackUnderflow));
    // Nothing was marked: a well-formed read is still the first one.
    assert_eq!(hook.on_step(&sload(a, word(0))), Ok(Lookup::Slot(a, word(0))));
}

#[test]
fn call_on_short_stack_is_an_underflow() {
    let a = addr(0xA);
    let mut hook = OnChain::new(());
    let empty = Frame { opcode: DELEGATECALL, pc: 0, address: a, stack: vec![] };
    let one = Frame { opcode: DELEGATECALL, pc: 1, address: a, stack: vec![word(0xB)] };
    assert_eq!(hook.on_step(&empty), Err(StepError::StackUnderflow));
    assert_eq!(hook.on_step(&one), Err(StepError::StackUnderflow));
    assert!(!hook.loaded_code.contains(addr(0xB)));
    // The observation was counted before the stack was read.
    assert_eq!(hook.calls.count(CallSite { contract: a, pc: 0 }), Some(1));
    assert_eq!(hook.calls.count(CallSite { contract: a, pc: 1 }), Some(1));
}

#[test]
fn failed_lookup_resolves_to_the_default_value() {
    let a = addr(0xA);
    assert_eq!(
        Lookup::Slot(a, word(7)).resolve(Reply::Failed),
        vec![MiddlewareOp::UpdateSlot(a, word(7), Word { hi: 0, lo: 0 })]
    );
    assert_eq!(
        Lookup::Code(a).resolve(Reply::Failed),
        vec![MiddlewareOp::UpdateCode(a, vec![])]
    );
}

#[test]
fn mismatched_reply_resolves_to_the_default_value() {
    let a = addr(0xA);
    assert_eq!(
        Lookup::Slot(a, word(7)).resolve(Reply::Code(vec![1, 2, 3])),
        vec![MiddlewareOp::UpdateSlot(a, word(7), Word { hi: 0, lo: 0 })]
    );
    assert_eq!(
        Lookup::Code(a).resolve(Reply::Slot(word(9))),
        vec![MiddlewareOp::UpdateCode(a, vec![])]
    );
}

#[test]
fn nothing_resolves_to_no_update() {
    assert_eq!(Lookup::Nothing.resolve(Reply::Failed), vec![]);
    assert_eq!(Lookup::Nothing.resolve(Reply::Slot(word(1))), vec![]);
    assert_eq!(Lookup::Nothing.resolve(Reply::Code(vec![1])), vec![]);
}

#[test]
fn resolve_carries_the_fetched_value() {
    let a = Address { hi: 0xdead_beef, lo: u128::MAX };
    let slot = Word { hi: u128::MAX, lo: 0 };
    let value = Word { hi: 1, lo: 2 };
    assert_eq!(
        Lookup::Slot(a, slot).resolve(Reply::Slot(value)),
        vec![MiddlewareOp::UpdateSlot(a, slot, value)]
    );
    let code: Vec<u8> = (0..=255u8).collect();
    assert_eq!(
        Lookup::Code(a).resolve(Reply::Code(code.clone())),
        vec![MiddlewareOp::UpdateCode(a, code)]
    );
}

#[test]
fn failed_fetch_is_not_retried() {
    let a = addr(0xA);
    let mut hook = OnChain::new(Chain::new());
    let ops = drive(&mut hook, &sload(a, word(7)));
    assert_eq!(ops, vec![MiddlewareOp::UpdateSlot(a, word(7), Word { hi: 0, lo: 0 })]);
    assert_eq!(drive(&mut hook, &sload(a, word(7))), vec![]);
    let ops = drive(&mut hook, &call(a, 1, addr(0xB)));
    assert_eq!(ops, vec![MiddlewareOp::UpdateCode(addr(0xB), vec![])]);
    assert_eq!(drive(&mut hook, &call(a, 2, addr(0xB))), vec![]);
    assert_eq!(hook.endpoint.asked, vec![Lookup::Slot(a, word(7)), Lookup::Code(addr(0xB))]);
}

#[test]
fn frame_peek_counts_from_the_top() {
    let frame = Frame { opcode: 0, pc: 0, address: addr(0), stack: vec![word(1), word(2), word(3)] };
    assert_eq!(frame.peek(0), Some(word(3)));
    assert_eq!(frame.peek(1), Some(word(2)));
    assert_eq!(frame.peek(2), Some(word(1)));
    assert_eq!(frame.peek(3), None);
    assert_eq!(frame.peek(usize::MAX), None);
    let empty = Frame { opcode: 0, pc: 0, address: addr(0), stack: vec![] };
    assert_eq!(empty.peek(0), None);
}

#[test]
fn frame_site_is_contract_and_program_counter() {
    let frame = Frame { opcode: CALL, pc: 77, address: addr(5), stack: vec![] };
    assert_eq!(frame.site(), CallSite { contract: addr(5), pc: 77 });
}
