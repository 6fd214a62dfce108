use crate::frame::{is_external_call, is_storage_read, FrameView};
use crate::hook::{State, StepError, UNBOUND_THRESHOLD};
use crate::middleware::{Lookup, OpView, ReplyView};
use crate::throttle::{CallSite, Throttle};
use crate::word::{Address, Word};
use vstd::prelude::*;

verus! {

impl FrameView {
    /// The instruction is a storage read of `slot` by `address`.
    pub open spec fn reads(self, address: Address, slot: Word) -> bool {
        is_storage_read(self.opcode) && self.address == address && self.peek(0) == Some(slot)
    }

    /// The instruction is an external call that stands at `site`.
    pub open spec fn calls_from(self, site: CallSite) -> bool {
        is_external_call(self.opcode) && self.site() == site
    }
}

impl Throttle {
    /// The count of `site` after `n` further observations of it: it rises by one with each
    /// observation until it exceeds the threshold, and stays where it is from then on.
    pub open spec fn count_after(self, site: CallSite, n: nat) -> nat {
        if self.count(site) > self.threshold {
            self.count(site)
        } else if self.count(site) + n <= self.threshold {
            self.count(site) + n
        } else {
            self.threshold + 1
        }
    }
}

/// How many of the first `n` instructions of `trace` are external calls at `site`.
pub open spec fn observations(trace: Seq<FrameView>, site: CallSite, n: nat) -> nat
    decreases n,
{
    if n == 0 {
        0
    } else {
        observations(trace, site, (n - 1) as nat) + if trace[n - 1].calls_from(site) {
            1nat
        } else {
            0nat
        }
    }
}

impl State {
    /// The state before instruction `i` of `trace`, that is after its first `i` instructions.
    pub open spec fn before(self, trace: Seq<FrameView>, i: nat) -> State
        decreases i,
    {
        if i == 0 {
            self
        } else {
            self.before(trace, (i - 1) as nat).step(trace[i - 1]).0
        }
    }

    /// What instruction `i` of `trace` ends in.
    pub open spec fn outcome_at(self, trace: Seq<FrameView>, i: nat) -> Result<
        Lookup,
        StepError,
    > {
        self.before(trace, i).step(trace[i as int]).1
    }

    /// The updates that instruction `i` of `trace` hands to the interpreter when the endpoint
    /// answers its lookup with `reply`.
    pub open spec fn ops_at(self, trace: Seq<FrameView>, i: nat, reply: ReplyView) -> Seq<
        OpView,
    > {
        match self.outcome_at(trace, i) {
            Ok(lookup) => lookup.resolved(reply),
            Err(_) => Seq::empty(),
        }
    }

    /// Instruction `i` of `trace` reads `slot` at `address`, no earlier instruction did, and
    /// the pair was not visited at the start.
    pub open spec fn first_read_at(
        self,
        trace: Seq<FrameView>,
        i: nat,
        address: Address,
        slot: Word,
    ) -> bool {
        &&& trace[i as int].reads(address, slot)
        &&& !self.slots.contains((address, slot))
        &&& forall|j: nat| j < i ==> !#[trigger] trace[j as int].reads(address, slot)
    }

    /// Instruction `i` of `trace` is an external call at a site that is not saturated by then,
    /// and the stack entry that it reads names `callee`.
    pub open spec fn targets_at(self, trace: Seq<FrameView>, i: nat, callee: Address) -> bool {
        let frame = trace[i as int];
        &&& is_external_call(frame.opcode)
        &&& !self.before(trace, i).throttle.saturated(frame.site())
        &&& frame.peek(1) is Some
        &&& frame.peek(1)->0.address() == callee
    }

    /// Instruction `i` of `trace` targets `callee`, no earlier instruction did, and the
    /// contract was not visited at the start.
    pub open spec fn first_target_at(self, trace: Seq<FrameView>, i: nat, callee: Address) -> bool {
        &&& self.targets_at(trace, i, callee)
        &&& !self.code.contains(callee)
        &&& forall|j: nat| j < i ==> !#[trigger] self.targets_at(trace, j, callee)
    }

    /// How many of the first `n` instructions of `trace` ask for the value of `slot` at
    /// `address`.
    pub open spec fn slot_lookups(
        self,
        trace: Seq<FrameView>,
        n: nat,
        address: Address,
        slot: Word,
    ) -> nat
        decreases n,
    {
        if n == 0 {
            0
        } else {
            self.slot_lookups(trace, (n - 1) as nat, address, slot) + if self.outcome_at(
                trace,
                (n - 1) as nat,
            ) == Ok::<Lookup, StepError>(Lookup::Slot(address, slot)) {
                1nat
            } else {
                0nat
            }
        }
    }

    /// How many of the first `n` instructions of `trace` ask for the bytecode of `callee`.
    pub open spec fn code_lookups(self, trace: Seq<FrameView>, n: nat, callee: Address) -> nat
        decreases n,
    {
        if n == 0 {
            0
        } else {
            self.code_lookups(trace, (n - 1) as nat, callee) + if self.outcome_at(
                trace,
                (n - 1) as nat,
            ) == Ok::<Lookup, StepError>(Lookup::Code(callee)) {
                1nat
            } else {
                0nat
            }
        }
    }

    /// What a call that is counted ends in: an error on a stack of fewer than two entries, a
    /// lookup of the callee's bytecode on a cache miss, nothing on a hit.
    pub open spec fn processed(self, frame: FrameView) -> Result<Lookup, StepError> {
        match frame.peek(1) {
            None => Err(StepError::StackUnderflow),
            Some(raw) => Ok(
                if self.code.contains(raw.address()) {
                    Lookup::Nothing
                } else {
                    Lookup::Code(raw.address())
                },
            ),
        }
    }
}

/// A pair is marked as visited exactly if it was so at the start or an earlier instruction
/// read it.
proof fn lemma_slots_before(
    s: State,
    trace: Seq<FrameView>,
    i: nat,
    address: Address,
    slot: Word,
)
    ensures
        s.before(trace, i).slots.contains((address, slot)) <==> s.slots.contains((address, slot))
            || exists|j: nat| j < i && #[trigger] trace[j as int].reads(address, slot),
    decreases i,
{
    if i > 0 {
        let k = (i - 1) as nat;
        lemma_slots_before(s, trace, k, address, slot);
        let prior = s.before(trace, k);
        let frame = trace[k as int];
        assert(prior.step(frame).0.slots.contains((address, slot)) <==> prior.slots.contains(
            (address, slot),
        ) || frame.reads(address, slot));
        if frame.reads(address, slot) {
            assert(k < i && trace[k as int].reads(address, slot));
        }
    }
}

/// A contract is marked as visited exactly if it was so at the start or an earlier
/// instruction targeted it from a site that was not saturated.
proof fn lemma_code_before(s: State, trace: Seq<FrameView>, i: nat, callee: Address)
    ensures
        s.before(trace, i).code.contains(callee) <==> s.code.contains(callee) || exists|j: nat|
            j < i && #[trigger] s.targets_at(trace, j, callee),
    decreases i,
{
    if i > 0 {
        let k = (i - 1) as nat;
        lemma_code_before(s, trace, k, callee);
        let prior = s.before(trace, k);
        let frame = trace[k as int];
        assert(prior.step(frame).0.code.contains(callee) <==> prior.code.contains(callee)
            || s.targets_at(trace, k, callee));
        if s.targets_at(trace, k, callee) {
            assert(k < i && s.targets_at(trace, k, callee));
        }
    }
}

/// A storage slot is hydrated by its first read and by no other instruction.
///
/// Whatever a run of instructions holds, instruction `i` asks for the value of `slot` at
/// `address` exactly if it is the first read of the pair and the pair was not visited at the
/// start. That read yields one update of the slot, which carries the value that the endpoint
/// returned (zero where it returned none); every other read of the pair yields no update.
pub proof fn law_slot_dedup(
    s: State,
    trace: Seq<FrameView>,
    i: nat,
    address: Address,
    slot: Word,
    reply: ReplyView,
)
    requires
        i < trace.len(),
    ensures
        s.outcome_at(trace, i) == Ok::<Lookup, StepError>(Lookup::Slot(address, slot))
            <==> s.first_read_at(trace, i, address, slot),
        s.first_read_at(trace, i, address, slot) ==> s.ops_at(trace, i, reply) == seq![
            OpView::UpdateSlot(address, slot, reply.slot_value()),
        ],
        trace[i as int].reads(address, slot) && !s.first_read_at(trace, i, address, slot) ==> {
            &&& s.outcome_at(trace, i) == Ok::<Lookup, StepError>(Lookup::Nothing)
            &&& s.ops_at(trace, i, reply) == Seq::<OpView>::empty()
        },
{
    lemma_slots_before(s, trace, i, address, slot);
}

/// Over any run of instructions the value of a storage slot is asked for once, if the pair
/// was not visited at the start and some instruction reads it, and never otherwise.
pub proof fn law_slot_fetched_once(
    s: State,
    trace: Seq<FrameView>,
    n: nat,
    address: Address,
    slot: Word,
)
    requires
        n <= trace.len(),
    ensures
        s.slot_lookups(trace, n, address, slot) == if !s.slots.contains((address, slot)) && (
        exists|j: nat| j < n && #[trigger] trace[j as int].reads(address, slot)) {
            1nat
        } else {
            0nat
        },
    decreases n,
{
    if n > 0 {
        let k = (n - 1) as nat;
        law_slot_fetched_once(s, trace, k, address, slot);
        law_slot_dedup(s, trace, k, address, slot, ReplyView::Failed);
        if trace[k as int].reads(address, slot) {
            assert(k < n && trace[k as int].reads(address, slot));
        }
    }
}

/// The bytecode of a contract is hydrated by the first call that resolves it and by no other
/// instruction.
///
/// Whatever a run of instructions holds, instruction `i` asks for the bytecode of `callee`
/// exactly if it is the first call that targets `callee` from a site that is not saturated,
/// and the contract was not visited at the start. That call yields one update of the code,
/// which carries the bytecode that the endpoint returned (none where it returned none); every
/// other such call yields no update.
pub proof fn law_code_dedup(
    s: State,
    trace: Seq<FrameView>,
    i: nat,
    callee: Address,
    reply: ReplyView,
)
    requires
        i < trace.len(),
    ensures
        s.outcome_at(trace, i) == Ok::<Lookup, StepError>(Lookup::Code(callee))
            <==> s.first_target_at(trace, i, callee),
        s.first_target_at(trace, i, callee) ==> s.ops_at(trace, i, reply) == seq![
            OpView::UpdateCode(callee, reply.code()),
        ],
        s.targets_at(trace, i, callee) && !s.first_target_at(trace, i, callee) ==> {
            &&& s.outcome_at(trace, i) == Ok::<Lookup, StepError>(Lookup::Nothing)
            &&& s.ops_at(trace, i, reply) == Seq::<OpView>::empty()
        },
{
    lemma_code_before(s, trace, i, callee);
    let prior = s.before(trace, i);
    assert(prior.count_call(trace[i as int]).code == prior.code);
}

/// Over any run of instructions the bytecode of a contract is asked for once, if the
/// contract was not visited at the start and some call targets it from a site that is not
/// saturated, and never otherwise.
pub proof fn law_code_fetched_once(s: State, trace: Seq<FrameView>, n: nat, callee: Address)
    requires
        n <= trace.len(),
    ensures
        s.code_lookups(trace, n, callee) == if !s.code.contains(callee) && (exists|j: nat|
            j < n && #[trigger] s.targets_at(trace, j, callee)) {
            1nat
        } else {
            0nat
        },
    decreases n,
{
    if n > 0 {
        let k = (n - 1) as nat;
        law_code_fetched_once(s, trace, k, callee);
        law_code_dedup(s, trace, k, callee, ReplyView::Failed);
        if s.targets_at(trace, k, callee) {
            assert(k < n && s.targets_at(trace, k, callee));
        }
    }
}

/// The caches only grow and the counters only rise: what one instruction finds visited or
/// counted, every later instruction finds so too.
pub proof fn law_caches_only_grow(s: State, trace: Seq<FrameView>, i: nat, j: nat)
    requires
        i <= j,
    ensures
        s.before(trace, i).slots.subset_of(s.before(trace, j).slots),
        s.before(trace, i).code.subset_of(s.before(trace, j).code),
        forall|site: CallSite|
            (#[trigger] s.before(trace, i).throttle.count(site)) <= s.before(
                trace,
                j,
            ).throttle.count(site),
        forall|site: CallSite|
            (#[trigger] s.before(trace, i).throttle.saturated(site)) ==> s.before(
                trace,
                j,
            ).throttle.saturated(site),
        s.before(trace, j).throttle.threshold == s.before(trace, i).throttle.threshold,
    decreases j,
{
    if i < j {
        law_caches_only_grow(s, trace, i, (j - 1) as nat);
    }
}

/// Call sites are counted apart: an instruction leaves the counter of every call site but
/// its own as it is. The threshold never changes.
pub proof fn law_sites_independent(s: State, frame: FrameView, other: CallSite)
    requires
        !frame.calls_from(other),
    ensures
        s.step(frame).0.throttle.counts.contains_key(other) == s.throttle.counts.contains_key(
            other,
        ),
        s.step(frame).0.throttle.count(other) == s.throttle.count(other),
        s.step(frame).0.throttle.saturated(other) == s.throttle.saturated(other),
        s.step(frame).0.throttle.threshold == s.throttle.threshold,
{
}

/// The counter of a site after any run of instructions is fixed by its count at the start and
/// by the number of external calls at that very site: calls at other sites and other
/// instructions do not bear on it.
pub proof fn law_count_before(s: State, trace: Seq<FrameView>, i: nat, site: CallSite)
    ensures
        s.before(trace, i).throttle.threshold == s.throttle.threshold,
        s.before(trace, i).throttle.count(site) == s.throttle.count_after(
            site,
            observations(trace, site, i),
        ),
    decreases i,
{
    if i > 0 {
        let k = (i - 1) as nat;
        law_count_before(s, trace, k, site);
        let prior = s.before(trace, k);
        let frame = trace[k as int];
        if !frame.calls_from(site) {
            law_sites_independent(prior, frame, site);
        }
    }
}

/// Saturating one call site leaves the others alone: where no instruction of a run is an
/// external call at `site`, the run leaves the counter of `site` as it is, however many
/// other sites it saturates.
pub proof fn law_untouched_site(s: State, trace: Seq<FrameView>, n: nat, site: CallSite)
    requires
        forall|j: nat| j < n ==> !#[trigger] trace[j as int].calls_from(site),
    ensures
        s.before(trace, n).throttle.count(site) == s.throttle.count(site),
        s.before(trace, n).throttle.saturated(site) == s.throttle.saturated(site),
    decreases n,
{
    if n > 0 {
        let k = (n - 1) as nat;
        law_untouched_site(s, trace, k, site);
        assert(!trace[k as int].calls_from(site));
        law_sites_independent(s.before(trace, k), trace[k as int], site);
    }
}

/// A call site is processed until its count exceeds the threshold, and never again.
///
/// Let instruction `i` be an external call at `site`. While the count of the site at the
/// start plus the number of earlier calls at the site does not exceed the threshold, the
/// call is counted and processed. From then on the call yields no update and changes
/// nothing, whatever the stack holds.
pub proof fn law_call_site_saturation(
    s: State,
    trace: Seq<FrameView>,
    i: nat,
    site: CallSite,
    reply: ReplyView,
)
    requires
        i < trace.len(),
        trace[i as int].calls_from(site),
    ensures
        s.before(trace, i).throttle.saturated(site) <==> s.throttle.count(site) + observations(
            trace,
            site,
            i,
        ) > s.throttle.threshold,
        s.before(trace, i).throttle.saturated(site) ==> {
            &&& s.outcome_at(trace, i) == Ok::<Lookup, StepError>(Lookup::Nothing)
            &&& s.ops_at(trace, i, reply) == Seq::<OpView>::empty()
            &&& s.before(trace, i + 1) == s.before(trace, i)
        },
        !s.before(trace, i).throttle.saturated(site) ==> {
            &&& s.outcome_at(trace, i) == s.before(trace, i).processed(trace[i as int])
            &&& s.before(trace, i + 1).throttle.count(site) == s.before(trace, i).throttle.count(
                site,
            ) + 1
        },
{
    law_count_before(s, trace, i, site);
    let prior = s.before(trace, i);
    assert(s.before(trace, i + 1) == prior.step(trace[i as int]).0);
    assert(prior.count_call(trace[i as int]).code == prior.code);
}

/// For a hook with the default threshold that starts with no site seen, the first six calls
/// at a site are counted and processed; the seventh and every later one yields no update and
/// changes nothing, whatever the stack holds.
pub proof fn law_default_saturation(
    trace: Seq<FrameView>,
    i: nat,
    site: CallSite,
    reply: ReplyView,
)
    requires
        i < trace.len(),
        trace[i as int].calls_from(site),
    ensures
        ({
            let s = State::fresh(UNBOUND_THRESHOLD as nat);
            if observations(trace, site, i) < 6 {
                &&& !s.before(trace, i).throttle.saturated(site)
                &&& s.outcome_at(trace, i) == s.before(trace, i).processed(trace[i as int])
            } else {
                &&& s.before(trace, i).throttle.saturated(site)
                &&& s.outcome_at(trace, i) == Ok::<Lookup, StepError>(Lookup::Nothing)
                &&& s.ops_at(trace, i, reply) == Seq::<OpView>::empty()
                &&& s.before(trace, i + 1) == s.before(trace, i)
            }
        }),
{
    law_call_site_saturation(State::fresh(UNBOUND_THRESHOLD as nat), trace, i, site, reply);
}

} // verus!
