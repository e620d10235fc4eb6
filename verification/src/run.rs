//! The order in which a transaction goes through its phases.
//!
//! The handler's calls are made outside; what each gave comes back as an event, and decides
//! which call is next and what the recorder learns of it.
use crate::phase_timing::{record_error, Entry, Phase, RecorderSlot};
use vstd::prelude::*;

verus! {

/// A call of the transaction handler.
#[derive(Clone, Copy, Debug, PartialEq, Eq, Structural)]
pub enum RunCall {
    Validate,
    TxGas,
    PreExecution,
    Execution,
    RuntimeOog,
    Settlement,
    Result,
    /// Cleans up after a failure; what it returns is the result.
    CatchError,
    /// No call is left: the last one gave the result.
    Finished,
}

/// What a call of the handler gave.
#[derive(Clone, Copy, Debug, PartialEq, Eq, Structural)]
pub enum RunEvent {
    /// The call succeeded.
    Done,
    /// Pre-execution succeeded. It gave the refund for authorizations, or ran out of gas.
    PreExecuted(Option<u64>),
    /// Execution succeeded. It gave a result, or ran out of gas before the first frame.
    Executed(bool),
    /// The call failed.
    Failed,
}

/// How far a transaction got.
#[derive(Clone, Copy, Debug, PartialEq, Eq, Structural)]
pub struct RunState {
    /// The call that is next.
    pub call: RunCall,
    /// The refund for authorizations that settlement takes into account.
    pub refund: i64,
}

impl RunCall {
    /// The phase that the call makes up.
    pub open spec fn phase_of(self) -> Option<Phase> {
        match self {
            RunCall::Validate => Some(Phase::Validate),
            RunCall::TxGas => Some(Phase::TxGas),
            RunCall::PreExecution => Some(Phase::PreExecution),
            RunCall::Execution => Some(Phase::Execution),
            RunCall::RuntimeOog => Some(Phase::RuntimeOog),
            RunCall::Settlement => Some(Phase::Settlement),
            RunCall::Result => Some(Phase::Result),
            RunCall::CatchError => Some(Phase::ErrorCleanup),
            RunCall::Finished => None,
        }
    }

    /// Whether the call can give an event. The gas of a transaction is set up without
    /// failing, and what cleaning up returns is the result either way.
    pub open spec fn gives(self, event: RunEvent) -> bool {
        match self {
            RunCall::TxGas | RunCall::CatchError => event == RunEvent::Done,
            RunCall::PreExecution => event is PreExecuted || event == RunEvent::Failed,
            RunCall::Execution => event is Executed || event == RunEvent::Failed,
            RunCall::Finished => false,
            _ => event == RunEvent::Done || event == RunEvent::Failed,
        }
    }

    /// The call that follows.
    pub open spec fn next(self, event: RunEvent) -> RunCall {
        match (self, event) {
            (_, RunEvent::Failed) => RunCall::CatchError,
            (RunCall::Validate, _) => RunCall::TxGas,
            (RunCall::TxGas, _) => RunCall::PreExecution,
            (RunCall::PreExecution, RunEvent::PreExecuted(Some(_))) => RunCall::Execution,
            (RunCall::PreExecution, _) => RunCall::RuntimeOog,
            (RunCall::Execution, RunEvent::Executed(true)) => RunCall::Settlement,
            (RunCall::Execution, _) => RunCall::RuntimeOog,
            (RunCall::RuntimeOog, _) => RunCall::Settlement,
            (RunCall::Settlement, _) => RunCall::Result,
            _ => RunCall::Finished,
        }
    }

    /// How many calls can be left, this one included.
    pub open spec fn calls_left(self) -> nat {
        match self {
            RunCall::Validate => 8,
            RunCall::TxGas => 7,
            RunCall::PreExecution => 6,
            RunCall::Execution => 5,
            RunCall::RuntimeOog => 4,
            RunCall::Settlement => 3,
            RunCall::Result => 2,
            RunCall::CatchError => 1,
            RunCall::Finished => 0,
        }
    }

    /// The phase that the call makes up.
    pub fn phase(self) -> (r: Option<Phase>)
        ensures
            r == self.phase_of(),
    {
        match self {
            RunCall::Validate => Some(Phase::Validate),
            RunCall::TxGas => Some(Phase::TxGas),
            RunCall::PreExecution => Some(Phase::PreExecution),
            RunCall::Execution => Some(Phase::Execution),
            RunCall::RuntimeOog => Some(Phase::RuntimeOog),
            RunCall::Settlement => Some(Phase::Settlement),
            RunCall::Result => Some(Phase::Result),
            RunCall::CatchError => Some(Phase::ErrorCleanup),
            RunCall::Finished => None,
        }
    }
}

/// The refund as settlement takes it: the same 64 bits, read as a signed number.
pub open spec fn signed_refund(refund: u64) -> int {
    if refund <= i64::MAX {
        refund as int
    } else {
        refund - 0x1_0000_0000_0000_0000
    }
}

/// The refund once an event came.
pub open spec fn refund_after(state: RunState, event: RunEvent) -> int {
    match event {
        RunEvent::PreExecuted(Some(refund)) => signed_refund(refund),
        RunEvent::PreExecuted(None) => 0,
        _ => state.refund as int,
    }
}

impl RunState {
    /// The state before any call.
    pub fn start() -> (r: RunState)
        ensures
            r.call == RunCall::Validate,
            r.refund == 0,
    {
        RunState { call: RunCall::Validate, refund: 0 }
    }
}

/// Takes the event that the call of `state` gave. Where the call failed, its phase is
/// recorded as the one that failed.
pub fn run(state: RunState, event: RunEvent, slot: &mut RecorderSlot) -> (r: RunState)
    requires
        state.call.gives(event),
    ensures
        r.call == state.call.next(event),
        r.refund == refund_after(state, event),
        event != RunEvent::Failed ==> final(slot).recording() == old(slot).recording(),
        event == RunEvent::Failed ==> match old(slot).recording() {
            Some(before) => match before.current {
                Some(id) => final(slot).recording() matches Some(after)
                    && crate::phase_timing::changed_attempt(
                    before,
                    after,
                    id,
                    (crate::phase_timing::Attempt {
                        error_phase: state.call.phase_of(),
                        ..before.attempts()[id as int]
                    }),
                ),
                None => final(slot).recording() == old(slot).recording(),
            },
            None => final(slot).recording() is None,
        },
{
    let mut refund: i64 = state.refund;
    let call = match event {
        RunEvent::Failed => {
            if let Some(phase) = state.call.phase() {
                record_error(slot, phase);
            }
            RunCall::CatchError
        },
        RunEvent::PreExecuted(given) => match given {
            Some(amount) => {
                refund = if amount <= 0x7fff_ffff_ffff_ffff {
                    amount as i64
                } else {
                    -((u64::MAX - amount) as i64) - 1
                };
                RunCall::Execution
            },
            None => {
                refund = 0;
                RunCall::RuntimeOog
            },
        },
        RunEvent::Executed(with_result) => if with_result {
            RunCall::Settlement
        } else {
            RunCall::RuntimeOog
        },
        RunEvent::Done => match state.call {
            RunCall::Validate => RunCall::TxGas,
            RunCall::TxGas => RunCall::PreExecution,
            RunCall::RuntimeOog => RunCall::Settlement,
            RunCall::Settlement => RunCall::Result,
            _ => RunCall::Finished,
        },
    };
    RunState { call, refund }
}

/// A transaction ends after finitely many calls: each leaves fewer than there were.
pub proof fn lemma_run_ends(call: RunCall, event: RunEvent)
    requires
        call.gives(event),
    ensures
        call.next(event).calls_left() < call.calls_left(),
{
}

/// The calls that events lead to, in order.
pub open spec fn calls_made(call: RunCall, events: Seq<RunEvent>) -> Seq<RunCall>
    decreases events.len(),
{
    if events.len() == 0 {
        seq![call]
    } else {
        seq![call] + calls_made(call.next(events[0]), events.skip(1))
    }
}

/// Whether each event is one that the call before it can give.
pub open spec fn events_fit(call: RunCall, events: Seq<RunEvent>) -> bool
    decreases events.len(),
{
    events.len() > 0 ==> call.gives(events[0]) && events_fit(
        call.next(events[0]),
        events.skip(1),
    )
}

/// A failure is cleaned up after, and ends the transaction: whatever call fails, cleaning
/// up is the only call that is still made.
pub proof fn lemma_failure_is_cleaned_up(call: RunCall, event: RunEvent)
    requires
        call.gives(RunEvent::Failed),
        RunCall::CatchError.gives(event),
    ensures
        call.next(RunEvent::Failed) == RunCall::CatchError,
        RunCall::CatchError.next(event) == RunCall::Finished,
        call.phase_of() is Some,
        call.phase_of() != Some(Phase::ErrorCleanup),
        call.phase_of() != Some(Phase::TxGas),
{
}

/// A transaction that goes through without a failure is settled exactly once, and its
/// result is the last call.
pub proof fn lemma_success_settles_once(events: Seq<RunEvent>)
    requires
        events_fit(RunCall::Validate, events),
        !events.contains(RunEvent::Failed),
        calls_made(RunCall::Validate, events).last() == RunCall::Finished,
    ensures
        ({
            let calls = calls_made(RunCall::Validate, events);
            let head = seq![RunCall::Validate, RunCall::TxGas, RunCall::PreExecution];
            let tail = seq![RunCall::Settlement, RunCall::Result, RunCall::Finished];
            ||| calls == head + seq![RunCall::Execution] + tail
            ||| calls == head + seq![RunCall::RuntimeOog] + tail
            ||| calls == head + seq![RunCall::Execution, RunCall::RuntimeOog] + tail
        }),
{
    let head = seq![RunCall::Validate, RunCall::TxGas, RunCall::PreExecution];
    let tail = seq![RunCall::Settlement, RunCall::Result, RunCall::Finished];
    let calls = calls_made(RunCall::Validate, events);
    let e1 = events.skip(1);
    let e2 = e1.skip(1);
    let e3 = e2.skip(1);
    lemma_unfold(RunCall::Validate, events);
    lemma_unfold(RunCall::TxGas, e1);
    lemma_unfold(RunCall::PreExecution, e2);
    if e2[0] is PreExecuted && e2[0]->PreExecuted_0 is Some {
        lemma_unfold(RunCall::Execution, e3);
        if e3[0] == RunEvent::Executed(true) {
            lemma_settle(e3.skip(1));
            assert(calls =~= head + seq![RunCall::Execution] + tail);
        } else {
            lemma_unfold(RunCall::RuntimeOog, e3.skip(1));
            lemma_settle(e3.skip(1).skip(1));
            assert(calls =~= head + seq![RunCall::Execution, RunCall::RuntimeOog] + tail);
        }
    } else {
        lemma_unfold(RunCall::RuntimeOog, e3);
        lemma_settle(e3.skip(1));
        assert(calls =~= head + seq![RunCall::RuntimeOog] + tail);
    }
}

/// Before the end there is a next event, and it is no failure.
proof fn lemma_unfold(call: RunCall, events: Seq<RunEvent>)
    requires
        call != RunCall::Finished,
        events_fit(call, events),
        !events.contains(RunEvent::Failed),
        calls_made(call, events).last() == RunCall::Finished,
    ensures
        events.len() > 0,
        events[0] != RunEvent::Failed,
        call.gives(events[0]),
        events_fit(call.next(events[0]), events.skip(1)),
        !events.skip(1).contains(RunEvent::Failed),
        calls_made(call, events) == seq![call] + calls_made(call.next(events[0]), events.skip(1)),
        calls_made(call.next(events[0]), events.skip(1)).last() == RunCall::Finished,
{
    if events.len() > 0 {
        assert(events.contains(events[0]));
        assert forall|e: RunEvent| #[trigger] events.skip(1).contains(e) implies events.contains(
            e,
        ) by {
            let i = choose|i: int| 0 <= i < events.skip(1).len() && events.skip(1)[i] == e;
            assert(events[i + 1] == e);
        }
        lemma_calls_nonempty(call.next(events[0]), events.skip(1));
    }
}

proof fn lemma_calls_nonempty(call: RunCall, events: Seq<RunEvent>)
    ensures
        calls_made(call, events).len() > 0,
{
}

/// From settlement on, there is one way to the end.
proof fn lemma_settle(events: Seq<RunEvent>)
    requires
        events_fit(RunCall::Settlement, events),
        !events.contains(RunEvent::Failed),
        calls_made(RunCall::Settlement, events).last() == RunCall::Finished,
    ensures
        calls_made(RunCall::Settlement, events) == seq![
            RunCall::Settlement,
            RunCall::Result,
            RunCall::Finished,
        ],
{
    lemma_unfold(RunCall::Settlement, events);
    lemma_unfold(RunCall::Result, events.skip(1));
    let rest = events.skip(1).skip(1);
    assert(rest.len() == 0);
    assert(calls_made(RunCall::Settlement, events) =~= seq![
        RunCall::Settlement,
        RunCall::Result,
        RunCall::Finished,
    ]);
}

/// Whether the journal is finalized after a transaction.
pub open spec fn finalizes(entry: Entry, succeeded: bool) -> bool {
    entry == Entry::Transact || succeeded
}

/// Whether the journal is finalized after a transaction: always where it was transacted,
/// and only after a success where it was replayed.
pub fn should_finalize(entry: Entry, succeeded: bool) -> (r: bool)
    ensures
        r == finalizes(entry, succeeded),
{
    match entry {
        Entry::Transact => true,
        Entry::Replay => succeeded,
    }
}

/// Each call makes up the phase of its name; cleaning up makes up that of the error, and the end is
/// no phase.
pub proof fn lemma_phases_of_calls(call: RunCall, r: Option<Phase>)
    requires
        call_ensures(RunCall::phase, (call,), r),
    ensures
        r == match call {
            RunCall::Validate => Some(Phase::Validate),
            RunCall::TxGas => Some(Phase::TxGas),
            RunCall::PreExecution => Some(Phase::PreExecution),
            RunCall::Execution => Some(Phase::Execution),
            RunCall::RuntimeOog => Some(Phase::RuntimeOog),
            RunCall::Settlement => Some(Phase::Settlement),
            RunCall::Result => Some(Phase::Result),
            RunCall::CatchError => Some(Phase::ErrorCleanup),
            RunCall::Finished => None,
        },
{
}

/// What comes after each call: after validation the gas is set up, and then comes pre-execution.
/// Where that gave a refund there is an execution, and else the transaction ran out of gas. An
/// execution with a result is settled, and so is running out of gas; then comes the result, and
/// that is the end. Whatever fails is cleaned up after, and that is the end too.
pub proof fn lemma_order_of_calls(state: RunState, event: RunEvent)
    ensures
        forall|slot: &mut RecorderSlot, r: RunState| #[trigger]
            call_ensures(run, (state, event, slot), r) ==> {
                &&& event == RunEvent::Failed ==> r.call == RunCall::CatchError
                &&& event == RunEvent::Done ==> match state.call {
                    RunCall::Validate => r.call == RunCall::TxGas,
                    RunCall::TxGas => r.call == RunCall::PreExecution,
                    RunCall::RuntimeOog => r.call == RunCall::Settlement,
                    RunCall::Settlement => r.call == RunCall::Result,
                    RunCall::Result => r.call == RunCall::Finished,
                    RunCall::CatchError => r.call == RunCall::Finished,
                    _ => true,
                }
                &&& state.call == RunCall::PreExecution ==> {
                    &&& event matches RunEvent::PreExecuted(Some(_)) ==> r.call
                        == RunCall::Execution
                    &&& event == RunEvent::PreExecuted(None) ==> r.call == RunCall::RuntimeOog
                }
                &&& state.call == RunCall::Execution ==> {
                    &&& event == RunEvent::Executed(true) ==> r.call == RunCall::Settlement
                    &&& event == RunEvent::Executed(false) ==> r.call == RunCall::RuntimeOog
                }
            },
{
}

/// Every call can fail but setting up the gas and cleaning up; pre-execution and execution give what
/// came of them, and every other call can just be done.
pub proof fn lemma_events_that_calls_give(state: RunState, event: RunEvent)
    requires
        match state.call {
            RunCall::TxGas => event == RunEvent::Done,
            RunCall::CatchError => event == RunEvent::Done,
            RunCall::PreExecution => event is PreExecuted || event == RunEvent::Failed,
            RunCall::Execution => event is Executed || event == RunEvent::Failed,
            RunCall::Finished => false,
            _ => event == RunEvent::Done || event == RunEvent::Failed,
        },
    ensures
        state.call.gives(event),
{
}

/// The refund that pre-execution gave is the one that settlement takes, as the same 64 bits; out of
/// gas there is none, and no other call changes it.
pub proof fn lemma_refund_is_carried(state: RunState, event: RunEvent)
    ensures
        forall|slot: &mut RecorderSlot, r: RunState| #[trigger]
            call_ensures(run, (state, event, slot), r) ==> match event {
                RunEvent::PreExecuted(Some(refund)) => if refund < 0x8000_0000_0000_0000 {
                    r.refund == refund
                } else {
                    r.refund + 0x1_0000_0000_0000_0000 == refund
                },
                RunEvent::PreExecuted(None) => r.refund == 0,
                _ => r.refund == state.refund,
            },
{
}

/// A failure is recorded as that of the phase whose call failed, for the current attempt and no
/// other, and changes nothing else that was recorded. Without a failure nothing is recorded.
pub proof fn lemma_failures_are_recorded(state: RunState, event: RunEvent, phase: Option<Phase>)
    requires
        call_ensures(RunCall::phase, (state.call,), phase),
    ensures
        forall|slot: &mut RecorderSlot, r: RunState| #[trigger]
            call_ensures(run, (state, event, slot), r) && (slot.recording() matches Some(before)
                ==> before.is_valid()) ==> match slot.recording() {
                None => final(slot).recording() is None,
                Some(before) => if event == RunEvent::Failed && before.current is Some {
                    &&& before.current->0 < before.attempts().len()
                    &&& final(slot).recording() matches Some(after)
                    &&& after.attempts().len() == before.attempts().len()
                    &&& after.report.attempted == before.report.attempted
                    &&& after.report.dropped == before.report.dropped
                    &&& after.report.complete == before.report.complete
                    &&& after.current == before.current
                    &&& forall|i: int|
                        0 <= i < before.attempts().len() ==> #[trigger] after.attempts()[i] == (
                        if i == before.current->0 {
                            crate::phase_timing::Attempt {
                                error_phase: phase,
                                ..before.attempts()[i]
                            }
                        } else {
                            before.attempts()[i]
                        })
                } else {
                    final(slot).recording() == slot.recording()
                },
            },
{
}

/// A transaction that was transacted is always finalized; one that was replayed only where it
/// succeeded.
pub proof fn lemma_what_is_finalized(succeeded: bool, transacted: bool, replayed: bool)
    requires
        call_ensures(should_finalize, (Entry::Transact, succeeded), transacted),
        call_ensures(should_finalize, (Entry::Replay, succeeded), replayed),
    ensures
        transacted,
        replayed == succeeded,
{
}

} // verus!
