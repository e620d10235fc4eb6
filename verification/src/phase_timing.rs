//! Bounded recording of how long the phases of a transaction take.
//!
//! A recording scope holds a fixed number of attempts. Attempts nest, and each attributes
//! its phases to itself alone. Phase durations are inclusive: `Vm` lies within `Execution`,
//! so adding all of them counts work twice.
use std::collections::TryReserveError;
use vstd::prelude::*;

verus! {

/// Most attempts that a recording scope holds.
pub const MAX_ATTEMPTS: usize = 65_536;

/// A phase of a transaction.
#[derive(Clone, Copy, Debug, PartialEq, Eq, Structural)]
pub enum Phase {
    Validate,
    TxGas,
    PreExecution,
    Execution,
    Vm,
    RuntimeOog,
    Settlement,
    Result,
    ErrorCleanup,
    Finalize,
}

impl Phase {
    /// How many phases there are.
    pub const COUNT: usize = 10;

    /// Every phase, in the order of a report.
    pub const ALL: [Phase; 10] = [
        Phase::Validate,
        Phase::TxGas,
        Phase::PreExecution,
        Phase::Execution,
        Phase::Vm,
        Phase::RuntimeOog,
        Phase::Settlement,
        Phase::Result,
        Phase::ErrorCleanup,
        Phase::Finalize,
    ];

    /// The position of the phase in a report.
    pub open spec fn position(self) -> int {
        match self {
            Phase::Validate => 0,
            Phase::TxGas => 1,
            Phase::PreExecution => 2,
            Phase::Execution => 3,
            Phase::Vm => 4,
            Phase::RuntimeOog => 5,
            Phase::Settlement => 6,
            Phase::Result => 7,
            Phase::ErrorCleanup => 8,
            Phase::Finalize => 9,
        }
    }

    /// The position of the phase in a report.
    pub fn index(self) -> (r: usize)
        ensures
            r == self.position(),
            r < Phase::COUNT,
    {
        match self {
            Phase::Validate => 0,
            Phase::TxGas => 1,
            Phase::PreExecution => 2,
            Phase::Execution => 3,
            Phase::Vm => 4,
            Phase::RuntimeOog => 5,
            Phase::Settlement => 6,
            Phase::Result => 7,
            Phase::ErrorCleanup => 8,
            Phase::Finalize => 9,
        }
    }
}

/// Whether a sequence holds every phase at its position.
pub open spec fn is_phase_order(order: Seq<Phase>) -> bool {
    &&& order.len() == Phase::COUNT
    &&& forall|i: int| 0 <= i < Phase::COUNT ==> (#[trigger] order[i]).position() == i
}

/// How an attempt ended.
#[derive(Clone, Copy, Debug, PartialEq, Eq, Structural)]
pub enum Outcome {
    Success,
    Revert,
    Halt,
    InvalidTransaction,
    HeaderError,
    DatabaseError,
    CustomError,
    Interrupted,
}

/// How a transaction was executed.
#[derive(Clone, Copy, Debug, PartialEq, Eq, Structural)]
pub enum ExecutionStatus {
    Success,
    Revert,
    Halt,
}

/// Why a transaction was not executed.
#[derive(Clone, Copy, Debug, PartialEq, Eq, Structural)]
pub enum ExecutionError {
    Transaction,
    Header,
    Database,
    Custom,
    CustomAny,
}

/// The entry point of an attempt.
#[derive(Clone, Copy, Debug, PartialEq, Eq, Structural)]
pub enum Entry {
    Transact,
    Replay,
}

/// How often a phase was entered, and for how long.
#[derive(Clone, Copy, Debug, PartialEq, Eq, Structural)]
pub struct PhaseSample {
    pub calls: u32,
    pub elapsed_ns: u64,
}

impl Default for PhaseSample {
    fn default() -> (r: PhaseSample)
        ensures
            r.calls == 0,
            r.elapsed_ns == 0,
    {
        PhaseSample { calls: 0, elapsed_ns: 0 }
    }
}

/// One recorded attempt at a transaction.
#[derive(Debug)]
pub struct Attempt {
    pub id: u64,
    /// The attempt that this one is nested in.
    pub parent_id: Option<u64>,
    pub entry: Entry,
    pub tx_type: u8,
    pub nonce: u64,
    pub outcome: Outcome,
    /// The phase that was entered last.
    pub terminal_phase: Option<Phase>,
    /// The phase that failed.
    pub error_phase: Option<Phase>,
    pub elapsed_ns: u64,
    /// By position of the phase. Nothing where the phase was not entered.
    pub phases: [Option<PhaseSample>; 10],
}

/// What a recording scope recorded.
#[derive(Debug)]
pub struct Report {
    pub phase_order: [Phase; 10],
    pub attempts: Vec<Attempt>,
    /// Attempts that began.
    pub attempted: u64,
    /// Attempts that there was no room for.
    pub dropped: u64,
    /// Whether every attempt was recorded and none was interrupted.
    pub complete: bool,
}

impl Report {
    /// Every attempt was recorded or counted as dropped, attempts are dropped only where there
    /// is no room left, recorded attempts are numbered by their position, and each is nested in
    /// an earlier one, if in any.
    pub open spec fn is_valid(self, capacity: usize) -> bool {
        let attempts = self.attempts@;
        &&& is_phase_order(self.phase_order@)
        &&& attempts.len() <= capacity
        &&& self.attempted == attempts.len() + self.dropped
        &&& self.dropped > 0 ==> !self.complete && attempts.len() == capacity
        &&& forall|i: int| 0 <= i < attempts.len() ==> (#[trigger] attempts[i]).id == i
        &&& forall|i: int|
            0 <= i < attempts.len() ==> ((#[trigger] attempts[i]).parent_id matches Some(parent)
                ==> parent < attempts[i].id)
    }
}

/// Why a recording scope was refused.
#[derive(Clone, Copy, Debug, PartialEq, Eq, Structural)]
pub enum ScopeError {
    NestedScope,
    InvalidCapacity,
    Allocation,
}

/// The state of a recording scope.
pub struct Recorder {
    pub report: Report,
    pub capacity: usize,
    /// The attempt that phases are attributed to.
    pub current: Option<usize>,
    /// The attempts that have not finished yet.
    pub unfinished: Ghost<Set<int>>,
}

impl Recorder {
    /// The recorded attempts.
    pub open spec fn attempts(self) -> Seq<Attempt> {
        self.report.attempts@
    }

    /// Whether a recorded attempt has not finished yet.
    pub open spec fn is_unfinished(self, i: int) -> bool {
        self.unfinished@.contains(i)
    }

    /// Whether an attempt finished, and was interrupted.
    pub open spec fn was_interrupted(self, i: int) -> bool {
        &&& 0 <= i < self.attempts().len()
        &&& !self.is_unfinished(i)
        &&& self.attempts()[i].outcome == Outcome::Interrupted
    }

    /// The capacity is allowed, the report is valid, the current attempt and the unfinished
    /// ones were recorded, and the report is complete exactly where none was dropped and none
    /// that finished was interrupted.
    pub open spec fn is_valid(self) -> bool {
        &&& 0 < self.capacity <= MAX_ATTEMPTS
        &&& self.report.is_valid(self.capacity)
        &&& self.current matches Some(i) ==> i < self.attempts().len()
        &&& forall|i: int| #[trigger] self.is_unfinished(i) ==> 0 <= i < self.attempts().len()
        &&& self.report.complete <==> self.report.dropped == 0 && (forall|i: int|
            !(#[trigger] self.was_interrupted(i)))
    }

    /// Whether nothing has been recorded yet.
    pub open spec fn is_fresh(self, capacity: usize) -> bool {
        &&& self.capacity == capacity
        &&& self.attempts().len() == 0
        &&& self.report.attempted == 0
        &&& self.report.dropped == 0
        &&& self.report.complete
        &&& self.current is None
        &&& forall|i: int| !(#[trigger] self.is_unfinished(i))
    }

    /// Whether nothing but the attempts and the current one may differ.
    pub open spec fn same_totals(self, other: Recorder) -> bool {
        &&& self.capacity == other.capacity
        &&& self.report.phase_order == other.report.phase_order
        &&& self.report.attempted == other.report.attempted
        &&& self.report.dropped == other.report.dropped
    }
}

/// Where the recorder of a thread is kept. It is empty outside of recording scopes.
pub struct RecorderSlot {
    recorder: Option<Recorder>,
}

/// Handle on an attempt that began.
#[derive(Clone, Copy, Debug, PartialEq, Eq, Structural)]
pub struct AttemptGuard {
    /// The recorded attempt, if there was room for it.
    pub id: Option<usize>,
    /// The attempt that was current before.
    pub previous: Option<usize>,
    /// Whether the attempt began in a recording scope.
    pub attached: bool,
}

/// Handle on a phase that was entered.
#[derive(Clone, Copy, Debug, PartialEq, Eq, Structural)]
pub struct PhaseGuard {
    /// The attempt that the phase is attributed to, if any.
    pub id: Option<usize>,
    pub phase: Phase,
}

/// A number of nanoseconds, cut off at the largest `u64`.
pub open spec fn clipped(n: u128) -> u64 {
    if n <= u64::MAX {
        n as u64
    } else {
        u64::MAX
    }
}

/// A number of nanoseconds, cut off at the largest `u64`.
pub fn nanos(n: u128) -> (r: u64)
    ensures
        r == clipped(n),
{
    if n <= 0xffff_ffff_ffff_ffff {
        n as u64
    } else {
        u64::MAX
    }
}

/// The attempt as it is recorded when it begins.
pub open spec fn is_new_attempt(
    a: Attempt,
    id: u64,
    parent_id: Option<u64>,
    entry: Entry,
    tx_type: u8,
    nonce: u64,
) -> bool {
    &&& a.id == id
    &&& a.parent_id == parent_id
    &&& a.entry == entry
    &&& a.tx_type == tx_type
    &&& a.nonce == nonce
    &&& a.outcome == Outcome::Interrupted
    &&& a.terminal_phase is None
    &&& a.error_phase is None
    &&& a.elapsed_ns == 0
    &&& forall|k: int| 0 <= k < Phase::COUNT ==> (#[trigger] a.phases@[k]) is None
}

/// What beginning an attempt does to the recorder. It is numbered and becomes the current
/// one; where there is no room it is dropped, and no attempt is current.
pub open spec fn began(
    before: Recorder,
    after: Recorder,
    guard: AttemptGuard,
    entry: Entry,
    tx_type: u8,
    nonce: u64,
) -> bool {
    let n = before.attempts().len();
    &&& guard.attached
    &&& guard.previous == before.current
    &&& after.capacity == before.capacity
    &&& after.report.phase_order == before.report.phase_order
    &&& after.report.attempted == before.report.attempted + 1
    &&& if n == before.capacity {
        &&& guard.id is None
        &&& after.current is None
        &&& after.attempts() == before.attempts()
        &&& after.unfinished@ == before.unfinished@
        &&& after.report.dropped == before.report.dropped + 1
        &&& !after.report.complete
    } else {
        &&& guard.id == Some(n as usize)
        &&& after.current == Some(n as usize)
        &&& after.attempts().len() == n + 1
        &&& after.attempts().take(n as int) == before.attempts()
        &&& after.unfinished@ == before.unfinished@.insert(n as int)
        &&& is_new_attempt(
            after.attempts()[n as int],
            before.report.attempted,
            match before.current {
                Some(i) => Some(before.attempts()[i as int].id),
                None => None,
            },
            entry,
            tx_type,
            nonce,
        )
        &&& after.report.dropped == before.report.dropped
        &&& after.report.complete == before.report.complete
    }
}

/// The outcome that a finished attempt is left with.
pub open spec fn final_outcome(outcome: Outcome, panicking: bool) -> Outcome {
    if panicking {
        Outcome::Interrupted
    } else {
        outcome
    }
}

/// What finishing an attempt does to the recorder. The attempt that was current before it
/// is current again; an interrupted attempt leaves the report incomplete.
pub open spec fn finished(
    before: Recorder,
    after: Recorder,
    guard: AttemptGuard,
    elapsed: u128,
    panicking: bool,
) -> bool {
    if !guard.attached {
        after == before
    } else {
        &&& after.same_totals(before)
        &&& after.current == guard.previous
        &&& match guard.id {
            Some(id) => {
                let outcome = final_outcome(before.attempts()[id as int].outcome, panicking);
                &&& after.attempts() == before.attempts().update(
                    id as int,
                    Attempt {
                        elapsed_ns: clipped(elapsed),
                        outcome,
                        ..before.attempts()[id as int]
                    },
                )
                &&& after.unfinished@ == before.unfinished@.remove(id as int)
                &&& after.report.complete == (before.report.complete && outcome
                    != Outcome::Interrupted)
            },
            None => {
                &&& after.attempts() == before.attempts()
                &&& after.unfinished@ == before.unfinished@
                &&& after.report.complete == before.report.complete
            },
        }
    }
}

/// What a change to one attempt alone does to the recorder.
pub open spec fn changed_attempt(before: Recorder, after: Recorder, id: usize, attempt: Attempt) -> bool {
    &&& after.same_totals(before)
    &&& after.current == before.current
    &&& after.unfinished@ == before.unfinished@
    &&& after.report.complete == before.report.complete
    &&& after.attempts() == before.attempts().update(id as int, attempt)
}

/// The sample of a phase after one more visit.
pub open spec fn visited(sample: Option<PhaseSample>, elapsed: u128) -> PhaseSample {
    let old_sample = match sample {
        Some(s) => s,
        None => PhaseSample { calls: 0, elapsed_ns: 0 },
    };
    PhaseSample {
        calls: if old_sample.calls < u32::MAX {
            (old_sample.calls + 1) as u32
        } else {
            u32::MAX
        },
        elapsed_ns: if old_sample.elapsed_ns + clipped(elapsed) <= u64::MAX {
            (old_sample.elapsed_ns + clipped(elapsed)) as u64
        } else {
            u64::MAX
        },
    }
}

/// What leaving a phase does to the recorder: the visit is added to the attempt that the
/// phase is attributed to.
pub open spec fn exited(before: Recorder, after: Recorder, guard: PhaseGuard, elapsed: u128) -> bool {
    match guard.id {
        Some(id) => {
            let k = guard.phase.position();
            let was = before.attempts()[id as int];
            let is = after.attempts()[id as int];
            &&& changed_attempt(before, after, id, Attempt { phases: is.phases, ..was })
            &&& is.phases@ == was.phases@.update(k, Some(visited(was.phases@[k], elapsed)))
        },
        None => after == before,
    }
}

/// What classifies a result.
pub open spec fn classified(result: Result<ExecutionStatus, ExecutionError>) -> Outcome {
    match result {
        Ok(ExecutionStatus::Success) => Outcome::Success,
        Ok(ExecutionStatus::Revert) => Outcome::Revert,
        Ok(ExecutionStatus::Halt) => Outcome::Halt,
        Err(ExecutionError::Transaction) => Outcome::InvalidTransaction,
        Err(ExecutionError::Header) => Outcome::HeaderError,
        Err(ExecutionError::Database) => Outcome::DatabaseError,
        Err(ExecutionError::Custom) => Outcome::CustomError,
        Err(ExecutionError::CustomAny) => Outcome::CustomError,
    }
}

/// The order of phases in a report lists each at its position.
pub proof fn lemma_phase_order()
    ensures
        is_phase_order(Phase::ALL@),
{
    let order = Phase::ALL@;
    assert forall|i: int| 0 <= i < Phase::COUNT implies (#[trigger] order[i]).position() == i by {
        assert(order[0] == Phase::Validate);
        assert(order[1] == Phase::TxGas);
        assert(order[2] == Phase::PreExecution);
        assert(order[3] == Phase::Execution);
        assert(order[4] == Phase::Vm);
        assert(order[5] == Phase::RuntimeOog);
        assert(order[6] == Phase::Settlement);
        assert(order[7] == Phase::Result);
        assert(order[8] == Phase::ErrorCleanup);
        assert(order[9] == Phase::Finalize);
    }
}

impl RecorderSlot {
    /// A kept recorder is valid.
    #[verifier::type_invariant]
    closed spec fn is_valid(self) -> bool {
        self.recorder matches Some(r) ==> r.is_valid()
    }

    /// The recorder of the scope, if there is one.
    pub closed spec fn recording(self) -> Option<Recorder> {
        self.recorder
    }

    /// A slot outside of any recording scope.
    pub fn new() -> (r: RecorderSlot)
        ensures
            r.recording() is None,
    {
        RecorderSlot { recorder: None }
    }

    /// Whether there is a recording scope.
    pub fn is_recording(&self) -> (r: bool)
        ensures
            r == (self.recording() is Some),
    {
        self.recorder.is_some()
    }

    /// Whether another attempt can be numbered.
    pub fn can_begin(&self) -> (r: bool)
        ensures
            r == (self.recording() matches Some(recorder) ==> recorder.report.attempted
                < u64::MAX),
    {
        match &self.recorder {
            Some(recorder) => recorder.report.attempted < u64::MAX,
            None => true,
        }
    }
}

/// Whether phases are being attributed to an attempt.
pub fn active_attempt(slot: &RecorderSlot) -> (r: bool)
    ensures
        r == (slot.recording() matches Some(recorder) && recorder.current is Some),
{
    match &slot.recorder {
        Some(recorder) => recorder.current.is_some(),
        None => false,
    }
}

/// Whether a handle belongs to what a recorder recorded.
pub open spec fn is_known(recorder: Recorder, id: Option<usize>) -> bool {
    id matches Some(i) ==> i < recorder.attempts().len()
}

/// Whether a handle belongs to an attempt that has not finished yet.
pub open spec fn is_running(recorder: Recorder, id: Option<usize>) -> bool {
    id matches Some(i) ==> i < recorder.attempts().len() && recorder.is_unfinished(i as int)
}

/// Changing a recorded attempt keeps the recorder valid, as long as its place stays and its
/// outcome changes only before it finished.
proof fn lemma_change_keeps_valid(before: Recorder, after: Recorder, id: usize, attempt: Attempt)
    requires
        before.is_valid(),
        id < before.attempts().len(),
        changed_attempt(before, after, id, attempt),
        attempt.id == before.attempts()[id as int].id,
        attempt.parent_id == before.attempts()[id as int].parent_id,
        attempt.outcome == before.attempts()[id as int].outcome || before.is_unfinished(id as int),
    ensures
        after.is_valid(),
{
    assert forall|i: int| #[trigger] after.is_unfinished(i) implies 0 <= i
        < after.attempts().len() by {
        assert(before.is_unfinished(i));
    }
    assert forall|i: int|
        #![trigger after.was_interrupted(i)]
        #![trigger before.was_interrupted(i)]
        after.was_interrupted(i) == before.was_interrupted(i) by {
        assert(after.is_unfinished(i) == before.is_unfinished(i));
    }
}

/// Beginning an attempt keeps the recorder valid.
proof fn lemma_begin_keeps_valid(
    before: Recorder,
    after: Recorder,
    guard: AttemptGuard,
    entry: Entry,
    tx_type: u8,
    nonce: u64,
)
    requires
        before.is_valid(),
        began(before, after, guard, entry, tx_type, nonce),
    ensures
        after.is_valid(),
        is_running(after, guard.id),
        is_known(after, guard.previous),
{
    let n = before.attempts().len() as int;
    assert forall|i: int| 0 <= i < n implies #[trigger] after.attempts()[i]
        == before.attempts()[i] by {
        if n < before.capacity {
            assert(after.attempts().take(n)[i] == before.attempts()[i]);
        }
    }
    assert forall|i: int| #[trigger] after.is_unfinished(i) implies 0 <= i
        < after.attempts().len() by {
        if n < before.capacity {
            assert(i == n || before.is_unfinished(i));
        } else {
            assert(before.is_unfinished(i));
        }
    }
    if n < before.capacity {
        assert(after.is_unfinished(n));
        assert forall|i: int|
            #![trigger after.was_interrupted(i)]
            #![trigger before.was_interrupted(i)]
            after.was_interrupted(i) == before.was_interrupted(i) by {
            if i != n {
                assert(after.is_unfinished(i) == before.is_unfinished(i));
            }
        }
    }
}

/// Finishing an attempt that runs keeps the recorder valid.
proof fn lemma_finish_keeps_valid(
    before: Recorder,
    after: Recorder,
    guard: AttemptGuard,
    elapsed: u128,
    panicking: bool,
)
    requires
        before.is_valid(),
        is_running(before, guard.id),
        is_known(before, guard.previous),
        finished(before, after, guard, elapsed, panicking),
    ensures
        after.is_valid(),
{
    if guard.attached {
        assert forall|i: int| #[trigger] after.is_unfinished(i) implies 0 <= i
            < after.attempts().len() by {
            assert(before.is_unfinished(i));
        }
        match guard.id {
            Some(id) => {
                assert(!after.is_unfinished(id as int) && before.is_unfinished(id as int));
                assert forall|i: int|
                    #![trigger after.was_interrupted(i)]
                    #![trigger before.was_interrupted(i)]
                    i != id implies after.was_interrupted(i) == before.was_interrupted(i) by {
                    assert(after.is_unfinished(i) == before.is_unfinished(i));
                }
                assert(!before.was_interrupted(id as int));
                assert(after.was_interrupted(id as int) == (after.attempts()[id as int].outcome
                    == Outcome::Interrupted));
                if after.report.complete {
                    assert forall|i: int| !(#[trigger] after.was_interrupted(i)) by {
                        if i != id {
                            assert(!before.was_interrupted(i));
                        }
                    }
                } else if after.report.dropped == 0 {
                    if !before.report.complete {
                        let i = choose|i: int| #[trigger] before.was_interrupted(i);
                        assert(after.was_interrupted(i));
                    } else {
                        assert(after.was_interrupted(id as int));
                    }
                }
            },
            None => {
                assert forall|i: int|
                    #![trigger after.was_interrupted(i)]
                    #![trigger before.was_interrupted(i)]
                    after.was_interrupted(i) == before.was_interrupted(i) by {
                    assert(after.is_unfinished(i) == before.is_unfinished(i));
                }
            },
        }
    }
}

impl AttemptGuard {
    /// Begins an attempt.
    pub fn begin(slot: &mut RecorderSlot, entry: Entry, tx_type: u8, nonce: u64) -> (r: AttemptGuard)
        requires
            old(slot).recording() matches Some(recorder) ==> recorder.report.attempted < u64::MAX,
        ensures
            match old(slot).recording() {
                Some(before) => final(slot).recording() matches Some(after) && after.is_valid()
                    && began(before, after, r, entry, tx_type, nonce) && is_running(after, r.id)
                    && is_known(after, r.previous),
                None => final(slot).recording() is None && r == (AttemptGuard {
                    id: None,
                    previous: None,
                    attached: false,
                }),
            },
    {
        proof {
            use_type_invariant(&*slot);
        }
        let mut taken: Option<Recorder> = None;
        std::mem::swap(&mut taken, &mut slot.recorder);
        let mut recorder = match taken {
            Some(recorder) => recorder,
            None => {
                return AttemptGuard { id: None, previous: None, attached: false };
            },
        };
        let ghost before = recorder;
        let previous: Option<usize> = recorder.current;
        let id: u64 = recorder.report.attempted;
        recorder.report.attempted = id + 1;
        let index: usize = recorder.report.attempts.len();
        if index == recorder.capacity {
            recorder.report.dropped = recorder.report.dropped + 1;
            recorder.report.complete = false;
            recorder.current = None;
            let guard = AttemptGuard { id: None, previous, attached: true };
            proof {
                lemma_begin_keeps_valid(before, recorder, guard, entry, tx_type, nonce);
            }
            slot.recorder = Some(recorder);
            return guard;
        }
        let parent_id: Option<u64> = match previous {
            Some(i) => Some(recorder.report.attempts[i].id),
            None => None,
        };
        recorder.report.attempts.push(
            Attempt {
                id,
                parent_id,
                entry,
                tx_type,
                nonce,
                outcome: Outcome::Interrupted,
                terminal_phase: None,
                error_phase: None,
                elapsed_ns: 0,
                phases: [None;10],
            },
        );
        recorder.current = Some(index);
        recorder.unfinished = Ghost(recorder.unfinished@.insert(index as int));
        let guard = AttemptGuard { id: Some(index), previous, attached: true };
        proof {
            assert(recorder.attempts().take(index as int) =~= before.attempts());
            lemma_begin_keeps_valid(before, recorder, guard, entry, tx_type, nonce);
        }
        slot.recorder = Some(recorder);
        guard
    }

    /// Records how the transaction ended.
    pub fn outcome(
        &self,
        slot: &mut RecorderSlot,
        result: &Result<ExecutionStatus, ExecutionError>,
    )
        requires
            old(slot).recording() matches Some(recorder) ==> is_running(recorder, self.id),
        ensures
            match (old(slot).recording(), self.id) {
                (Some(before), Some(id)) => final(slot).recording() matches Some(after)
                    && changed_attempt(
                    before,
                    after,
                    id,
                    (Attempt { outcome: classified(*result), ..before.attempts()[id as int] }),
                ),
                _ => final(slot).recording() == old(slot).recording(),
            },
    {
        let status = match result {
            Ok(ExecutionStatus::Success) => Outcome::Success,
            Ok(ExecutionStatus::Revert) => Outcome::Revert,
            Ok(ExecutionStatus::Halt) => Outcome::Halt,
            Err(ExecutionError::Transaction) => Outcome::InvalidTransaction,
            Err(ExecutionError::Header) => Outcome::HeaderError,
            Err(ExecutionError::Database) => Outcome::DatabaseError,
            Err(ExecutionError::Custom) => Outcome::CustomError,
            Err(ExecutionError::CustomAny) => Outcome::CustomError,
        };
        if let Some(id) = self.id {
            proof {
                use_type_invariant(&*slot);
            }
            let mut taken: Option<Recorder> = None;
            std::mem::swap(&mut taken, &mut slot.recorder);
            if let Some(mut recorder) = taken {
                let ghost before = recorder;
                recorder.report.attempts[id].outcome = status;
                proof {
                    lemma_change_keeps_valid(
                        before,
                        recorder,
                        id,
                        Attempt { outcome: status, ..before.attempts()[id as int] },
                    );
                }
                slot.recorder = Some(recorder);
            }
        }
    }

    /// Finishes the attempt after `elapsed` nanoseconds. The attempt that was current
    /// before it is current again.
    pub fn finish(self, slot: &mut RecorderSlot, elapsed: u128, panicking: bool)
        requires
            old(slot).recording() matches Some(recorder) ==> is_running(recorder, self.id)
                && is_known(recorder, self.previous),
        ensures
            match old(slot).recording() {
                Some(before) => final(slot).recording() matches Some(after) && after.is_valid()
                    && finished(before, after, self, elapsed, panicking),
                None => final(slot).recording() is None,
            },
    {
        proof {
            use_type_invariant(&*slot);
        }
        if !self.attached {
            return;
        }
        let mut taken: Option<Recorder> = None;
        std::mem::swap(&mut taken, &mut slot.recorder);
        if let Some(mut recorder) = taken {
            let ghost before = recorder;
            if let Some(id) = self.id {
                recorder.report.attempts[id].elapsed_ns = nanos(elapsed);
                if panicking {
                    recorder.report.attempts[id].outcome = Outcome::Interrupted;
                }
                if recorder.report.attempts[id].outcome == Outcome::Interrupted {
                    recorder.report.complete = false;
                }
                recorder.unfinished = Ghost(recorder.unfinished@.remove(id as int));
                assert(recorder.attempts() =~= before.attempts().update(
                    id as int,
                    Attempt {
                        elapsed_ns: clipped(elapsed),
                        outcome: final_outcome(before.attempts()[id as int].outcome, panicking),
                        ..before.attempts()[id as int]
                    },
                ));
            }
            recorder.current = self.previous;
            proof {
                lemma_finish_keeps_valid(before, recorder, self, elapsed, panicking);
            }
            slot.recorder = Some(recorder);
        }
    }
}

impl PhaseGuard {
    /// Enters a phase, attributed to the current attempt if there is one.
    pub fn enter(slot: &mut RecorderSlot, phase: Phase) -> (r: PhaseGuard)
        ensures
            r.phase == phase,
            match old(slot).recording() {
                Some(before) => {
                    &&& r.id == before.current
                    &&& match before.current {
                        Some(id) => final(slot).recording() matches Some(after) && changed_attempt(
                            before,
                            after,
                            id,
                            (Attempt {
                                terminal_phase: Some(phase),
                                ..before.attempts()[id as int]
                            }),
                        ),
                        None => final(slot).recording() == old(slot).recording(),
                    }
                },
                None => r.id is None && final(slot).recording() is None,
            },
    {
        proof {
            use_type_invariant(&*slot);
        }
        let mut taken: Option<Recorder> = None;
        std::mem::swap(&mut taken, &mut slot.recorder);
        let mut id: Option<usize> = None;
        if let Some(mut recorder) = taken {
            let ghost before = recorder;
            if let Some(current) = recorder.current {
                recorder.report.attempts[current].terminal_phase = Some(phase);
                id = Some(current);
                proof {
                    lemma_change_keeps_valid(
                        before,
                        recorder,
                        current,
                        Attempt {
                            terminal_phase: Some(phase),
                            ..before.attempts()[current as int]
                        },
                    );
                }
            }
            slot.recorder = Some(recorder);
        }
        PhaseGuard { id, phase }
    }

    /// Leaves the phase after `elapsed` nanoseconds.
    pub fn exit(self, slot: &mut RecorderSlot, elapsed: u128)
        requires
            old(slot).recording() matches Some(recorder) ==> is_known(recorder, self.id),
        ensures
            match old(slot).recording() {
                Some(before) => final(slot).recording() matches Some(after) && exited(
                    before,
                    after,
                    self,
                    elapsed,
                ),
                None => final(slot).recording() is None,
            },
    {
        let id: usize = match self.id {
            Some(id) => id,
            None => return,
        };
        proof {
            use_type_invariant(&*slot);
        }
        let mut taken: Option<Recorder> = None;
        std::mem::swap(&mut taken, &mut slot.recorder);
        if let Some(mut recorder) = taken {
            let ghost before = recorder;
            let k = self.phase.index();
            let sample = match recorder.report.attempts[id].phases[k] {
                Some(sample) => sample,
                None => PhaseSample { calls: 0, elapsed_ns: 0 },
            };
            let calls: u32 = if sample.calls < u32::MAX {
                sample.calls + 1
            } else {
                u32::MAX
            };
            let spent: u64 = nanos(elapsed);
            let elapsed_ns: u64 = if spent <= u64::MAX - sample.elapsed_ns {
                sample.elapsed_ns + spent
            } else {
                u64::MAX
            };
            recorder.report.attempts[id].phases[k] = Some(PhaseSample { calls, elapsed_ns });
            proof {
                lemma_change_keeps_valid(
                    before,
                    recorder,
                    id,
                    Attempt {
                        phases: recorder.attempts()[id as int].phases,
                        ..before.attempts()[id as int]
                    },
                );
            }
            slot.recorder = Some(recorder);
        }
    }
}

/// Records, for the current attempt, the phase that failed.
pub fn record_error(slot: &mut RecorderSlot, phase: Phase)
    ensures
        match old(slot).recording() {
            Some(before) => match before.current {
                Some(id) => final(slot).recording() matches Some(after) && changed_attempt(
                    before,
                    after,
                    id,
                    (Attempt { error_phase: Some(phase), ..before.attempts()[id as int] }),
                ),
                None => final(slot).recording() == old(slot).recording(),
            },
            None => final(slot).recording() is None,
        },
{
    proof {
        use_type_invariant(&*slot);
    }
    let mut taken: Option<Recorder> = None;
    std::mem::swap(&mut taken, &mut slot.recorder);
    if let Some(mut recorder) = taken {
        let ghost before = recorder;
        if let Some(current) = recorder.current {
            recorder.report.attempts[current].error_phase = Some(phase);
            proof {
                lemma_change_keeps_valid(
                    before,
                    recorder,
                    current,
                    Attempt { error_phase: Some(phase), ..before.attempts()[current as int] },
                );
            }
        }
        slot.recorder = Some(recorder);
    }
}

/// Why a recording scope is refused before anything is allocated for it, if it is.
pub open spec fn scope_refusal(slot: RecorderSlot, capacity: usize) -> Option<ScopeError> {
    if capacity == 0 || capacity > MAX_ATTEMPTS {
        Some(ScopeError::InvalidCapacity)
    } else if slot.recording() is Some {
        Some(ScopeError::NestedScope)
    } else {
        None
    }
}

/// Whether a slot holds a recorder for `capacity` attempts that recorded nothing yet.
pub open spec fn is_fresh_slot(slot: RecorderSlot, capacity: usize) -> bool {
    slot.recording() matches Some(recorder) && recorder.is_fresh(capacity)
}

/// Whether `run` can be called with a fresh slot, and leaves the recorder in it.
pub open spec fn keeps_scope<T, F: FnOnce(RecorderSlot) -> (T, RecorderSlot)>(
    run: F,
    capacity: usize,
) -> bool {
    &&& forall|slot: RecorderSlot|
        is_fresh_slot(slot, capacity) ==> #[trigger] call_requires(run, (slot,))
    &&& forall|slot: RecorderSlot, out: (T, RecorderSlot)|
        is_fresh_slot(slot, capacity) && #[trigger] call_ensures(run, (slot,), out) ==> (
        out.1.recording() matches Some(after) && after.capacity == capacity)
}

/// Whether `run`, called with a fresh slot, returned `value` and left `recorder` in the slot.
pub open spec fn left_recorder<T, F: FnOnce(RecorderSlot) -> (T, RecorderSlot)>(
    run: F,
    capacity: usize,
    value: T,
    recorder: Recorder,
) -> bool {
    exists|start: RecorderSlot, end: RecorderSlot| #[trigger]
        call_ensures(run, (start,), (value, end)) && is_fresh_slot(start, capacity)
            && end.recording() == Some(recorder)
}

/// Whether `report` is what `run` left in a slot that it was given fresh, and `value` what
/// it returned.
pub open spec fn recorded<T, F: FnOnce(RecorderSlot) -> (T, RecorderSlot)>(
    run: F,
    capacity: usize,
    value: T,
    report: Report,
) -> bool {
    exists|recorder: Recorder| #[trigger]
        left_recorder(run, capacity, value, recorder) && recorder.report == report
            && recorder.capacity == capacity && recorder.is_valid()
}

/// Runs `run` in a recording scope that keeps its attempts in `attempts`, and gives what it
/// returned, the report, and the slot, which is empty again.
pub fn record_into<T, F: FnOnce(RecorderSlot) -> (T, RecorderSlot)>(
    capacity: usize,
    attempts: Vec<Attempt>,
    run: F,
) -> (r: (T, Report, RecorderSlot))
    requires
        0 < capacity <= MAX_ATTEMPTS,
        attempts@.len() == 0,
        keeps_scope::<T, F>(run, capacity),
    ensures
        recorded(run, capacity, r.0, r.1),
        r.1.is_valid(capacity),
        r.2.recording() is None,
{
    proof {
        lemma_phase_order();
    }
    let start = RecorderSlot {
        recorder: Some(
            Recorder {
                report: Report {
                    phase_order: Phase::ALL,
                    attempts,
                    attempted: 0,
                    dropped: 0,
                    complete: true,
                },
                capacity,
                current: None,
                unfinished: Ghost(Set::empty()),
            },
        ),
    };
    let ghost fresh = start;
    assert(is_fresh_slot(fresh, capacity));
    let (value, mut end) = run(start);
    proof {
        use_type_invariant(&end);
    }
    let ghost last = end;
    let mut taken: Option<Recorder> = None;
    std::mem::swap(&mut taken, &mut end.recorder);
    let recorder = taken.unwrap();
    assert(call_ensures(run, (fresh,), (value, last)));
    assert(left_recorder(run, capacity, value, recorder));
    (value, recorder.report, end)
}

/// What `reserve` gave where it was asked for room for `additional` items in `items`.
fn reserved<R, F: FnOnce(&mut Vec<Attempt>, usize) -> R>(
    items: &mut Vec<Attempt>,
    additional: usize,
    reserve: F,
) -> (r: R)
    requires
        forall|v: &mut Vec<Attempt>| #[trigger] call_requires(reserve, (v, additional)),
    ensures
        exists|v: &mut Vec<Attempt>|
            {
                &&& #[trigger] call_ensures(reserve, (v, additional), r)
                &&& *v == *old(items)
                &&& *final(v) == *final(items)
            },
{
    reserve(items, additional)
}

/// Runs `run` in a recording scope of its own, for at most `capacity` attempts.
///
/// The room for them is allocated before. A scope within a scope is refused, and so is a
/// capacity of zero or more than `MAX_ATTEMPTS`; then `run` is not called, and the slot
/// stays as it is.
pub fn with_recording<T, F: FnOnce(RecorderSlot) -> (T, RecorderSlot)>(
    slot: RecorderSlot,
    capacity: usize,
    run: F,
) -> (r: (RecorderSlot, Result<(T, Report), ScopeError>))
    requires
        keeps_scope::<T, F>(run, capacity),
    ensures
        r.0.recording() == slot.recording(),
        match scope_refusal(slot, capacity) {
            Some(error) => r.1 == Err::<(T, Report), ScopeError>(error),
            None => {
                &&& exists|v: &mut Vec<Attempt>, x: Result<(), TryReserveError>|
                    {
                        &&& #[trigger] call_ensures(Vec::<Attempt>::try_reserve, (v, capacity), x)
                        &&& v@.len() == 0
                        &&& x is Ok <==> r.1 is Ok
                    }
                &&& match r.1 {
                    Ok((value, report)) => recorded(run, capacity, value, report)
                        && report.is_valid(capacity),
                    Err(error) => error == ScopeError::Allocation,
                }
            },
        },
{
    if capacity == 0 || capacity > MAX_ATTEMPTS {
        return (slot, Err(ScopeError::InvalidCapacity));
    }
    if slot.is_recording() {
        return (slot, Err(ScopeError::NestedScope));
    }
    let mut attempts: Vec<Attempt> = Vec::new();
    match reserved(&mut attempts, capacity, Vec::<Attempt>::try_reserve) {
        Ok(_) => {
            let (value, report, empty) = record_into(capacity, attempts, run);
            (empty, Ok((value, report)))
        },
        Err(_) => (slot, Err(ScopeError::Allocation)),
    }
}

/// Attempts nest: finishing one makes the attempt current again that was current when it
/// began, whatever happened in between.
pub proof fn lemma_finish_restores_current(
    outer: Recorder,
    began_at: Recorder,
    inner: Recorder,
    after: Recorder,
    guard: AttemptGuard,
    entry: Entry,
    tx_type: u8,
    nonce: u64,
    elapsed: u128,
    panicking: bool,
)
    requires
        began(outer, began_at, guard, entry, tx_type, nonce),
        finished(inner, after, guard, elapsed, panicking),
    ensures
        after.current == outer.current,
{
}

/// An attempt that there was no room for charges nothing to any other: no attempt is
/// current when it began, a phase that is entered then is attributed to none, and neither
/// leaving the phase nor finishing the attempt changes any attempt.
pub proof fn lemma_dropped_attempt_charges_nothing(
    outer: Recorder,
    began_at: Recorder,
    in_phase: Recorder,
    inner: Recorder,
    after: Recorder,
    guard: AttemptGuard,
    phase: PhaseGuard,
    spent: u128,
    entry: Entry,
    tx_type: u8,
    nonce: u64,
    elapsed: u128,
    panicking: bool,
)
    requires
        outer.attempts().len() == outer.capacity,
        began(outer, began_at, guard, entry, tx_type, nonce),
        phase.id == began_at.current,
        exited(in_phase, inner, phase, spent),
        finished(inner, after, guard, elapsed, panicking),
    ensures
        began_at.current is None,
        began_at.attempts() == outer.attempts(),
        after.attempts() == in_phase.attempts(),
        !began_at.report.complete,
{
}

/// The phase that failed stays recorded: neither entering or leaving another phase, such as
/// the cleanup or the finalization, nor an outcome, nor finishing the attempt changes it.
pub proof fn lemma_error_phase_is_kept(
    before: Recorder,
    after: Recorder,
    attempt: AttemptGuard,
    phase: PhaseGuard,
    id: usize,
    entered: Phase,
    outcome: Outcome,
    elapsed: u128,
    panicking: bool,
    i: int,
)
    requires
        0 <= i < before.attempts().len(),
        is_known(before, attempt.id),
        is_known(before, phase.id),
        is_known(before, Some(id)),
        ({
            let was = before.attempts()[id as int];
            ||| changed_attempt(before, after, id, Attempt { terminal_phase: Some(entered), ..was })
            ||| changed_attempt(before, after, id, Attempt { outcome, ..was })
            ||| exited(before, after, phase, elapsed)
            ||| finished(before, after, attempt, elapsed, panicking)
        }),
    ensures
        after.attempts()[i].error_phase == before.attempts()[i].error_phase,
{
}

/// Where every attempt finished, the report is complete exactly where it holds every attempt
/// that began and none was interrupted.
pub proof fn lemma_complete_exactly_where_nothing_is_missing(recorder: Recorder)
    requires
        recorder.is_valid(),
        forall|i: int| !(#[trigger] recorder.is_unfinished(i)),
    ensures
        recorder.report.complete <==> recorder.report.attempted == recorder.attempts().len() && (
        forall|i: int|
            0 <= i < recorder.attempts().len() ==> (#[trigger] recorder.attempts()[i]).outcome
                != Outcome::Interrupted),
{
    let attempts = recorder.attempts();
    if forall|i: int| !(#[trigger] recorder.was_interrupted(i)) {
        assert forall|i: int| 0 <= i < attempts.len() implies (#[trigger] attempts[i]).outcome
            != Outcome::Interrupted by {
            assert(!recorder.was_interrupted(i) && !recorder.is_unfinished(i));
        }
    }
    if forall|i: int|
        0 <= i < attempts.len() ==> (#[trigger] attempts[i]).outcome != Outcome::Interrupted {
        assert forall|i: int| !(#[trigger] recorder.was_interrupted(i)) by {
            if 0 <= i < attempts.len() {
                assert(attempts[i].outcome != Outcome::Interrupted);
            }
        }
    }
}

/// A recorded attempt is running from when it began until it is finished, and finishing it
/// leaves every other as it is.
pub proof fn lemma_finished_attempts_are_not_running(
    before: Recorder,
    after: Recorder,
    guard: AttemptGuard,
    entry: Entry,
    tx_type: u8,
    nonce: u64,
    elapsed: u128,
    panicking: bool,
    i: int,
)
    requires
        before.is_valid(),
        guard.attached,
    ensures
        began(before, after, guard, entry, tx_type, nonce) ==> after.is_unfinished(i) == (
        before.is_unfinished(i) || guard.id == Some(i as usize) && 0 <= i <= usize::MAX),
        finished(before, after, guard, elapsed, panicking) ==> after.is_unfinished(i) == (
        before.is_unfinished(i) && !(guard.id == Some(i as usize) && 0 <= i <= usize::MAX)),
{
}

/// A report that is incomplete stays incomplete, whatever is recorded after.
pub proof fn lemma_incomplete_stays(
    before: Recorder,
    after: Recorder,
    attempt: AttemptGuard,
    phase: PhaseGuard,
    id: usize,
    changed: Attempt,
    entry: Entry,
    tx_type: u8,
    nonce: u64,
    elapsed: u128,
    panicking: bool,
)
    requires
        !before.report.complete,
        ({
            ||| began(before, after, attempt, entry, tx_type, nonce)
            ||| changed_attempt(before, after, id, changed)
            ||| exited(before, after, phase, elapsed)
            ||| finished(before, after, attempt, elapsed, panicking)
        }),
    ensures
        !after.report.complete,
{
}

/// Phases stand in a report in the order in which a transaction goes through them, the machine
/// within the execution, and each at its own position.
pub proof fn lemma_positions_of_phases(phase: Phase, r: usize)
    requires
        call_ensures(Phase::index, (phase,), r),
    ensures
        r == match phase {
            Phase::Validate => 0int,
            Phase::TxGas => 1,
            Phase::PreExecution => 2,
            Phase::Execution => 3,
            Phase::Vm => 4,
            Phase::RuntimeOog => 5,
            Phase::Settlement => 6,
            Phase::Result => 7,
            Phase::ErrorCleanup => 8,
            Phase::Finalize => 9,
        },
        Phase::ALL@.len() == 10,
        Phase::ALL@[r as int] == phase,
{
    lemma_phase_order();
    assert(Phase::ALL@[r as int].position() == phase.position());
}

/// Durations are kept as they are as long as they fit, and cut off at the largest number that does.
pub proof fn lemma_durations_are_cut_off(n: u128, r: u64)
    requires
        call_ensures(nanos, (n,), r),
    ensures
        n <= 0xffff_ffff_ffff_ffff ==> r == n,
        n > 0xffff_ffff_ffff_ffff ==> r == 0xffff_ffff_ffff_ffff,
{
}

/// Whether two recorders agree in all but their attempts, their current attempt, and whether the
/// report is complete.
pub open spec fn same_counts(before: Recorder, after: Recorder) -> bool {
    &&& after.capacity == before.capacity
    &&& after.report.attempted == before.report.attempted
    &&& after.report.dropped == before.report.dropped
    &&& after.attempts().len() == before.attempts().len()
}

/// Where there is room, beginning an attempt adds one behind those that are there, which stay as
/// they are: it is numbered by how many began before it, is nested in the one that was current,
/// holds what it was begun with, has spent nothing and entered nothing, and is current. Where there
/// is none, the attempt is counted as dropped, the report is incomplete, and no attempt is
/// current. Outside of a recording scope nothing happens.
pub proof fn lemma_beginning_an_attempt(entry: Entry, tx_type: u8, nonce: u64)
    ensures
        forall|slot: &mut RecorderSlot, r: AttemptGuard| #[trigger]
            call_ensures(AttemptGuard::begin, (slot, entry, tx_type, nonce), r) ==> match (
                slot.recording(),
                final(slot).recording(),
            ) {
                (None, None) => !r.attached && r.id is None,
                (Some(before), Some(after)) => {
                    let n = before.attempts().len() as int;
                    &&& r.attached
                    &&& r.previous == before.current
                    &&& after.capacity == before.capacity
                    &&& after.report.attempted == before.report.attempted + 1
                    &&& n == before.capacity ==> {
                        &&& r.id is None
                        &&& after.current is None
                        &&& after.attempts() == before.attempts()
                        &&& after.report.dropped == before.report.dropped + 1
                        &&& !after.report.complete
                    }
                    &&& n != before.capacity ==> {
                        let new = after.attempts()[n];
                        &&& r.id matches Some(id) && id == n
                        &&& after.current == r.id
                        &&& after.attempts().len() == n + 1
                        &&& after.attempts().take(n) == before.attempts()
                        &&& after.report.dropped == before.report.dropped
                        &&& after.report.complete == before.report.complete
                        &&& new.id == before.report.attempted
                        &&& before.current is None ==> new.parent_id is None
                        &&& before.current matches Some(i) ==> new.parent_id == Some(
                            before.attempts()[i as int].id,
                        )
                        &&& new.entry == entry
                        &&& new.tx_type == tx_type
                        &&& new.nonce == nonce
                        &&& new.outcome == Outcome::Interrupted
                        &&& new.terminal_phase is None
                        &&& new.error_phase is None
                        &&& new.elapsed_ns == 0
                        &&& forall|k: int|
                            0 <= k < 10 ==> (#[trigger] new.phases@[k]) is None
                    }
                },
                _ => false,
            },
{
}

/// An attempt is recorded with how its transaction ended: a success, a revert or a halt, or the
/// reason for which it was not executed. Nothing else of it changes, nor does any other attempt.
pub proof fn lemma_recording_an_outcome(
    guard: AttemptGuard,
    result: Result<ExecutionStatus, ExecutionError>,
)
    ensures
        forall|slot: &mut RecorderSlot, r: ()| #[trigger]
            call_ensures(AttemptGuard::outcome, (&guard, slot, &result), r) ==> match (
                slot.recording(),
                final(slot).recording(),
            ) {
                (None, None) => true,
                (Some(before), Some(after)) => (guard.id matches Some(id) ==> id < before.attempts().len())
                    ==> {
                    &&& same_counts(before, after)
                    &&& after.current == before.current
                    &&& after.report.complete == before.report.complete
                    &&& forall|i: int|
                        0 <= i < before.attempts().len() ==> #[trigger] after.attempts()[i] == (
                        if guard.id is Some && i == guard.id->0 {
                            Attempt {
                                outcome: match result {
                                    Ok(ExecutionStatus::Success) => Outcome::Success,
                                    Ok(ExecutionStatus::Revert) => Outcome::Revert,
                                    Ok(ExecutionStatus::Halt) => Outcome::Halt,
                                    Err(
                                        ExecutionError::Transaction,
                                    ) => Outcome::InvalidTransaction,
                                    Err(ExecutionError::Header) => Outcome::HeaderError,
                                    Err(ExecutionError::Database) => Outcome::DatabaseError,
                                    Err(ExecutionError::Custom) => Outcome::CustomError,
                                    Err(ExecutionError::CustomAny) => Outcome::CustomError,
                                },
                                ..before.attempts()[i]
                            }
                        } else {
                            before.attempts()[i]
                        })
                },
                _ => false,
            },
{
}

/// Finishing an attempt makes the one current again that was so before it, and records how long it
/// took. One that ends in a panic is interrupted, and one that is interrupted leaves the report
/// incomplete; any other leaves it as complete as it was. Nothing else changes, and nothing at all
/// where the attempt began outside of a recording scope.
pub proof fn lemma_finishing_an_attempt(guard: AttemptGuard, elapsed: u128, panicking: bool)
    ensures
        forall|slot: &mut RecorderSlot, r: ()| #[trigger]
            call_ensures(AttemptGuard::finish, (guard, slot, elapsed, panicking), r) ==> match (
                slot.recording(),
                final(slot).recording(),
            ) {
                (None, None) => true,
                (Some(before), Some(after)) => if !guard.attached {
                    after == before
                } else if guard.id matches Some(id) && id >= before.attempts().len() {
                    true
                } else {
                    &&& same_counts(before, after)
                    &&& after.current == guard.previous
                    &&& guard.id is None ==> after.report.complete == before.report.complete
                    &&& guard.id is Some && guard.id->0 < before.attempts().len() ==> {
                        let id = guard.id->0;
                        let ended = after.attempts()[id as int];
                        &&& elapsed <= u64::MAX ==> ended.elapsed_ns == elapsed
                        &&& elapsed > u64::MAX ==> ended.elapsed_ns == u64::MAX
                        &&& panicking ==> ended.outcome == Outcome::Interrupted
                        &&& !panicking ==> ended.outcome == before.attempts()[id as int].outcome
                        &&& after.report.complete <==> before.report.complete && ended.outcome
                            != Outcome::Interrupted
                        &&& ended == (Attempt {
                            elapsed_ns: ended.elapsed_ns,
                            outcome: ended.outcome,
                            ..before.attempts()[id as int]
                        })
                    }
                    &&& forall|i: int|
                        0 <= i < before.attempts().len() && !(guard.id is Some && i == guard.id->0)
                            ==> #[trigger] after.attempts()[i] == before.attempts()[i]
                },
                _ => false,
            },
{
}

/// Entering a phase is attributed to the current attempt, which it is the last phase of so far, and
/// changes nothing else; nor does a failure, of which the phase is recorded.
pub proof fn lemma_entering_a_phase(phase: Phase)
    ensures
        forall|slot: &mut RecorderSlot, r: PhaseGuard| #[trigger]
            call_ensures(PhaseGuard::enter, (slot, phase), r) ==> r.phase == phase && match (
                slot.recording(),
                final(slot).recording(),
            ) {
                (None, None) => r.id is None,
                (Some(before), Some(after)) => (before.current matches Some(id) ==> id
                    < before.attempts().len()) ==> {
                    &&& r.id == before.current
                    &&& same_counts(before, after)
                    &&& after.current == before.current
                    &&& after.report.complete == before.report.complete
                    &&& forall|i: int|
                        0 <= i < before.attempts().len() ==> #[trigger] after.attempts()[i] == (
                        if before.current is Some && i == before.current->0 {
                            Attempt { terminal_phase: Some(phase), ..before.attempts()[i] }
                        } else {
                            before.attempts()[i]
                        })
                },
                _ => false,
            },
        forall|slot: &mut RecorderSlot, r: ()| #[trigger]
            call_ensures(record_error, (slot, phase), r) ==> match (
                slot.recording(),
                final(slot).recording(),
            ) {
                (None, None) => true,
                (Some(before), Some(after)) => (before.current matches Some(id) ==> id
                    < before.attempts().len()) ==> {
                    &&& same_counts(before, after)
                    &&& after.current == before.current
                    &&& after.report.complete == before.report.complete
                    &&& forall|i: int|
                        0 <= i < before.attempts().len() ==> #[trigger] after.attempts()[i] == (
                        if before.current is Some && i == before.current->0 {
                            Attempt { error_phase: Some(phase), ..before.attempts()[i] }
                        } else {
                            before.attempts()[i]
                        })
                },
                _ => false,
            },
{
}

/// Leaving a phase adds one visit to it, and its duration, in the attempt that it was entered in:
/// the first visit to a phase makes its sample, and counts and durations stop at the largest
/// number. No other phase changes, nothing else of the attempt, and no other attempt.
pub proof fn lemma_leaving_a_phase(guard: PhaseGuard, elapsed: u128, at: usize)
    requires
        call_ensures(Phase::index, (guard.phase,), at),
    ensures
        forall|slot: &mut RecorderSlot, r: ()| #[trigger]
            call_ensures(PhaseGuard::exit, (guard, slot, elapsed), r) ==> match (
                slot.recording(),
                final(slot).recording(),
            ) {
                (None, None) => true,
                (Some(before), Some(after)) => (guard.id matches Some(id) ==> id < before.attempts().len())
                    ==> {
                    &&& same_counts(before, after)
                    &&& after.current == before.current
                    &&& after.report.complete == before.report.complete
                    &&& forall|i: int|
                        0 <= i < before.attempts().len() && !(guard.id is Some && i == guard.id->0)
                            ==> #[trigger] after.attempts()[i] == before.attempts()[i]
                    &&& guard.id is Some && guard.id->0 < before.attempts().len() ==> {
                        let id = guard.id->0;
                        let was = before.attempts()[id as int];
                        let is = after.attempts()[id as int];
                        let (calls, spent) = match was.phases@[at as int] {
                            Some(sample) => (sample.calls as int, sample.elapsed_ns as int),
                            None => (0, 0),
                        };
                        &&& is == (Attempt { phases: is.phases, ..was })
                        &&& forall|k: int|
                            0 <= k < 10 && k != at ==> #[trigger] is.phases@[k] == was.phases@[k]
                        &&& is.phases@[at as int] matches Some(sample) && {
                            &&& sample.calls == (if calls + 1 <= u32::MAX {
                                calls + 1
                            } else {
                                u32::MAX as int
                            })
                            &&& sample.elapsed_ns == (if spent + elapsed <= u64::MAX {
                                spent + elapsed
                            } else {
                                u64::MAX as int
                            })
                        }
                    }
                },
                _ => false,
            },
{
}

/// A scope is refused for a capacity of zero or of more than 65536, and within another scope. Then,
/// and where there is no room for it, the slot is as it was. Otherwise `run` was called with an
/// empty record, and what it left is the report: at most as many attempts as the capacity, in the
/// order in which they began and numbered so, each nested in an earlier one if in any, and as many
/// dropped as began beyond these, in which case the report is incomplete.
pub proof fn lemma_recording_scopes<T, F: FnOnce(RecorderSlot) -> (T, RecorderSlot)>(
    slot: RecorderSlot,
    capacity: usize,
    run: F,
    r: (RecorderSlot, Result<(T, Report), ScopeError>),
)
    requires
        call_ensures(with_recording::<T, F>, (slot, capacity, run), r),
    ensures
        r.0.recording() == slot.recording(),
        capacity == 0 || capacity > 65536 ==> r.1 == Err::<(T, Report), ScopeError>(
            ScopeError::InvalidCapacity,
        ),
        0 < capacity <= 65536 && slot.recording() is Some ==> r.1 == Err::<(T, Report), ScopeError>(
            ScopeError::NestedScope,
        ),
        0 < capacity <= 65536 && slot.recording() is None ==> r.1 is Ok || r.1 == Err::<
            (T, Report),
            ScopeError,
        >(ScopeError::Allocation),
        r.1 matches Ok((value, report)) ==> {
            &&& exists|start: RecorderSlot, end: RecorderSlot| #[trigger]
                call_ensures(run, (start,), (value, end)) && (start.recording() matches Some(fresh)
                    && fresh.capacity == capacity && fresh.attempts().len() == 0
                    && fresh.report.attempted == 0 && fresh.report.dropped == 0
                    && fresh.report.complete && fresh.current is None) && (
                end.recording() matches Some(left) && left.report == report)
            &&& report.attempts@.len() <= capacity
            &&& report.attempted == report.attempts@.len() + report.dropped
            &&& report.dropped > 0 ==> !report.complete && report.attempts@.len() == capacity
            &&& forall|i: int|
                0 <= i < report.attempts@.len() ==> (#[trigger] report.attempts@[i]).id == i && (
                report.attempts@[i].parent_id matches Some(parent) ==> parent < i)
            &&& report.phase_order@ =~= seq![
                Phase::Validate,
                Phase::TxGas,
                Phase::PreExecution,
                Phase::Execution,
                Phase::Vm,
                Phase::RuntimeOog,
                Phase::Settlement,
                Phase::Result,
                Phase::ErrorCleanup,
                Phase::Finalize,
            ]
        },
{
    if let Ok((value, report)) = r.1 {
        let order = report.phase_order@;
        assert(order[0].position() == 0 && order[1].position() == 1 && order[2].position() == 2
            && order[3].position() == 3 && order[4].position() == 4 && order[5].position() == 5
            && order[6].position() == 6 && order[7].position() == 7 && order[8].position() == 8
            && order[9].position() == 9);
    }
}

} // verus!
