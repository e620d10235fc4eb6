use arb_revm::phase_timing::{
    active_attempt, nanos, with_recording, AttemptGuard, Entry, ExecutionError, ExecutionStatus,
    Outcome, Phase, PhaseGuard, PhaseSample, RecorderSlot, ScopeError, MAX_ATTEMPTS,
};
use arb_revm::run::{run, should_finalize, RunCall, RunEvent, RunState};

/// One transaction that is executed and recorded, without phases.
fn execute(slot: &mut RecorderSlot) -> Result<ExecutionStatus, ExecutionError> {
    let result = Ok(ExecutionStatus::Success);
    let guard = AttemptGuard::begin(slot, Entry::Transact, 0, 0);
    guard.outcome(slot, &result);
    guard.finish(slot, 5, false);
    result
}

/// Takes a transaction through the calls that `events` lead to.
fn go(slot: &mut RecorderSlot, entry: Entry, events: &[RunEvent]) -> (Vec<RunCall>, RunState) {
    let guard = AttemptGuard::begin(slot, entry, 2, 9);
    let mut state = RunState::start();
    let mut calls = Vec::new();
    let mut failed = false;
    for event in events {
        calls.push(state.call);
        let phase = PhaseGuard::enter(slot, state.call.phase().unwrap());
        phase.exit(slot, 3);
        failed = failed || *event == RunEvent::Failed;
        state = run(state, *event, slot);
    }
    let result = if failed {
        Err(ExecutionError::Transaction)
    } else {
        Ok(ExecutionStatus::Success)
    };
    if should_finalize(entry, !failed) {
        let phase = PhaseGuard::enter(slot, Phase::Finalize);
        phase.exit(slot, 1);
    }
    guard.outcome(slot, &result);
    guard.finish(slot, 100, false);
    (calls, state)
}

const SUCCESS: [RunEvent; 6] = [
    RunEvent::Done,
    RunEvent::Done,
    RunEvent::PreExecuted(Some(4)),
    RunEvent::Executed(true),
    RunEvent::Done,
    RunEvent::Done,
];

#[test]
fn nested_attempt_overflow_does_not_charge_parent() {
    let (_, report) = with_recording(RecorderSlot::new(), 1, |mut slot| {
        let parent = AttemptGuard::begin(&mut slot, Entry::Transact, 0, 0);
        {
            let child = AttemptGuard::begin(&mut slot, Entry::Transact, 0, 0);
            let phase = PhaseGuard::enter(&mut slot, Phase::Vm);
            phase.exit(&mut slot, 10);
            child.finish(&mut slot, 20, false);
        }
        assert!(active_attempt(&slot));
        parent.outcome(&mut slot, &Err(ExecutionError::Transaction));
        parent.finish(&mut slot, 30, false);
        ((), slot)
    });
    let (_, report) = report.unwrap();
    assert_eq!(report.dropped, 1);
    assert!(report.attempts[0].phases[Phase::Vm.index()].is_none());
}

#[test]
fn nested_scope_rejected_overflow_explicit_and_inactive_path_unchanged() {
    let mut slot = RecorderSlot::new();
    assert!(!active_attempt(&slot));
    let baseline = execute(&mut slot);
    let (mut slot, recorded) = with_recording(slot, 1, |slot| {
        let (mut slot, nested) = with_recording(slot, 1, |_| -> ((), RecorderSlot) {
            panic!("must not run")
        });
        assert!(matches!(nested, Err(ScopeError::NestedScope)));
        assert_eq!(baseline, execute(&mut slot));
        assert_eq!(baseline, execute(&mut slot));
        ((), slot)
    });
    let (_, report) = recorded.unwrap();
    assert_eq!(report.attempted, 2);
    assert_eq!(report.dropped, 1);
    assert_eq!(report.attempts.len(), 1);
    assert!(!report.complete);
    assert!(!active_attempt(&slot));
    assert_eq!(baseline, execute(&mut slot));
    let (slot, refused) = with_recording(slot, 0, |slot| ((), slot));
    assert!(matches!(refused, Err(ScopeError::InvalidCapacity)));
    let (slot, refused) = with_recording(slot, MAX_ATTEMPTS + 1, |slot| ((), slot));
    assert!(matches!(refused, Err(ScopeError::InvalidCapacity)));
    assert!(!slot.is_recording());
}

#[test]
fn replay_retains_success_only_finalization() {
    for fails in [false, true] {
        let (_, recorded) = with_recording(RecorderSlot::new(), 1, |mut slot| {
            if fails {
                go(&mut slot, Entry::Replay, &[RunEvent::Failed, RunEvent::Done]);
            } else {
                go(&mut slot, Entry::Replay, &SUCCESS);
            }
            ((), slot)
        });
        let (_, report) = recorded.unwrap();
        let attempt = &report.attempts[0];
        assert_eq!(attempt.entry, Entry::Replay);
        assert_eq!(attempt.phases[Phase::Finalize.index()].is_some(), !fails);
        assert!(report.complete);
    }
}

#[test]
fn phases_of_success_and_failure_are_recorded() {
    let (_, recorded) = with_recording(RecorderSlot::new(), 2, |mut slot| {
        let (calls, state) = go(&mut slot, Entry::Transact, &SUCCESS);
        assert_eq!(
            calls,
            vec![
                RunCall::Validate,
                RunCall::TxGas,
                RunCall::PreExecution,
                RunCall::Execution,
                RunCall::Settlement,
                RunCall::Result,
            ]
        );
        assert_eq!(state.call, RunCall::Finished);
        assert_eq!(state.refund, 4);
        go(
            &mut slot,
            Entry::Transact,
            &[RunEvent::Failed, RunEvent::Done],
        );
        ((), slot)
    });
    let (_, report) = recorded.unwrap();
    assert!(report.complete);
    assert_eq!(report.phase_order, Phase::ALL);
    let a = &report.attempts[0];
    assert_eq!((a.id, a.parent_id, a.tx_type, a.nonce), (0, None, 2, 9));
    assert_eq!(a.outcome, Outcome::Success);
    assert_eq!(a.terminal_phase, Some(Phase::Finalize));
    assert_eq!(a.elapsed_ns, 100);
    for phase in [
        Phase::Validate,
        Phase::TxGas,
        Phase::PreExecution,
        Phase::Execution,
        Phase::Settlement,
        Phase::Result,
    ] {
        assert_eq!(
            a.phases[phase.index()],
            Some(PhaseSample {
                calls: 1,
                elapsed_ns: 3
            })
        );
    }
    assert!(a.error_phase.is_none());
    assert!(a.phases[Phase::ErrorCleanup.index()].is_none());
    assert!(a.phases[Phase::RuntimeOog.index()].is_none());
    let b = &report.attempts[1];
    assert_eq!(b.id, 1);
    assert_eq!(b.outcome, Outcome::InvalidTransaction);
    assert_eq!(b.error_phase, Some(Phase::Validate));
    assert!(b.phases[Phase::ErrorCleanup.index()].is_some());
    assert!(b.phases[Phase::Settlement.index()].is_none());
    assert_eq!(b.phases[Phase::Finalize.index()].unwrap().calls, 1);
}

#[test]
fn every_failing_call_is_the_error_phase() {
    for (before, phase) in [
        (&[][..], Phase::Validate),
        (&[RunEvent::Done, RunEvent::Done][..], Phase::PreExecution),
        (&SUCCESS[..3], Phase::Execution),
        (
            &[
                RunEvent::Done,
                RunEvent::Done,
                RunEvent::PreExecuted(None),
            ][..],
            Phase::RuntimeOog,
        ),
        (&SUCCESS[..4], Phase::Settlement),
        (&SUCCESS[..5], Phase::Result),
    ] {
        let (_, recorded) = with_recording(RecorderSlot::new(), 1, |mut slot| {
            let mut events = before.to_vec();
            events.push(RunEvent::Failed);
            events.push(RunEvent::Done);
            let (calls, state) = go(&mut slot, Entry::Transact, &events);
            assert_eq!(*calls.last().unwrap(), RunCall::CatchError);
            assert_eq!(state.call, RunCall::Finished);
            ((), slot)
        });
        assert_eq!(recorded.unwrap().1.attempts[0].error_phase, Some(phase));
    }
}

#[test]
fn running_out_of_gas_is_settled_too() {
    let mut slot = RecorderSlot::new();
    let (calls, state) = go(
        &mut slot,
        Entry::Transact,
        &[
            RunEvent::Done,
            RunEvent::Done,
            RunEvent::PreExecuted(None),
            RunEvent::Done,
            RunEvent::Done,
            RunEvent::Done,
        ],
    );
    assert_eq!(calls[3..], [RunCall::RuntimeOog, RunCall::Settlement, RunCall::Result]);
    assert_eq!(state.refund, 0);
    let (calls, state) = go(
        &mut slot,
        Entry::Transact,
        &[
            RunEvent::Done,
            RunEvent::Done,
            RunEvent::PreExecuted(Some(u64::MAX)),
            RunEvent::Executed(false),
            RunEvent::Done,
            RunEvent::Done,
            RunEvent::Done,
        ],
    );
    assert_eq!(
        calls[3..],
        [
            RunCall::Execution,
            RunCall::RuntimeOog,
            RunCall::Settlement,
            RunCall::Result
        ]
    );
    assert_eq!(state.refund, u64::MAX as i64);
    assert!(!slot.is_recording());
}

#[test]
fn every_result_has_its_outcome() {
    let cases = [
        (Ok(ExecutionStatus::Success), Outcome::Success),
        (Ok(ExecutionStatus::Revert), Outcome::Revert),
        (Ok(ExecutionStatus::Halt), Outcome::Halt),
        (
            Err(ExecutionError::Transaction),
            Outcome::InvalidTransaction,
        ),
        (Err(ExecutionError::Header), Outcome::HeaderError),
        (Err(ExecutionError::Database), Outcome::DatabaseError),
        (Err(ExecutionError::Custom), Outcome::CustomError),
        (Err(ExecutionError::CustomAny), Outcome::CustomError),
    ];
    for (result, outcome) in cases {
        let (_, recorded) = with_recording(RecorderSlot::new(), 1, |mut slot| {
            let guard = AttemptGuard::begin(&mut slot, Entry::Transact, 0, 0);
            guard.outcome(&mut slot, &result);
            guard.finish(&mut slot, 1, false);
            ((), slot)
        });
        let (_, report) = recorded.unwrap();
        assert_eq!(report.attempts[0].outcome, outcome);
        assert!(report.complete);
    }
}

#[test]
fn nested_attempts_restore_their_parent() {
    let (_, recorded) = with_recording(RecorderSlot::new(), 3, |mut slot| {
        let outer = AttemptGuard::begin(&mut slot, Entry::Transact, 0, 0);
        let inner = AttemptGuard::begin(&mut slot, Entry::Replay, 0, 1);
        PhaseGuard::enter(&mut slot, Phase::Vm).exit(&mut slot, 2);
        inner.finish(&mut slot, 4, true);
        PhaseGuard::enter(&mut slot, Phase::Vm).exit(&mut slot, u128::MAX);
        PhaseGuard::enter(&mut slot, Phase::Vm).exit(&mut slot, 7);
        outer.outcome(&mut slot, &Ok(ExecutionStatus::Success));
        outer.finish(&mut slot, 9, false);
        assert!(!active_attempt(&slot));
        ((), slot)
    });
    let (_, report) = recorded.unwrap();
    assert_eq!(report.attempts[1].parent_id, Some(report.attempts[0].id));
    assert_eq!(report.attempts[1].outcome, Outcome::Interrupted);
    assert!(!report.complete);
    assert_eq!(
        report.attempts[0].phases[Phase::Vm.index()],
        Some(PhaseSample {
            calls: 2,
            elapsed_ns: u64::MAX
        })
    );
    assert_eq!(
        report.attempts[1].phases[Phase::Vm.index()],
        Some(PhaseSample {
            calls: 1,
            elapsed_ns: 2
        })
    );
}

#[test]
fn durations_are_cut_off() {
    assert_eq!(nanos(17), 17);
    assert_eq!(nanos(u64::MAX as u128), u64::MAX);
    assert_eq!(nanos(u64::MAX as u128 + 1), u64::MAX);
}

#[test]
fn an_incomplete_report_stays_incomplete() {
    let (_, recorded) = with_recording(RecorderSlot::new(), 3, |mut slot| {
        assert!(slot.can_begin());
        let interrupted = AttemptGuard::begin(&mut slot, Entry::Transact, 0, 0);
        interrupted.outcome(&mut slot, &Ok(ExecutionStatus::Success));
        interrupted.finish(&mut slot, 1, true);
        go(&mut slot, Entry::Transact, &SUCCESS);
        ((), slot)
    });
    let (_, report) = recorded.unwrap();
    assert_eq!(report.dropped, 0);
    assert_eq!(report.attempts[0].outcome, Outcome::Interrupted);
    assert_eq!(report.attempts[1].outcome, Outcome::Success);
    assert!(!report.complete);
}
