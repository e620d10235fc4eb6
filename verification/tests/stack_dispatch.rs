use arb_revm::evm::{ArbEvm, FrameRoute, FrameRunEvent};
use arb_revm::compiled_frame::registry::DispatchHits;
use arb_revm::spans::FrameInput;
use arb_revm::spec::{ArbSpecId, GasParams};
use arb_revm::stack_dispatch::{
    record_cost, run_direct, CanonicalStackInstructions, FrameAction, FrameEvent,
    InstructionResult, Kernel, KernelExit, StackDispatchMode, StackDispatchStats,
};
use revm::bytecode::Bytecode;
use revm::interpreter::host::DummyHost;
use revm::interpreter::instructions::{gas_table, instruction_table, GasTable};
use revm::interpreter::interpreter::{EthInterpreter, ExtBytecode};
use revm::interpreter::interpreter_types::{Jumps, LoopControl};
use revm::interpreter::{Gas, InstructionContext, Interpreter, InterpreterAction, Stack};
use revm::primitives::{Bytes, U256};

type CanonicalEvm = ArbEvm<(), (), CanonicalStackInstructions, (), (), (), u64, u64>;

fn canonical(mode: StackDispatchMode) -> CanonicalEvm {
    CanonicalEvm::new_canonical((), (), ArbSpecId::new(40, 12).unwrap(), mode, (), ())
}

fn interpreter(code: &[u8], gas: u64, stack: &[U256]) -> Interpreter {
    let mut i = Interpreter::default_ext();
    i.bytecode = ExtBytecode::new(Bytecode::new_raw(Bytes::copy_from_slice(code)));
    i.gas = Gas::new(gas);
    i.stack.data_mut().extend_from_slice(stack);
    i
}

fn revm_result(result: InstructionResult) -> revm::interpreter::InstructionResult {
    match result {
        InstructionResult::OutOfGas => revm::interpreter::InstructionResult::OutOfGas,
        InstructionResult::StackUnderflow => revm::interpreter::InstructionResult::StackUnderflow,
        InstructionResult::StackOverflow => revm::interpreter::InstructionResult::StackOverflow,
    }
}

/// Runs a frame by the kernel, and by the table where the kernel hands over.
fn run_kernel<const COUNT: bool>(
    interpreter: &mut Interpreter,
    code: &[u8],
    costs: &GasTable,
) -> (InterpreterAction, u64) {
    let table = instruction_table::<EthInterpreter, DummyHost>();
    let mut host = DummyHost::default();
    let mut total = 0;
    let error = loop {
        let before = interpreter.gas.remaining();
        let mut kernel = Kernel {
            stack: std::mem::replace(&mut interpreter.stack, Stack::new()),
            pc: interpreter.bytecode.pc(),
            gas: before,
        };
        let (exit, hits) = run_direct::<COUNT>(code, costs, &mut kernel);
        total += hits;
        interpreter.stack = kernel.stack;
        interpreter.bytecode.absolute_jump(kernel.pc);
        let _ = interpreter
            .gas
            .record_cost_unsafe(before.wrapping_sub(kernel.gas));
        match exit {
            KernelExit::Halt(error) => break revm_result(error),
            KernelExit::Table(op) => {
                let context = InstructionContext {
                    interpreter: &mut *interpreter,
                    host: &mut host,
                };
                if let Err(error) = table[op as usize].execute(context) {
                    break error;
                }
            }
        }
    };
    if interpreter.bytecode.action().is_none() {
        interpreter.halt(error);
    }
    (interpreter.take_next_action(), total)
}

fn compare(code: &[u8], gas: u64, stack: &[U256]) {
    let table = instruction_table::<EthInterpreter, DummyHost>();
    let costs = gas_table();
    let mut baseline = interpreter(code, gas, stack);
    let mut direct = interpreter(code, gas, stack);
    let expected = baseline.run_plain(&table, &costs, &mut DummyHost::default());
    let (actual, _) = run_kernel::<true>(&mut direct, code, &costs);
    let mut uncounted = interpreter(code, gas, stack);
    let (without_counts, hits) = run_kernel::<false>(&mut uncounted, code, &costs);
    assert_eq!(without_counts, actual);
    assert_eq!(hits, 0);
    assert_eq!(uncounted.stack.data(), direct.stack.data());
    assert_eq!(uncounted.bytecode.pc(), direct.bytecode.pc());
    assert_eq!(uncounted.gas, direct.gas);
    assert_eq!(actual, expected, "code={code:x?} gas={gas}");
    assert_eq!(direct.stack.data(), baseline.stack.data());
    assert_eq!(direct.bytecode.pc(), baseline.bytecode.pc());
    assert_eq!(direct.gas, baseline.gas);
}

#[test]
fn truncated_push_and_exact_static_gas_match() {
    for code in [
        &[0x60][..],
        &[0x61],
        &[0x61, 0xab],
        &[0x60, 0x42, 0x00],
        &[0x61, 1, 2, 0],
    ] {
        for gas in [0, 1, 2, 3, 4, 100] {
            compare(code, gas, &[]);
        }
    }
    for gas in [0, 1, 2, 3] {
        compare(&[0x50, 0], gas, &[U256::from(1)]);
    }
}

#[test]
fn stack_bounds_and_mixed_dispatch_match() {
    for op in [0x50, 0x60, 0x61, 0x80, 0x81, 0x82, 0x90, 0x91] {
        for count in [0, 1, 2, 3, 1023, 1024] {
            compare(&[op, 0, 0, 0], 1000, &vec![U256::from(7); count]);
        }
    }
    compare(&[0x60, 1, 0x60, 2, 0x01, 0x80, 0x90, 0x50, 0], 100, &[]);
    compare(&[0x60, 0, 0x56], 100, &[]); // invalid JUMP action/halt path
}

#[test]
fn distinct_words_move_as_they_do_in_the_interpreter() {
    let words = [U256::from(1), U256::MAX, U256::from(3), U256::from(4)];
    for op in [0x50, 0x80, 0x81, 0x82, 0x90, 0x91] {
        compare(&[op, 0x00], 100, &words);
    }
    compare(&[0x61, 0xab, 0xcd, 0x60, 0xef, 0x91, 0x00], 100, &words);
}

#[test]
fn a_stack_without_room_grows() {
    let costs = gas_table();
    let mut kernel = Kernel {
        stack: Stack::invalid(),
        pc: 0,
        gas: 100,
    };
    let (exit, hits) = run_direct::<true>(&[0x60, 9, 0x80, 0x00], &costs, &mut kernel);
    assert_eq!(exit, KernelExit::Table(0));
    assert_eq!(hits, 2);
    assert_eq!(kernel.stack.data(), &[U256::from(9), U256::from(9)]);
    assert_eq!(kernel.pc, 4);
    assert_eq!(kernel.gas, 94);
}

#[test]
fn static_gas_failures_do_not_count_but_stack_errors_do() {
    let costs = gas_table();
    let mut kernel = Kernel {
        stack: Stack::new(),
        pc: 0,
        gas: 2,
    };
    assert_eq!(
        run_direct::<true>(&[0x60, 1], &costs, &mut kernel),
        (KernelExit::Halt(InstructionResult::OutOfGas), 0)
    );
    let mut kernel = Kernel {
        stack: Stack::new(),
        pc: 0,
        gas: 100,
    };
    assert_eq!(
        run_direct::<true>(&[0x50], &costs, &mut kernel),
        (KernelExit::Halt(InstructionResult::StackUnderflow), 1)
    );
    let mut gas = 5;
    assert!(!record_cost(&mut gas, 5));
    assert!(record_cost(&mut gas, 1));
    assert_eq!(gas, u64::MAX);
}

#[test]
fn frames_collect_evidence_by_mode() {
    let code = [0x60, 1, 0x60, 2, 0x01, 0x80, 0x00];
    for mode in [
        StackDispatchMode::Indirect,
        StackDispatchMode::Direct,
        StackDispatchMode::DirectUncounted,
    ] {
        let mut evm = canonical(mode);
        let provider = &mut evm.inner_mut().instruction;
        let mut hits = 0;
        let mut kernel = Kernel {
            stack: Stack::new(),
            pc: 0,
            gas: 1000,
        };
        let action = provider.run_frame(FrameEvent::Entered, &code, &mut kernel, &mut hits);
        if mode == StackDispatchMode::Indirect {
            assert_eq!(action, FrameAction::RunPlain);
            assert_eq!(provider.stats(), StackDispatchStats::default());
            continue;
        }
        assert_eq!(action, FrameAction::Execute(0x01));
        assert_eq!(provider.stats(), StackDispatchStats::default());
        let action = provider.run_frame(FrameEvent::TableContinues, &code, &mut kernel, &mut hits);
        assert_eq!(action, FrameAction::Execute(0x00));
        let action = provider.run_frame(FrameEvent::TableEnds, &code, &mut kernel, &mut hits);
        assert_eq!(action, FrameAction::Finish(None));
        let steps = if mode == StackDispatchMode::Direct { 3 } else { 0 };
        assert_eq!(
            provider.stats(),
            StackDispatchStats {
                direct_frames: 1,
                direct_steps: steps
            }
        );
        assert_eq!(provider.mode(), mode);
        assert_eq!(provider.clone().stats(), StackDispatchStats::default());
        assert_eq!(provider.clone().mode(), mode);
    }
}

#[test]
fn a_halt_in_the_kernel_ends_the_frame() {
    let mut evm = canonical(StackDispatchMode::Direct);
    let provider = &mut evm.inner_mut().instruction;
    let mut hits = 0;
    let mut kernel = Kernel {
        stack: Stack::new(),
        pc: 0,
        gas: 1000,
    };
    let action = provider.run_frame(FrameEvent::Entered, &[0x90], &mut kernel, &mut hits);
    assert_eq!(
        action,
        FrameAction::Finish(Some(InstructionResult::StackUnderflow))
    );
    assert_eq!(
        provider.stats(),
        StackDispatchStats {
            direct_frames: 1,
            direct_steps: 1
        }
    );
}

#[test]
fn indirect_is_the_default_mode() {
    assert_eq!(StackDispatchMode::default(), StackDispatchMode::Indirect);
}

fn route(evm: &CanonicalEvm, code: &[u8]) -> FrameRoute<u64> {
    let spec = ArbSpecId::new(40, 12).unwrap();
    evm.frame_run(
        FrameRunEvent::Entered { stylus: false },
        spec,
        &GasParams::new_spec(spec),
        &FrameInput::Create,
        code,
        &mut None,
        &mut DispatchHits::new(),
    )
}

#[test]
fn inspector_and_from_inner_do_not_direct_dispatch() {
    let code = [0x60, 1, 0x50, 0];
    // An inspected frame is run without being routed, which leaves no evidence.
    let inspected = canonical(StackDispatchMode::Direct).with_inspector(());
    assert_eq!(
        inspected.inner().instruction.stats(),
        StackDispatchStats::default()
    );
    let uncounted = canonical(StackDispatchMode::DirectUncounted);
    assert_eq!(
        uncounted.inner().instruction.stats(),
        StackDispatchStats::default()
    );

    let evm = canonical(StackDispatchMode::Direct);
    let wrapped = CanonicalEvm::from_inner(arb_revm::evm::Evm {
        ctx: (),
        inspector: (),
        instruction: evm.inner().instruction.clone(),
        precompiles: (),
        frame_stack: (),
    });
    assert_eq!(route(&wrapped, &code), FrameRoute::Interpreter);
    assert_eq!(
        wrapped.inner().instruction.stats(),
        StackDispatchStats::default()
    );
}

#[test]
fn other_inspectors_and_precompiles_keep_the_kernel() {
    let evm = canonical(StackDispatchMode::Direct);
    assert_eq!(route(&evm, &[0x00]), FrameRoute::StackKernel);
    let evm = evm.with_inspector(()).with_precompiles(());
    assert_eq!(route(&evm, &[0x00]), FrameRoute::StackKernel);
}
