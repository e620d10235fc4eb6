use arb_revm::compiled_frame::eligibility::bytecode_ineligible;
use arb_revm::compiled_frame::host::CompiledNumberHost;
use arb_revm::compiled_frame::registry::{
    CompiledFrameRegistry, CompilerSettings, DispatchHits, JitJob,
};
use arb_revm::evm::{ArbEvm, FrameRoute, FrameRunEvent};
use arb_revm::instructions::{
    arb_block_hash, arb_block_number, canonical_arb_instructions, ArbInstructions,
    InstructionEntry, ARB_INSTRUCTION_OVERRIDES,
};
use arb_revm::primitives::{Address, B256};
use arb_revm::spans::{span_address, CallInput, CallScheme, FrameInput, ProgramSpans};
use arb_revm::spec::{ArbSpecId, GasParams};
use arb_revm::stack_dispatch::InstructionResult;
use arb_revm::words::U256;
use revm::interpreter::Stack;
use revm::primitives::hardfork::SpecId;
use std::sync::Arc;

type Registry = CompiledFrameRegistry<(), u64, u64>;
type TestEvm = ArbEvm<u8, u16, ArbInstructions, u32, u64, (), u64, u64>;

fn spec() -> ArbSpecId {
    ArbSpecId::new(40, SpecId::PRAGUE as u8).unwrap()
}

fn registry(spec: ArbSpecId, codes: &[&[u8]]) -> Registry {
    let mut registry =
        Registry::new(spec, "x86_64", "linux", |_: CompilerSettings| Ok(())).unwrap();
    for (i, code) in codes.iter().enumerate() {
        registry
            .compile(
                code,
                |_: &mut (), _: JitJob| Ok(i as u64 + 100),
                |_: &mut ()| 0,
                |_: &mut ()| Ok(()),
            )
            .unwrap();
    }
    registry
}

fn evm() -> TestEvm {
    TestEvm::new(1, 2, spec(), 3, 4)
}

fn call(address: u8, scheme: CallScheme) -> FrameInput {
    FrameInput::Call(CallInput {
        scheme,
        target_address: Address::from_array([address; 20]),
    })
}

fn route(
    evm: &TestEvm,
    event: FrameRunEvent,
    live: ArbSpecId,
    input: &FrameInput,
    code: &[u8],
    hits: &mut DispatchHits,
) -> FrameRoute<u64> {
    evm.frame_run(
        event,
        live,
        &GasParams::new_spec(live),
        input,
        code,
        &mut None,
        hits,
    )
}

#[test]
fn arb_overrides_are_exactly_number_and_blockhash() {
    let arb = canonical_arb_instructions(spec());
    let base_gas = revm::interpreter::instructions::gas_table_spec(SpecId::PRAGUE);
    let mut diffs = Vec::new();
    for op in 0u8..=255 {
        let fn_diff = arb.entry(op) != InstructionEntry::Mainnet;
        let gas_diff = arb.gas_table()[op as usize] != base_gas[op as usize];
        if fn_diff || gas_diff {
            diffs.push(op);
        }
    }
    assert_eq!(
        diffs.as_slice(),
        ARB_INSTRUCTION_OVERRIDES,
        "every instruction-table/gas-table difference must be in ARB_INSTRUCTION_OVERRIDES"
    );
    assert_eq!(arb.entry(0x43), InstructionEntry::L1BlockNumber);
    assert_eq!(arb.entry(0x40), InstructionEntry::L1BlockHash);
    assert_eq!(arb.gas_table()[0x43], 2);
    assert_eq!(arb.gas_table()[0x40], 20);
}

#[test]
fn gas_tables_follow_the_hardfork() {
    for number in 0..=14u8 {
        let spec = ArbSpecId::new(1, number).unwrap();
        let fork = SpecId::try_from_u8(number).unwrap();
        assert_eq!(spec.into_eth_spec(), number);
        assert_eq!(spec.arbos_version(), 1);
        assert_eq!(
            &GasParams::new_spec(spec).table,
            revm::context_interface::cfg::GasParams::new_spec(fork).table()
        );
        let table = canonical_arb_instructions(spec);
        assert_eq!(
            table.gas_table()[0x54],
            revm::interpreter::instructions::gas_table_spec(fork)[0x54]
        );
    }
    assert!(ArbSpecId::new(1, 15).is_none());
    let old = GasParams::new_spec(ArbSpecId::new(1, 0).unwrap());
    let new = GasParams::new_spec(ArbSpecId::new(1, 12).unwrap());
    assert!(old.same(&old) && !old.same(&new));
}

#[test]
fn number_pushes_the_parent_chains_block() {
    let mut stack = Stack::new();
    assert_eq!(arb_block_number(&mut stack, 777), Ok(()));
    assert_eq!(stack.data(), &[revm::primitives::U256::from(777)]);
    stack
        .data_mut()
        .resize(1024, revm::primitives::U256::from(1));
    assert_eq!(
        arb_block_number(&mut stack, 778),
        Err(InstructionResult::StackOverflow)
    );
    assert_eq!(stack.len(), 1024);
}

#[test]
fn blockhash_replaces_the_number_by_what_was_found() {
    let mut stack = Stack::new();
    assert_eq!(
        arb_block_hash(&mut stack, |_| None),
        Err(InstructionResult::StackUnderflow)
    );
    stack.data_mut().push(revm::primitives::U256::from(5));
    stack.data_mut().push(revm::primitives::U256::from(777));
    assert_eq!(
        arb_block_hash(&mut stack, |number| {
            assert_eq!(number, 777);
            Some(B256::from_array([0x42; 32]))
        }),
        Ok(())
    );
    let expected = revm::primitives::U256::from_be_bytes([0x42; 32]);
    assert_eq!(stack.data(), &[revm::primitives::U256::from(5), expected]);
    // A word that is no block number asks for the largest one, and a failure gives zero.
    assert_eq!(
        arb_block_hash(&mut stack, |number| {
            assert_eq!(number, u64::MAX);
            None
        }),
        Ok(())
    );
    assert_eq!(
        stack.data(),
        &[
            revm::primitives::U256::from(5),
            revm::primitives::U256::ZERO
        ]
    );
}

#[test]
fn ring_adapter_maps_journal_failure_to_some_zero() {
    let host = CompiledNumberHost::new_arb_ring(777);
    let fail = |_: u64| -> Option<B256> { None };
    let never = |_: u64| -> Option<B256> { panic!("must not call L2 database block_hash") };
    assert_eq!(host.block_hash(777, never, fail), Some(B256::zero()));
    assert_eq!(host.block_hash(u64::MAX, never, fail), Some(B256::zero()));
    assert_eq!(
        host.block_hash(777, never, |_| Some(B256::from_array([1; 32]))),
        Some(B256::from_array([1; 32]))
    );
}

#[test]
fn adapter_number_is_l1_and_does_not_write_inner_block_number() {
    let inner_block_number = U256::from_u64(1000);
    {
        let adapter = CompiledNumberHost::new(777);
        assert_eq!(adapter.block_number(), U256::from_u64(777));
        assert_eq!(
            CompiledNumberHost::new_arb_ring(777).block_number(),
            U256::from_u64(777)
        );
    }
    assert_eq!(inner_block_number, U256::from_u64(1000));
}

#[test]
fn forwarding_adapter_passes_block_hashes_on() {
    let host = CompiledNumberHost::new(777);
    let never = |_: u64| -> Option<B256> { panic!("must not read the ring") };
    assert_eq!(host.block_hash(5, |_| None, never), None);
    assert_eq!(
        host.block_hash(5, |n| Some(B256::from_array([n as u8; 32])), never),
        Some(B256::from_array([5; 32]))
    );
}

#[test]
fn spans_count_frames_that_act_as_their_target() {
    let one = Address::from_array([1; 20]);
    assert_eq!(span_address(&call(1, CallScheme::Call)), Some(one));
    assert_eq!(span_address(&call(1, CallScheme::StaticCall)), Some(one));
    assert_eq!(span_address(&call(1, CallScheme::DelegateCall)), None);
    assert_eq!(span_address(&call(1, CallScheme::CallCode)), None);
    assert_eq!(span_address(&FrameInput::Create), None);
    assert_eq!(span_address(&FrameInput::Empty), None);

    let mut spans = ProgramSpans::new();
    spans.frame_init(&call(1, CallScheme::Call), true);
    spans.frame_init(&call(2, CallScheme::Call), true);
    spans.frame_init(&call(1, CallScheme::StaticCall), true);
    spans.frame_init(&call(1, CallScheme::DelegateCall), true);
    assert_eq!(spans.get(one), 2);
    // Answered at once: no frame, and the result goes to one that still runs.
    spans.frame_init(&call(1, CallScheme::Call), false);
    spans.frame_return_result(&call(1, CallScheme::DelegateCall), false);
    assert_eq!(spans.get(one), 2);
    spans.frame_return_result(&call(1, CallScheme::DelegateCall), true);
    spans.frame_return_result(&call(1, CallScheme::StaticCall), true);
    assert_eq!(spans.get(one), 1);
    spans.frame_return_result(&call(2, CallScheme::Call), true);
    spans.frame_return_result(&call(1, CallScheme::Call), true);
    assert_eq!(spans.get(one), 0);
    assert_eq!(spans.get(Address::from_array([2; 20])), 0);
    // Nothing is open: closing again changes nothing.
    spans.frame_return_result(&call(1, CallScheme::Call), true);
    assert_eq!(spans.get(one), 0);
}

#[test]
fn frames_are_routed_in_order() {
    let code: &[u8] = &[0x60, 0x01, 0x00];
    let input = call(9, CallScheme::Call);
    let entered = FrameRunEvent::Entered { stylus: false };
    let mut hits = DispatchHits::new();
    let mut evm = evm();
    assert!(evm.compiled_programs().is_none());
    assert_eq!(
        route(&evm, entered, spec(), &input, code, &mut hits),
        FrameRoute::Interpreter
    );
    let shared = registry(spec(), &[code]).into_shared();
    evm.set_compiled_programs(Some(shared.clone()));
    assert!(Arc::ptr_eq(evm.compiled_programs().unwrap(), &shared));
    // A Stylus program comes first, and what it declines is still compiled.
    assert_eq!(
        route(
            &evm,
            FrameRunEvent::Entered { stylus: true },
            spec(),
            &input,
            code,
            &mut hits
        ),
        FrameRoute::Stylus
    );
    assert_eq!(shared.dispatch_hits(&hits), 0);
    assert_eq!(
        route(
            &evm,
            FrameRunEvent::StylusDeclined,
            spec(),
            &input,
            code,
            &mut hits
        ),
        FrameRoute::Compiled(100)
    );
    assert_eq!(shared.dispatch_hits(&hits), 1);
    // Creations, unknown code and other rules are left to the interpreter.
    assert_eq!(
        route(&evm, entered, spec(), &FrameInput::Create, code, &mut hits),
        FrameRoute::Interpreter
    );
    assert_eq!(
        route(&evm, entered, spec(), &input, &[0x00], &mut hits),
        FrameRoute::Interpreter
    );
    assert_eq!(
        route(
            &evm,
            entered,
            ArbSpecId::new(20, SpecId::PRAGUE as u8).unwrap(),
            &input,
            code,
            &mut hits
        ),
        FrameRoute::Interpreter
    );
    assert_eq!(shared.dispatch_hits(&hits), 1);
    evm.set_compiled_programs(Some(registry(spec(), &[]).into_shared()));
    assert_eq!(
        route(&evm, entered, spec(), &input, code, &mut hits),
        FrameRoute::Interpreter
    );
}

/// PUSH1 2 PUSH1 3 ADD PUSH1 0 MSTORE PUSH1 32 PUSH1 0 RETURN
const ARITHMETIC: &[u8] = &[
    0x60, 0x02, 0x60, 0x03, 0x01, 0x60, 0x00, 0x52, 0x60, 0x20, 0x60, 0x00, 0xf3,
];

/// PUSH1 0x2a PUSH1 0 SSTORE STOP
const SSTORE: &[u8] = &[0x60, 0x2a, 0x60, 0x00, 0x55, 0x00];

/// Enters a frame with `code`, and tells how it is run and how often a program was found.
fn enter(programs: Option<Arc<Registry>>, input: &FrameInput, code: &[u8]) -> (FrameRoute<u64>, u64) {
    let mut hits = DispatchHits::new();
    let mut evm = evm();
    evm.set_compiled_programs(programs.clone());
    let entered = FrameRunEvent::Entered { stylus: false };
    let route = route(&evm, entered, spec(), input, code, &mut hits);
    (route, programs.map_or(0, |programs| programs.dispatch_hits(&hits)))
}

#[test]
fn empty_registry_uses_interpreter() {
    let empty = registry(spec(), &[]).into_shared();
    let input = call(0xcc, CallScheme::Call);
    let with_empty = enter(Some(empty), &input, ARITHMETIC);
    let without = enter(None, &input, ARITHMETIC);
    assert_eq!(without, (FrameRoute::Interpreter, 0));
    assert_eq!(without, with_empty);
}

#[test]
fn initcode_create_does_not_dispatch_compiled_program() {
    let programs = registry(spec(), &[ARITHMETIC]).into_shared();
    assert_eq!(
        enter(Some(programs), &FrameInput::Create, ARITHMETIC),
        (FrameRoute::Interpreter, 0),
        "CREATE/initcode must fall back to the interpreter"
    );
}

#[test]
fn unknown_codehash_does_not_dispatch() {
    let programs = registry(spec(), &[ARITHMETIC]).into_shared();
    let input = call(0xcc, CallScheme::Call);
    assert_eq!(
        enter(Some(programs.clone()), &input, SSTORE),
        (FrameRoute::Interpreter, 0)
    );
    assert_eq!(
        enter(Some(programs), &input, ARITHMETIC),
        (FrameRoute::Compiled(100), 1)
    );
}

#[test]
fn spec_mismatch_does_not_dispatch() {
    // The live rules are those of ArbOS 40; the programs are bound to ArbOS 20.
    let bound = ArbSpecId::new(20, SpecId::PRAGUE as u8).unwrap();
    let programs = registry(bound, &[ARITHMETIC]).into_shared();
    assert_eq!(
        enter(Some(programs), &call(0xcc, CallScheme::Call), ARITHMETIC),
        (FrameRoute::Interpreter, 0)
    );
}

#[test]
fn gas_constants_of_another_table_are_not_accepted() {
    let code: &[u8] = &[0x00];
    let programs = registry(spec(), &[code]);
    let mut gas_params = GasParams::new_spec(spec());
    assert!(programs.accepts_context(spec(), &gas_params));
    gas_params.table[7] ^= 1;
    assert!(!programs.accepts_context(spec(), &gas_params));
}

#[test]
fn a_kept_hash_is_used_and_a_missing_one_is_kept() {
    let code: &[u8] = &[0x60, 0x01, 0x00];
    let mut evm = evm();
    evm.set_compiled_programs(Some(registry(spec(), &[code]).into_shared()));
    let input = call(9, CallScheme::Call);
    let gas_params = GasParams::new_spec(spec());
    let mut kept = None;
    let mut hits = DispatchHits::new();
    assert_eq!(
        evm.try_compiled_frame_action(spec(), &gas_params, &input, code, &mut kept, &mut hits),
        Some(100)
    );
    assert_eq!(
        kept,
        Some(B256::from_array(revm::primitives::keccak256(code).0))
    );
    let mut other = Some(B256::zero());
    assert_eq!(
        evm.try_compiled_frame_action(spec(), &gas_params, &input, code, &mut other, &mut hits),
        None
    );
    assert_eq!(other, Some(B256::zero()));
}

#[test]
fn only_the_interpreter_marks_its_own_frames() {
    assert!(FrameRoute::Compiled(1u64).marks_finished(true));
    assert!(FrameRoute::<u64>::Stylus.marks_finished(true));
    assert!(FrameRoute::<u64>::StackKernel.marks_finished(true));
    assert!(!FrameRoute::<u64>::StackKernel.marks_finished(false));
    assert!(!FrameRoute::<u64>::Interpreter.marks_finished(true));
}

#[test]
fn parts_are_kept() {
    let evm = evm();
    assert_eq!(evm.inner().ctx, 1);
    assert_eq!(evm.inner().precompiles, 3);
    assert_eq!(evm.inner().frame_stack, 4);
    let evm = evm.with_inspector("other").with_precompiles('p');
    assert_eq!(evm.inner().precompiles, 'p');
    assert_eq!(evm.into_inspector(), "other");
    assert_eq!(self::evm().into_context(), 1);
}

#[test]
fn push_immediate_with_number_byte_compiles_and_matches() {
    // PUSH1 0x43 PUSH1 0 MSTORE PUSH1 32 PUSH1 0 RETURN
    let code: &[u8] = &[0x60, 0x43, 0x60, 0x00, 0x52, 0x60, 0x20, 0x60, 0x00, 0xf3];
    assert!(bytecode_ineligible(code).is_none());
    let programs = registry(spec(), &[code]).into_shared();
    let input = call(0xcc, CallScheme::Call);
    assert_eq!(enter(None, &input, code), (FrameRoute::Interpreter, 0));
    let (route, hits) = enter(Some(programs), &input, code);
    assert_eq!(route, FrameRoute::Compiled(100));
    assert!(hits >= 1);
}

fn hash_of(code: &[u8]) -> B256 {
    B256::from_array(revm::primitives::keccak256(code).0)
}

/// CALL STOP
const CALLER: &[u8] = &[0xf1, 0x00];

/// What a frame is left with, by its code and by how often it was run: the first run of the
/// caller asks for the call, the second adds one to what the callee gave.
fn stepped(code: &[u8], resumed: bool, returned: u64) -> u64 {
    match (code == CALLER, resumed) {
        (true, false) => 0,
        (true, true) => returned + 1,
        (false, _) => 5,
    }
}

#[test]
fn programs_change_no_execution_and_every_run_counts() {
    let programs = registry(spec(), &[CALLER, ARITHMETIC]).into_shared();
    let execute = |programs: Option<Arc<Registry>>| {
        let mut evm = evm();
        evm.set_compiled_programs(programs);
        let mut hits = DispatchHits::new();
        let entered = FrameRunEvent::Entered { stylus: false };
        let mut returned = 0;
        let mut compiled = Vec::new();
        for (code, resumed) in [(CALLER, false), (ARITHMETIC, false), (CALLER, true)] {
            let input = call(0xcc, CallScheme::Call);
            returned = match route(&evm, entered, spec(), &input, code, &mut hits) {
                FrameRoute::Compiled(100) => {
                    compiled.push(100);
                    stepped(CALLER, resumed, returned)
                }
                FrameRoute::Compiled(program) => {
                    compiled.push(program);
                    stepped(ARITHMETIC, resumed, returned)
                }
                _ => stepped(code, resumed, returned),
            };
        }
        (returned, compiled, hits)
    };
    let (with_programs, compiled, hits) = execute(Some(programs.clone()));
    let (without, interpreted, _) = execute(None);
    assert_eq!(with_programs, 6);
    assert_eq!(with_programs, without);
    assert_eq!(compiled, [100, 101, 100]);
    assert!(interpreted.is_empty());
    assert_eq!(programs.dispatch_hits_for(&hits, hash_of(CALLER)), 2);
    assert_eq!(programs.dispatch_hits_for(&hits, hash_of(ARITHMETIC)), 1);
    assert_eq!(programs.dispatch_hits(&hits), 3);
}
