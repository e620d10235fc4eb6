use arb_revm::compiled_frame::eligibility::{bytecode_ineligible, IneligibleReason};
use arb_revm::compiled_frame::registry::{
    BlockHashSemantics, CompiledFrameError, CompiledFrameIdentity, CompiledFrameRegistry,
    CompilerSettings, DispatchHits, JitJob, COMPILER_IDENTITY,
};
use arb_revm::primitives::B256;
use arb_revm::spec::{ArbSpecId, GasParams};

/// A compiler that numbers the programs that it is asked for.
struct Numbering {
    settings: CompilerSettings,
    jobs: Vec<(String, Vec<u8>, u8)>,
    cleared: u64,
}

type Registry = CompiledFrameRegistry<Numbering, u64, u64>;

fn spec() -> ArbSpecId {
    ArbSpecId::new(40, 12).unwrap()
}

fn numbering(settings: CompilerSettings) -> Result<Numbering, String> {
    Ok(Numbering {
        settings,
        jobs: Vec::new(),
        cleared: 0,
    })
}

fn jit(compiler: &mut Numbering, job: JitJob) -> Result<u64, String> {
    compiler
        .jobs
        .push((job.name, job.bytecode.to_vec(), job.eth_spec));
    Ok(compiler.jobs.len() as u64)
}

fn time(compiler: &mut Numbering) -> u64 {
    10 * compiler.jobs.len() as u64
}

fn clear(compiler: &mut Numbering) -> Result<(), String> {
    compiler.cleared += 1;
    Ok(())
}

fn compile(registry: &mut Registry, code: &[u8]) -> Result<B256, CompiledFrameError> {
    registry.compile(code, jit, time, clear)
}

fn new_registry() -> Registry {
    Registry::new(spec(), "x86_64", "linux", numbering).unwrap()
}

/// NUMBER PUSH1 0 SSTORE STOP
fn number_sstore_code() -> Vec<u8> {
    vec![0x43, 0x60, 0x00, 0x55, 0x00]
}

fn hash_of(code: &[u8]) -> B256 {
    B256::from_array(revm::primitives::keccak256(code).0)
}

#[test]
fn simple_perf_is_explicit_and_bound_before_compilation() {
    let ordinary = new_registry();
    let diagnostic =
        Registry::new_with_simple_perf(spec(), "x86_64", "linux", numbering).unwrap();
    let ordinary_after = new_registry();
    for registry in [&ordinary, &ordinary_after] {
        assert!(!registry.compiler().settings.simple_perf);
        assert!(!registry.identity().simple_perf_requested);
        assert!(registry.is_empty());
        assert!(registry.has_arbos_ring_semantics());
    }
    assert!(diagnostic.compiler().settings.simple_perf);
    assert!(diagnostic.identity().simple_perf_requested);
    assert!(diagnostic.is_empty());
    assert!(diagnostic.has_arbos_ring_semantics());
}

#[test]
fn bridged_opcodes_admitted_at_compile() {
    let mut registry = new_registry();
    let number = number_sstore_code();
    let blockhash = vec![0x60, 0x01, 0x40, 0x00];
    assert!(bytecode_ineligible(&number).is_none());
    assert!(bytecode_ineligible(&blockhash).is_none());
    assert!(compile(&mut registry, &number).is_ok());
    assert!(compile(&mut registry, &blockhash).is_ok());
}

#[test]
fn blockhash_admitted_by_ring_bound_registry() {
    let mut registry = new_registry();
    let blockhash_only = vec![0x60, 0x01, 0x40, 0x00];
    let number_then_blockhash = vec![0x43, 0x60, 0x01, 0x40, 0x00];
    assert!(bytecode_ineligible(&blockhash_only).is_none());
    assert!(bytecode_ineligible(&number_then_blockhash).is_none());
    assert!(compile(&mut registry, &blockhash_only).is_ok());
    assert!(compile(&mut registry, &number_then_blockhash).is_ok());
}

#[test]
fn identity_and_settings_are_exact() {
    let registry = new_registry();
    let identity = registry.identity();
    assert_eq!(identity.spec, spec());
    assert_eq!(identity.eth_spec, 12);
    assert_eq!(identity.target_arch, "x86_64");
    assert_eq!(identity.target_os, "linux");
    assert_eq!(identity.block_hash_semantics, "arbos-l1-ring-blockhash-v1");
    assert_eq!(identity.compiler_runtime, COMPILER_IDENTITY);
    assert!(COMPILER_IDENTITY.contains("arbos-l1-ring-blockhash-v1"));
    let settings = &registry.compiler().settings;
    assert_eq!(
        settings.block_hash_semantics,
        BlockHashSemantics::ArbosL1Ring
    );
    assert_eq!(settings.module_name, "arb-compiled-frame");
    assert!(settings.gas_metering && settings.stack_bound_checks);
    assert!(!settings.single_error && !settings.debug_support);
    assert!(!settings.dump && !settings.dump_assembly);
    assert!(settings.gas_params.same(&GasParams::new_spec(spec())));
    assert!(registry.gas_params().same(&settings.gas_params));
    assert!(registry.last_compile_timings().is_none());
}

#[test]
fn identities_are_compared_by_every_field() {
    let registry = new_registry();
    let identity = registry.identity();
    assert_eq!(*identity, identity.clone());
    assert_eq!(*identity, *new_registry().identity());
    let changed = |change: fn(&mut CompiledFrameIdentity)| {
        let mut other = identity.clone();
        change(&mut other);
        assert_ne!(*identity, other);
    };
    changed(|other| other.spec = ArbSpecId::new(20, 12).unwrap());
    changed(|other| other.eth_spec = 13);
    changed(|other| other.target_arch = "aarch64");
    changed(|other| other.target_os = "macos");
    changed(|other| other.block_hash_semantics = "revm-database-v1");
    changed(|other| other.compiler_runtime = "another build");
    changed(|other| other.simple_perf_requested = true);
}

#[test]
fn a_compiler_that_cannot_be_set_up_is_an_error() {
    let failed = Registry::new(spec(), "x86_64", "linux", |_: CompilerSettings| {
        Err("no llvm".to_string())
    });
    match failed {
        Err(CompiledFrameError::Compiler(report)) => assert_eq!(report, "no llvm"),
        _ => panic!("must fail"),
    }
}

#[test]
fn compiled_programs_are_found_again() {
    let mut registry = new_registry();
    let mut hits = DispatchHits::new();
    let code = number_sstore_code();
    let hash = compile(&mut registry, &code).unwrap();
    assert_eq!(hash, hash_of(&code));
    assert!(registry.contains(hash) && registry.len() == 1 && !registry.is_empty());
    assert_eq!(registry.last_compile_timings(), Some(10));
    let (name, bytes, eth_spec) = &registry.compiler().jobs[0];
    assert_eq!(
        name,
        &format!("arb_{}", revm::primitives::keccak256(&code))
    );
    assert_eq!(bytes, &code);
    assert_eq!(*eth_spec, 12);
    // Compiling it again does nothing.
    assert_eq!(compile(&mut registry, &code).unwrap(), hash);
    assert_eq!(registry.compiler().jobs.len(), 1);
    let other = compile(&mut registry, &[0x00]).unwrap();
    assert_eq!(registry.len(), 2);
    assert_eq!(registry.lookup(hash, code.len(), &mut hits), Some(1));
    assert_eq!(registry.lookup(hash, code.len() + 1, &mut hits), None);
    assert_eq!(registry.lookup(other, 1, &mut hits), Some(2));
    assert_eq!(registry.lookup(other, 1, &mut hits), Some(2));
    assert_eq!(registry.lookup(B256::zero(), 1, &mut hits), None);
    assert_eq!(registry.dispatch_hits_for(&hits, hash), 1);
    assert_eq!(registry.dispatch_hits_for(&hits, other), 2);
    assert_eq!(registry.dispatch_hits_for(&hits, B256::zero()), 0);
    assert_eq!(registry.dispatch_hits(&hits), 3);
    assert_eq!(registry.into_shared().len(), 2);
}

#[test]
fn refused_code_is_not_compiled() {
    let mut registry = new_registry();
    for (code, reason) in [
        (&[][..], IneligibleReason::Empty),
        (&[0xef, 0x00], IneligibleReason::EofOrStylusPrefix),
    ] {
        match compile(&mut registry, code) {
            Err(CompiledFrameError::Ineligible(given)) => assert_eq!(given, reason),
            _ => panic!("must be refused"),
        }
    }
    assert!(registry.is_empty());
    assert!(registry.compiler().jobs.is_empty());
    assert!(registry.last_compile_timings().is_none());
}

#[test]
fn compiler_failures_leave_no_program() {
    let mut registry = new_registry();
    for (function, cleared, report) in [
        (Err("jit".to_string()), Err("clear".to_string()), "jit"),
        (Err("jit".to_string()), Ok(()), "jit"),
        (Ok(7), Err("clear".to_string()), "clear"),
    ] {
        let cleared_before = registry.compiler().cleared;
        match registry.compile(
            &[0x00],
            |_: &mut Numbering, _: JitJob| function,
            |_: &mut Numbering| 99,
            |compiler: &mut Numbering| {
                compiler.cleared += 1;
                cleared
            },
        ) {
            Err(CompiledFrameError::Compiler(given)) => assert_eq!(given, report),
            _ => panic!("must fail"),
        }
        assert!(registry.is_empty());
        assert_eq!(registry.last_compile_timings(), Some(99));
        // What is left over is dropped whether or not there is a program.
        assert_eq!(registry.compiler().cleared, cleared_before + 1);
    }
    assert!(compile(&mut registry, &[0x00]).is_ok());
}

#[test]
fn a_resumed_caller_counts_twice() {
    let mut registry = new_registry();
    let mut hits = DispatchHits::new();
    let caller = compile(&mut registry, &[0xf1, 0x00]).unwrap();
    let callee = compile(&mut registry, &[0x00]).unwrap();
    assert!(registry.lookup(caller, 2, &mut hits).is_some());
    assert!(registry.lookup(callee, 1, &mut hits).is_some());
    assert!(registry.lookup(caller, 2, &mut hits).is_some());
    assert_eq!(registry.dispatch_hits_for(&hits, caller), 2);
    assert_eq!(registry.dispatch_hits_for(&hits, callee), 1);
}
