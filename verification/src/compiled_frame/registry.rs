//! Programs that were compiled for one set of rules, and the lookup of them.
use super::eligibility::{bytecode_ineligible_with_ring, IneligibleReason};
use crate::counters::Counters;
use crate::hashing::keccak256;
use crate::primitives::B256;
use crate::spec::{ArbSpecId, GasParams};
use crate::text::{append_decimal, append_hex, same_text};
use std::sync::Arc;
use vstd::prelude::*;

verus! {

/// Build of the compiler and its runtime. It tells apart what was compiled by another
/// build, or with other checks.
pub const COMPILER_IDENTITY: &'static str =
    "revmc-6f8854dc/arbos-l1-ring-blockhash-v1/in-process-owned-jit/gas-metered/single-error-off/stack-checks-on";

/// Tag of the block hashes that compiled code reads where they come from ArbOS.
pub const RING_TAG: &'static str = "arbos-l1-ring-blockhash-v1";

/// Name of the module that programs are compiled into.
pub const MODULE_NAME: &'static str = "arb-compiled-frame";

/// What every program's symbol begins with.
pub const SYMBOL_PREFIX: &'static str = "arb_0x";

/// Which block hashes compiled code reads.
#[derive(Clone, Copy, Debug, PartialEq, Eq, Structural)]
pub enum BlockHashSemantics {
    /// Those of the chain's own headers.
    Ethereum,
    /// Those that ArbOS recorded of the parent chain's blocks.
    ArbosL1Ring,
}

/// Failure to make a registry or to compile a program.
#[derive(Debug)]
pub enum CompiledFrameError {
    /// The code is refused before anything is compiled.
    Ineligible(IneligibleReason),
    /// The compiler failed, with its report.
    Compiler(String),
}

/// The text of a reason.
pub open spec fn reason_text(reason: IneligibleReason) -> Seq<char> {
    match reason {
        IneligibleReason::Empty => "Empty"@,
        IneligibleReason::EofOrStylusPrefix => "EofOrStylusPrefix"@,
        IneligibleReason::InstructionOverride(op) => "InstructionOverride("@
            + crate::text::decimal_text(op) + ")"@,
    }
}

impl CompiledFrameError {
    /// The text of the error.
    pub open spec fn text(self) -> Seq<char> {
        match self {
            CompiledFrameError::Ineligible(reason) => "bytecode ineligible for compilation: "@
                + reason_text(reason),
            CompiledFrameError::Compiler(report) => "revmc compiler error: "@ + report@,
        }
    }

    /// The text of the error.
    pub fn message(&self) -> (r: String)
        ensures
            r@ == self.text(),
    {
        match self {
            CompiledFrameError::Ineligible(reason) => {
                let mut text = "bytecode ineligible for compilation: ".to_owned();
                match reason {
                    IneligibleReason::Empty => text.append("Empty"),
                    IneligibleReason::EofOrStylusPrefix => text.append("EofOrStylusPrefix"),
                    IneligibleReason::InstructionOverride(op) => {
                        text.append("InstructionOverride(");
                        append_decimal(&mut text, *op);
                        text.append(")");
                        assert(text@ =~= self.text());
                    },
                }
                text
            },
            CompiledFrameError::Compiler(report) => {
                let mut text = "revmc compiler error: ".to_owned();
                text.append(report.as_str());
                text
            },
        }
    }
}

/// What the programs of a registry were compiled for, and by what. Together with the code
/// hash and the gas constants it identifies a program.
#[derive(Debug)]
pub struct CompiledFrameIdentity {
    /// The rules that programs are compiled for.
    pub spec: ArbSpecId,
    /// The hardfork that the compiler is told.
    pub eth_spec: u8,
    /// Architecture that is compiled for.
    pub target_arch: &'static str,
    /// Operating system that is compiled for.
    pub target_os: &'static str,
    /// Tag of the block hashes that compiled code reads.
    pub block_hash_semantics: &'static str,
    /// Build of the compiler and its runtime.
    pub compiler_runtime: &'static str,
    /// Whether symbols for profiling were asked for. It does not tell that there are any.
    pub simple_perf_requested: bool,
}

impl Clone for CompiledFrameIdentity {
    fn clone(&self) -> (r: CompiledFrameIdentity)
        ensures
            r == *self,
    {
        CompiledFrameIdentity {
            spec: self.spec,
            eth_spec: self.eth_spec,
            target_arch: self.target_arch,
            target_os: self.target_os,
            block_hash_semantics: self.block_hash_semantics,
            compiler_runtime: self.compiler_runtime,
            simple_perf_requested: self.simple_perf_requested,
        }
    }
}

impl PartialEq for CompiledFrameIdentity {
    fn eq(&self, other: &CompiledFrameIdentity) -> (r: bool) {
        self.spec == other.spec && self.eth_spec == other.eth_spec && same_text(
            self.target_arch,
            other.target_arch,
        ) && same_text(self.target_os, other.target_os) && same_text(
            self.block_hash_semantics,
            other.block_hash_semantics,
        ) && same_text(self.compiler_runtime, other.compiler_runtime)
            && self.simple_perf_requested == other.simple_perf_requested
    }
}

impl vstd::std_specs::cmp::PartialEqSpecImpl for CompiledFrameIdentity {
    open spec fn obeys_eq_spec() -> bool {
        true
    }

    open spec fn eq_spec(&self, other: &CompiledFrameIdentity) -> bool {
        &&& self.spec == other.spec
        &&& self.eth_spec == other.eth_spec
        &&& self.target_arch@ == other.target_arch@
        &&& self.target_os@ == other.target_os@
        &&& self.block_hash_semantics@ == other.block_hash_semantics@
        &&& self.compiler_runtime@ == other.compiler_runtime@
        &&& self.simple_perf_requested == other.simple_perf_requested
    }
}

impl Eq for CompiledFrameIdentity {

}

/// How the compiler of a registry is set up.
#[derive(Debug)]
pub struct CompilerSettings {
    pub block_hash_semantics: BlockHashSemantics,
    pub module_name: &'static str,
    /// Whether intermediate code is written to disk.
    pub dump: bool,
    pub dump_assembly: bool,
    pub debug_support: bool,
    /// Whether symbols for profiling are asked for.
    pub simple_perf: bool,
    pub gas_metering: bool,
    /// Whether every halt is reported as out of gas.
    pub single_error: bool,
    pub stack_bound_checks: bool,
    pub gas_params: GasParams,
}

impl CompilerSettings {
    /// Whether these are the settings for `spec`: gas is metered, stack bounds are checked,
    /// halts keep their reasons, and nothing is dumped.
    pub open spec fn are_for(self, spec: ArbSpecId, simple_perf: bool) -> bool {
        &&& self.block_hash_semantics == BlockHashSemantics::ArbosL1Ring
        &&& self.module_name@ == MODULE_NAME@
        &&& !self.dump
        &&& !self.dump_assembly
        &&& !self.debug_support
        &&& self.simple_perf == simple_perf
        &&& self.gas_metering
        &&& !self.single_error
        &&& self.stack_bound_checks
        &&& self.gas_params@ == crate::spec::hardfork_gas_params(spec.hardfork())
    }
}

/// What the compiler is asked to compile.
#[derive(Debug)]
pub struct JitJob<'a> {
    /// Symbol of the program.
    pub name: String,
    pub bytecode: &'a [u8],
    /// The hardfork to compile for.
    pub eth_spec: u8,
}

/// What compiling gave.
pub struct JitOutput<F, T> {
    /// The program, or the compiler's report.
    pub function: Result<F, String>,
    /// How long the parts of it took.
    pub timings: T,
    /// Whether what was left over could be dropped, or the compiler's report.
    pub cleared: Result<(), String>,
}

/// A resident program.
struct CompiledProgram<F> {
    code_hash: B256,
    func: F,
    code_len: usize,
}

/// Resident programs, at most one for each code hash.
struct ProgramTable<F> {
    entries: Vec<CompiledProgram<F>>,
}

/// Owns a compiler and every program that it compiled.
///
/// `compile` is the only way in. Programs are compiled before execution; dispatch only
/// looks them up.
pub struct CompiledFrameRegistry<C, F, T> {
    compiler: C,
    programs: ProgramTable<F>,
    identity: CompiledFrameIdentity,
    gas_params: GasParams,
    semantics: BlockHashSemantics,
    last_timings: Option<T>,
}

/// Whether no code hash occurs twice.
spec fn distinct<F>(programs: Seq<CompiledProgram<F>>) -> bool {
    forall|i: int, j: int|
        0 <= i < j < programs.len() ==> (#[trigger] programs[i]).code_hash != (
        #[trigger] programs[j]).code_hash
}

/// Programs by code hash, each with the length of its code.
spec fn by_hash<F>(programs: Seq<CompiledProgram<F>>) -> Map<B256, (F, nat)>
    decreases programs.len(),
{
    if programs.len() == 0 {
        Map::empty()
    } else {
        by_hash(programs.drop_last()).insert(
            programs.last().code_hash,
            (programs.last().func, programs.last().code_len as nat),
        )
    }
}

/// A hash is listed exactly where a program has it.
proof fn lemma_by_hash<F>(programs: Seq<CompiledProgram<F>>, hash: B256)
    ensures
        by_hash(programs).contains_key(hash) <==> exists|i: int|
            0 <= i < programs.len() && (#[trigger] programs[i]).code_hash == hash,
    decreases programs.len(),
{
    if programs.len() > 0 {
        let head = programs.drop_last();
        lemma_by_hash(head, hash);
        let last = programs.len() - 1;
        assert(programs[last] == programs.last());
        if by_hash(head).contains_key(hash) {
            let i = choose|i: int|
                0 <= i < head.len() && (#[trigger] head[i]).code_hash == hash;
            assert(programs[i].code_hash == hash);
        }
        if exists|i: int| 0 <= i < programs.len() && (#[trigger] programs[i]).code_hash == hash {
            let i = choose|i: int|
                0 <= i < programs.len() && (#[trigger] programs[i]).code_hash == hash;
            if i < last {
                assert(head[i].code_hash == hash);
            }
        }
    }
}

/// Without the last program, no hash occurs twice either, and that of the last not at all.
proof fn lemma_distinct_head<F>(programs: Seq<CompiledProgram<F>>)
    requires
        distinct(programs),
        programs.len() > 0,
    ensures
        distinct(programs.drop_last()),
        !by_hash(programs.drop_last()).contains_key(programs.last().code_hash),
{
    let head = programs.drop_last();
    let last = programs.last().code_hash;
    assert forall|a: int, b: int| 0 <= a < b < head.len() implies (#[trigger] head[a]).code_hash
        != (#[trigger] head[b]).code_hash by {
        assert(programs[a].code_hash != programs[b].code_hash);
    }
    lemma_by_hash(head, last);
    if exists|i: int| 0 <= i < head.len() && (#[trigger] head[i]).code_hash == last {
        let i = choose|i: int| 0 <= i < head.len() && (#[trigger] head[i]).code_hash == last;
        assert(programs[i].code_hash != programs[programs.len() - 1].code_hash);
    }
}

/// As many hashes are listed as there are programs.
proof fn lemma_by_hash_len<F>(programs: Seq<CompiledProgram<F>>)
    requires
        distinct(programs),
    ensures
        by_hash(programs).dom().finite(),
        by_hash(programs).dom().len() == programs.len(),
    decreases programs.len(),
{
    if programs.len() > 0 {
        lemma_distinct_head(programs);
        lemma_by_hash_len(programs.drop_last());
    }
}

/// A program is listed under its hash.
proof fn lemma_by_hash_at<F>(programs: Seq<CompiledProgram<F>>, i: int)
    requires
        distinct(programs),
        0 <= i < programs.len(),
    ensures
        by_hash(programs).contains_key(programs[i].code_hash),
        by_hash(programs)[programs[i].code_hash] == (programs[i].func, programs[i].code_len as nat),
    decreases programs.len(),
{
    if i < programs.len() - 1 {
        let head = programs.drop_last();
        lemma_distinct_head(programs);
        lemma_by_hash_at(head, i);
        assert(head[i] == programs[i]);
        assert(programs[i].code_hash != programs[programs.len() - 1].code_hash);
    }
}

/// How often programs were looked up for dispatch, by code hash. Diagnostic only.
#[derive(Debug)]
pub struct DispatchHits {
    counts: Counters<B256>,
}

impl DispatchHits {
    /// How often the program of a hash was looked up for dispatch.
    pub closed spec fn count(self, hash: B256) -> u64 {
        self.counts.count(hash)
    }

    /// No lookups yet.
    pub fn new() -> (r: DispatchHits)
        ensures
            forall|hash: B256| #[trigger] r.count(hash) == 0,
    {
        DispatchHits { counts: Counters::new() }
    }

    /// How often the program of a hash was looked up for dispatch.
    fn get(&self, hash: B256) -> (r: u64)
        ensures
            r == self.count(hash),
    {
        self.counts.get(hash)
    }

    /// Counts one lookup; a count starts again at zero after the largest.
    fn record(&mut self, hash: B256)
        ensures
            final(self).count(hash) == crate::compression::counted(old(self).count(hash), true),
            forall|other: B256|
                other != hash ==> #[trigger] final(self).count(other) == old(self).count(other),
    {
        let count: u64 = self.counts.get(hash).wrapping_add(1);
        self.counts.set(hash, count);
    }
}

impl<F> View for ProgramTable<F> {
    type V = Map<B256, (F, nat)>;

    closed spec fn view(&self) -> Map<B256, (F, nat)> {
        by_hash(self.entries@)
    }
}

impl<F> ProgramTable<F> {
    #[verifier::type_invariant]
    spec fn is_distinct(self) -> bool {
        distinct(self.entries@)
    }

    /// No programs.
    fn new() -> (r: ProgramTable<F>)
        ensures
            r@ == Map::<B256, (F, nat)>::empty(),
    {
        ProgramTable { entries: Vec::new() }
    }

    /// How many programs there are.
    fn len(&self) -> (r: usize)
        ensures
            r == self@.dom().len(),
            self@.dom().finite(),
    {
        proof {
            use_type_invariant(self);
            lemma_by_hash_len(self.entries@);
        }
        self.entries.len()
    }

    /// Where the program of a hash stands.
    fn position(&self, hash: B256) -> (r: Option<usize>)
        ensures
            match r {
                Some(i) => {
                    &&& i < self.entries@.len()
                    &&& self.entries@[i as int].code_hash == hash
                    &&& self@.contains_key(hash)
                    &&& self@[hash] == (
                        self.entries@[i as int].func,
                        self.entries@[i as int].code_len as nat,
                    )
                },
                None => !self@.contains_key(hash),
            },
    {
        proof {
            use_type_invariant(self);
            lemma_by_hash(self.entries@, hash);
        }
        let mut i: usize = 0;
        while i < self.entries.len()
            invariant
                i <= self.entries@.len(),
                distinct(self.entries@),
                forall|j: int| 0 <= j < i ==> (#[trigger] self.entries@[j]).code_hash != hash,
            decreases self.entries.len() - i,
        {
            if self.entries[i].code_hash == hash {
                proof {
                    lemma_by_hash_at(self.entries@, i as int);
                }
                return Some(i);
            }
            i = i + 1;
        }
        None
    }

    /// Adds the program of a hash that has none yet.
    fn insert(&mut self, code_hash: B256, func: F, code_len: usize)
        requires
            !old(self)@.contains_key(code_hash),
        ensures
            final(self)@ == old(self)@.insert(code_hash, (func, code_len as nat)),
    {
        proof {
            use_type_invariant(&*self);
            lemma_by_hash(self.entries@, code_hash);
        }
        let mut entries: Vec<CompiledProgram<F>> = Vec::new();
        std::mem::swap(&mut entries, &mut self.entries);
        let ghost before = entries@;
        entries.push(CompiledProgram { code_hash, func, code_len });
        assert(entries@.drop_last() =~= before);
        self.entries = entries;
    }
}

impl<C, F: Copy, T: Copy> CompiledFrameRegistry<C, F, T> {
    /// The resident programs by code hash, each with the length of its code.
    pub closed spec fn resident(self) -> Map<B256, (F, nat)> {
        self.programs@
    }

    /// What programs are compiled for.
    pub closed spec fn bound_to(self) -> CompiledFrameIdentity {
        self.identity
    }

    /// The gas constants that programs are compiled with.
    pub closed spec fn gas_constants(self) -> Seq<u64> {
        self.gas_params@
    }

    /// The compiler.
    pub closed spec fn owned_compiler(self) -> C {
        self.compiler
    }

    /// The timings of the last compilation.
    pub closed spec fn timings(self) -> Option<T> {
        self.last_timings
    }

    /// Which block hashes compiled code reads.
    pub closed spec fn hash_source(self) -> BlockHashSemantics {
        self.semantics
    }

    /// Whether compiled code reads the block hashes that ArbOS recorded, and is tagged so.
    pub open spec fn reads_ring(self) -> bool {
        &&& self.hash_source() == BlockHashSemantics::ArbosL1Ring
        &&& self.bound_to().block_hash_semantics@ == RING_TAG@
    }

    /// Whether a frame under these rules and gas constants may run a resident program.
    pub open spec fn accepts(self, spec: ArbSpecId, gas_params: Seq<u64>) -> bool {
        &&& self.reads_ring()
        &&& spec == self.bound_to().spec
        &&& gas_params == self.gas_constants()
    }

    /// The program that is looked up for code with this hash and length.
    pub open spec fn found(self, code_hash: B256, live_len: nat) -> Option<F> {
        if self.reads_ring() && self.resident().contains_key(code_hash)
            && self.resident()[code_hash].1 == live_len {
            Some(self.resident()[code_hash].0)
        } else {
            None
        }
    }

    /// Whether neither the compiler nor the programs nor the timings differ.
    pub open spec fn is_untouched(self, other: CompiledFrameRegistry<C, F, T>) -> bool {
        &&& self.owned_compiler() == other.owned_compiler()
        &&& self.resident() == other.resident()
        &&& self.timings() == other.timings()
    }

    /// Whether only the compiler, the programs and the timings may differ.
    pub open spec fn same_binding(self, other: CompiledFrameRegistry<C, F, T>) -> bool {
        &&& self.bound_to() == other.bound_to()
        &&& self.gas_constants() == other.gas_constants()
        &&& self.hash_source() == other.hash_source()
    }
}

/// The hash whose number is that of the code.
pub open spec fn is_hash_of(hash: B256, code: Seq<u8>) -> bool {
    hash@ == crate::hashing::keccak_number(code)
}

/// What is to be done with code.
pub enum CompilePlan {
    Refuse(IneligibleReason),
    Keep,
    Compile,
}

/// What a registry does with code: it is refused, there is a program for it already, or it
/// is compiled.
pub open spec fn compile_plan<C, F: Copy, T: Copy>(
    registry: CompiledFrameRegistry<C, F, T>,
    code: Seq<u8>,
) -> CompilePlan {
    match super::eligibility::ineligibility(code, registry.reads_ring()) {
        Some(reason) => CompilePlan::Refuse(reason),
        None => if exists|hash: B256|
            is_hash_of(hash, code) && #[trigger] registry.resident().contains_key(hash) {
            CompilePlan::Keep
        } else {
            CompilePlan::Compile
        },
    }
}

/// Whether a job asks for code to be compiled under the symbol of its hash.
pub open spec fn is_job(job: JitJob, code: Seq<u8>, eth_spec: u8) -> bool {
    &&& job.bytecode@ == code
    &&& job.eth_spec == eth_spec
    &&& exists|hash: B256| #[trigger]
        is_hash_of(hash, code) && job.name@ == SYMBOL_PREFIX@ + crate::text::hex_text(hash.bytes())
}

/// What a registry makes of what compiling gave: the program becomes resident where both
/// compiling and dropping the rest went well; otherwise the first report is returned.
pub open spec fn compiled<C, F: Copy, T: Copy>(
    before: CompiledFrameRegistry<C, F, T>,
    after: CompiledFrameRegistry<C, F, T>,
    code: Seq<u8>,
    output: JitOutput<F, T>,
    result: Result<B256, CompiledFrameError>,
) -> bool {
    match (output.function, output.cleared) {
        (Ok(func), Ok(_)) => {
            &&& result matches Ok(hash) && is_hash_of(hash, code) && after.resident()
                == before.resident().insert(hash, (func, code.len()))
        },
        (Err(report), _) => {
            &&& result == Err::<B256, CompiledFrameError>(CompiledFrameError::Compiler(report))
            &&& after.resident() == before.resident()
        },
        (Ok(_), Err(report)) => {
            &&& result == Err::<B256, CompiledFrameError>(CompiledFrameError::Compiler(report))
            &&& after.resident() == before.resident()
        },
    }
}

/// Whether `registry` is a new one for `spec`, and `settings` set up its compiler.
pub open spec fn is_new_registry<C, F: Copy, T: Copy>(
    registry: CompiledFrameRegistry<C, F, T>,
    spec: ArbSpecId,
    simple_perf: bool,
    target_arch: &'static str,
    target_os: &'static str,
) -> bool {
    let identity = registry.bound_to();
    &&& registry.resident() == Map::<B256, (F, nat)>::empty()
    &&& registry.timings() is None
    &&& registry.reads_ring()
    &&& registry.gas_constants() == crate::spec::hardfork_gas_params(spec.hardfork())
    &&& identity.spec == spec
    &&& identity.eth_spec == spec.hardfork()
    &&& identity.target_arch@ == target_arch@
    &&& identity.target_os@ == target_os@
    &&& identity.compiler_runtime@ == COMPILER_IDENTITY@
    &&& identity.simple_perf_requested == simple_perf
}

/// Whether a result is what setting up a registry gives: `build` was called with the settings for
/// `spec`, and gave the compiler of a new registry, or the report of the error.
pub open spec fn is_set_up<C, F: Copy, T: Copy, B: FnOnce(CompilerSettings) -> Result<C, String>>(
    build: B,
    spec: ArbSpecId,
    simple_perf: bool,
    target_arch: &'static str,
    target_os: &'static str,
    r: Result<CompiledFrameRegistry<C, F, T>, CompiledFrameError>,
) -> bool {
    exists|settings: CompilerSettings, built: Result<C, String>| #[trigger]
        call_ensures(build, (settings,), built) && settings.are_for(spec, simple_perf) && (
        match built {
            Ok(compiler) => r matches Ok(registry) && registry.owned_compiler() == compiler
                && is_new_registry(registry, spec, simple_perf, target_arch, target_os),
            Err(report) => r matches Err(CompiledFrameError::Compiler(text)) && text@ == report@,
        })
}

impl<C, F: Copy, T: Copy> CompiledFrameRegistry<C, F, T> {
    /// A registry for `spec`, with the gas constants of its hardfork. `build` sets up the
    /// compiler.
    pub fn new<B: FnOnce(CompilerSettings) -> Result<C, String>>(
        spec: ArbSpecId,
        target_arch: &'static str,
        target_os: &'static str,
        build: B,
    ) -> (r: Result<CompiledFrameRegistry<C, F, T>, CompiledFrameError>)
        requires
            forall|settings: CompilerSettings| #[trigger] call_requires(build, (settings,)),
        ensures
            is_set_up(build, spec, false, target_arch, target_os, r),
    {
        Self::new_configured(spec, false, target_arch, target_os, build)
    }

    /// The same, but symbols for profiling are asked for.
    pub fn new_with_simple_perf<B: FnOnce(CompilerSettings) -> Result<C, String>>(
        spec: ArbSpecId,
        target_arch: &'static str,
        target_os: &'static str,
        build: B,
    ) -> (r: Result<CompiledFrameRegistry<C, F, T>, CompiledFrameError>)
        requires
            forall|settings: CompilerSettings| #[trigger] call_requires(build, (settings,)),
        ensures
            is_set_up(build, spec, true, target_arch, target_os, r),
    {
        Self::new_configured(spec, true, target_arch, target_os, build)
    }

    fn new_configured<B: FnOnce(CompilerSettings) -> Result<C, String>>(
        spec: ArbSpecId,
        simple_perf: bool,
        target_arch: &'static str,
        target_os: &'static str,
        build: B,
    ) -> (r: Result<CompiledFrameRegistry<C, F, T>, CompiledFrameError>)
        requires
            forall|settings: CompilerSettings| #[trigger] call_requires(build, (settings,)),
        ensures
            is_set_up(build, spec, simple_perf, target_arch, target_os, r),
    {
        let eth_spec = spec.into_eth_spec();
        let gas_params = GasParams::new_spec(spec);
        let settings = CompilerSettings {
            block_hash_semantics: BlockHashSemantics::ArbosL1Ring,
            module_name: MODULE_NAME,
            dump: false,
            dump_assembly: false,
            debug_support: false,
            simple_perf,
            gas_metering: true,
            single_error: false,
            stack_bound_checks: true,
            gas_params,
        };
        let ghost asked = settings;
        let built = build(settings);
        assert(call_ensures(build, (asked,), built));
        match built {
            Ok(compiler) => Ok(
                CompiledFrameRegistry {
                    compiler,
                    programs: ProgramTable::new(),
                    identity: CompiledFrameIdentity {
                        spec,
                        eth_spec,
                        target_arch,
                        target_os,
                        block_hash_semantics: RING_TAG,
                        compiler_runtime: COMPILER_IDENTITY,
                        simple_perf_requested: simple_perf,
                    },
                    gas_params,
                    semantics: BlockHashSemantics::ArbosL1Ring,
                    last_timings: None,
                },
            ),
            Err(report) => Err(CompiledFrameError::Compiler(report)),
        }
    }

    /// What programs are compiled for.
    pub fn identity(&self) -> (r: &CompiledFrameIdentity)
        ensures
            *r == self.bound_to(),
    {
        &self.identity
    }

    /// The gas constants that programs are compiled with.
    pub fn gas_params(&self) -> (r: &GasParams)
        ensures
            r@ == self.gas_constants(),
    {
        &self.gas_params
    }

    /// The compiler.
    pub fn compiler(&self) -> (r: &C)
        ensures
            *r == self.owned_compiler(),
    {
        &self.compiler
    }

    /// Whether compiled code reads the block hashes that ArbOS recorded, and is tagged so.
    pub fn has_arbos_ring_semantics(&self) -> (r: bool)
        ensures
            r == self.reads_ring(),
    {
        self.semantics == BlockHashSemantics::ArbosL1Ring && same_text(
            self.identity.block_hash_semantics,
            RING_TAG,
        )
    }

    /// Whether a live frame's rules and gas constants are those that programs are compiled
    /// for.
    pub fn accepts_context(&self, spec: ArbSpecId, gas_params: &GasParams) -> (r: bool)
        ensures
            r == self.accepts(spec, gas_params@),
    {
        self.has_arbos_ring_semantics() && spec == self.identity.spec && gas_params.same(
            &self.gas_params,
        )
    }

    /// Whether there is a program for a code hash.
    pub fn contains(&self, code_hash: B256) -> (r: bool)
        ensures
            r == self.resident().contains_key(code_hash),
    {
        self.programs.position(code_hash).is_some()
    }

    /// The timings of the last compilation, if there was one.
    pub fn last_compile_timings(&self) -> (r: Option<T>)
        ensures
            r == self.timings(),
    {
        self.last_timings
    }

    /// How many programs there are.
    pub fn len(&self) -> (r: usize)
        ensures
            r == self.resident().dom().len(),
            self.resident().dom().finite(),
    {
        self.programs.len()
    }

    /// Whether there are no programs. Then every frame is interpreted.
    pub fn is_empty(&self) -> (r: bool)
        ensures
            r == (self.resident() == Map::<B256, (F, nat)>::empty()),
    {
        let n = self.programs.len();
        proof {
            if n == 0 {
                assert(self.resident() =~= Map::<B256, (F, nat)>::empty());
            }
        }
        n == 0
    }

    /// Compiles `bytecode` with the owned compiler, and gives the code hash that it is
    /// looked up by.
    ///
    /// Code that is refused, or has a program already, is not compiled. `jit` compiles, `time`
    /// takes the timings of it, and `clear` drops what is left over, whether or not `jit` could
    /// compile, so that a failure does not affect the next compilation.
    pub fn compile<
        J: FnOnce(&mut C, JitJob) -> Result<F, String>,
        M: FnOnce(&mut C) -> T,
        D: FnOnce(&mut C) -> Result<(), String>,
    >(&mut self, bytecode: &[u8], jit: J, time: M, clear: D) -> (r: Result<
        B256,
        CompiledFrameError,
    >)
        requires
            forall|compiler: &mut C, job: JitJob| #[trigger] call_requires(jit, (compiler, job)),
            forall|compiler: &mut C| #[trigger] call_requires(time, (compiler,)),
            forall|compiler: &mut C| #[trigger] call_requires(clear, (compiler,)),
        ensures
            final(self).same_binding(*old(self)),
            match compile_plan(*old(self), bytecode@) {
                CompilePlan::Refuse(reason) => {
                    &&& r == Err::<B256, CompiledFrameError>(CompiledFrameError::Ineligible(reason))
                    &&& final(self).is_untouched(*old(self))
                },
                CompilePlan::Keep => {
                    &&& r matches Ok(hash) && hash@ == crate::hashing::keccak_number(bytecode@)
                    &&& final(self).is_untouched(*old(self))
                },
                CompilePlan::Compile => exists|
                    compiler: &mut C,
                    timer: &mut C,
                    cleaner: &mut C,
                    job: JitJob,
                    function: Result<F, String>,
                    timings: T,
                    cleared: Result<(), String>,
                |
                    {
                        &&& #[trigger] call_ensures(jit, (compiler, job), function)
                        &&& #[trigger] call_ensures(time, (timer,), timings)
                        &&& #[trigger] call_ensures(clear, (cleaner,), cleared)
                        &&& *compiler == old(self).owned_compiler()
                        &&& *final(compiler) == *timer
                        &&& *final(timer) == *cleaner
                        &&& *final(cleaner) == final(self).owned_compiler()
                        &&& is_job(job, bytecode@, old(self).bound_to().eth_spec)
                        &&& final(self).timings() == Some(timings)
                        &&& compiled(
                            *old(self),
                            *final(self),
                            bytecode@,
                            (JitOutput { function, timings, cleared }),
                            r,
                        )
                    },
            },
    {
        if let Some(reason) = bytecode_ineligible_with_ring(
            bytecode,
            self.has_arbos_ring_semantics(),
        ) {
            return Err(CompiledFrameError::Ineligible(reason));
        }
        let code_hash = keccak256(bytecode);
        let ghost plan = compile_plan(*self, bytecode@);
        assert(is_hash_of(code_hash, bytecode@));
        assert forall|hash: B256| #[trigger] is_hash_of(hash, bytecode@) implies hash
            == code_hash by {
            crate::words::lemma_word_value(hash.word, code_hash.word);
        }
        if self.contains(code_hash) {
            assert(plan is Keep);
            return Ok(code_hash);
        }
        assert(plan is Compile);
        let mut name = SYMBOL_PREFIX.to_owned();
        append_hex(&mut name, code_hash.to_vec().as_slice());
        let job = JitJob { name, bytecode, eth_spec: self.identity.eth_spec };
        assert(is_job(job, bytecode@, self.identity.eth_spec));
        let function = jit(&mut self.compiler, job);
        let timings = time(&mut self.compiler);
        let cleared = clear(&mut self.compiler);
        self.last_timings = Some(timings);
        let func = match function {
            Ok(func) => func,
            Err(report) => return Err(CompiledFrameError::Compiler(report)),
        };
        match cleared {
            Ok(_) => {},
            Err(report) => return Err(CompiledFrameError::Compiler(report)),
        }
        self.programs.insert(code_hash, func, bytecode.len());
        Ok(code_hash)
    }

    /// Shares the registry.
    pub fn into_shared(self) -> (r: Arc<CompiledFrameRegistry<C, F, T>>)
        ensures
            *r == self,
    {
        Arc::new(self)
    }

    /// How often resident programs were looked up for dispatch, modulo 2^64.
    pub fn dispatch_hits(&self, hits: &DispatchHits) -> (r: u64)
        ensures
            r == total_hits(self.resident().dom(), *hits) % 0x1_0000_0000_0000_0000,
    {
        proof {
            use_type_invariant(&self.programs);
            lemma_listed_hits(self.programs.entries@, *hits);
        }
        let ghost entries = self.programs.entries@;
        let mut total: u64 = 0;
        let mut i: usize = 0;
        while i < self.programs.entries.len()
            invariant
                entries == self.programs.entries@,
                i <= entries.len(),
                total == listed_hits(entries.take(i as int), *hits) % 0x1_0000_0000_0000_0000,
            decreases entries.len() - i,
        {
            assert(entries.take(i as int + 1).drop_last() =~= entries.take(i as int));
            total = total.wrapping_add(hits.get(self.programs.entries[i].code_hash));
            i = i + 1;
        }
        assert(entries.take(i as int) =~= entries);
        total
    }

    /// How often the program of a code hash was looked up for dispatch.
    pub fn dispatch_hits_for(&self, hits: &DispatchHits, code_hash: B256) -> (r: u64)
        ensures
            r == (if self.resident().contains_key(code_hash) {
                hits.count(code_hash)
            } else {
                0
            }),
    {
        if self.contains(code_hash) {
            hits.get(code_hash)
        } else {
            0
        }
    }

    /// The program for code with this hash and length, counted as a dispatch.
    pub fn lookup(&self, code_hash: B256, live_len: usize, hits: &mut DispatchHits) -> (r: Option<F>)
        ensures
            r == self.found(code_hash, live_len as nat),
            counted_for(
                *old(hits),
                *final(hits),
                code_hash,
                self.found(code_hash, live_len as nat) is Some,
            ),
    {
        if !self.has_arbos_ring_semantics() {
            return None;
        }
        let i: usize = match self.programs.position(code_hash) {
            Some(i) => i,
            None => return None,
        };
        if self.programs.entries[i].code_len != live_len {
            return None;
        }
        hits.record(code_hash);
        Some(self.programs.entries[i].func)
    }
}

/// Whether a lookup was counted for a hash, if there was one to count, and for no other.
pub open spec fn counted_for(
    before: DispatchHits,
    after: DispatchHits,
    hash: B256,
    hit: bool,
) -> bool {
    &&& after.count(hash) == crate::compression::counted(before.count(hash), hit)
    &&& forall|other: B256|
        other != hash ==> #[trigger] after.count(other) == before.count(other)
}

/// How often the programs of a set of hashes were looked up, all together.
pub open spec fn total_hits(hashes: Set<B256>, hits: DispatchHits) -> nat
    decreases hashes.len(),
{
    if hashes.finite() && hashes.len() > 0 {
        let hash = hashes.choose();
        hits.count(hash) as nat + total_hits(hashes.remove(hash), hits)
    } else {
        0
    }
}

/// The total does not depend on the order in which hashes are taken.
pub proof fn lemma_total_hits(hashes: Set<B256>, hits: DispatchHits, hash: B256)
    requires
        hashes.finite(),
        hashes.contains(hash),
    ensures
        total_hits(hashes, hits) == hits.count(hash) as nat + total_hits(hashes.remove(hash), hits),
    decreases hashes.len(),
{
    let first = hashes.choose();
    if first != hash {
        lemma_total_hits(hashes.remove(first), hits, hash);
        lemma_total_hits(hashes.remove(hash), hits, first);
        assert(hashes.remove(first).remove(hash) =~= hashes.remove(hash).remove(first));
    }
}

/// How often listed programs were looked up, all together.
spec fn listed_hits<F>(programs: Seq<CompiledProgram<F>>, hits: DispatchHits) -> nat
    decreases programs.len(),
{
    if programs.len() == 0 {
        0
    } else {
        listed_hits(programs.drop_last(), hits) + hits.count(programs.last().code_hash) as nat
    }
}

proof fn lemma_listed_hits<F>(programs: Seq<CompiledProgram<F>>, hits: DispatchHits)
    requires
        distinct(programs),
    ensures
        listed_hits(programs, hits) == total_hits(by_hash(programs).dom(), hits),
    decreases programs.len(),
{
    lemma_by_hash_len(programs);
    if programs.len() > 0 {
        let head = programs.drop_last();
        let last = programs.last().code_hash;
        lemma_distinct_head(programs);
        lemma_listed_hits(head, hits);
        lemma_by_hash_len(head);
        lemma_total_hits(by_hash(programs).dom(), hits, last);
        assert(by_hash(programs).dom().remove(last) =~= by_hash(head).dom());
    }
}

/// A program that was compiled is found again under the hash and the length of its code,
/// and under no other length; every other program is found as before.
pub proof fn lemma_compiled_program_is_found<C, F: Copy, T: Copy>(
    before: CompiledFrameRegistry<C, F, T>,
    after: CompiledFrameRegistry<C, F, T>,
    code: Seq<u8>,
    output: JitOutput<F, T>,
    hash: B256,
    len: nat,
    other: B256,
)
    requires
        before.reads_ring(),
        after.same_binding(before),
        compiled(before, after, code, output, Ok(hash)),
        other != hash,
    ensures
        output.function matches Ok(func) && after.found(hash, code.len()) == Some(func),
        len != code.len() ==> after.found(hash, len) is None,
        after.found(other, len) == before.found(other, len),
{
}

/// Compiling the same code again changes nothing: once there is a program for it, the code
/// is kept and not compiled.
pub proof fn lemma_recompiling_keeps<C, F: Copy, T: Copy>(
    before: CompiledFrameRegistry<C, F, T>,
    after: CompiledFrameRegistry<C, F, T>,
    code: Seq<u8>,
    output: JitOutput<F, T>,
    hash: B256,
)
    requires
        compile_plan(before, code) is Compile,
        after.same_binding(before),
        compiled(before, after, code, output, Ok(hash)),
    ensures
        compile_plan(after, code) is Keep,
{
    assert(is_hash_of(hash, code) && after.resident().contains_key(hash));
}

/// What compiling does to the programs: new code becomes resident under its hash, as one more
/// program, and every earlier one stays; after a failure the programs are the same as before.
pub proof fn lemma_compiling_adds_one_program<C, F: Copy, T: Copy>(
    before: CompiledFrameRegistry<C, F, T>,
    after: CompiledFrameRegistry<C, F, T>,
    code: Seq<u8>,
    output: JitOutput<F, T>,
    result: Result<B256, CompiledFrameError>,
)
    requires
        before.resident().dom().finite(),
        compile_plan(before, code) is Compile,
        compiled(before, after, code, output, result),
    ensures
        match result {
            Ok(hash) => {
                &&& is_hash_of(hash, code)
                &&& after.resident().contains_key(hash)
                &&& forall|other: B256| #[trigger]
                    before.resident().contains_key(other) ==> after.resident().contains_key(other)
                        && after.resident()[other] == before.resident()[other]
                &&& after.resident().dom().len() == before.resident().dom().len() + 1
            },
            Err(_) => after.resident() == before.resident(),
        },
{
    if let Ok(hash) = result {
        assert(!before.resident().contains_key(hash));
        assert(after.resident().dom() =~= before.resident().dom().insert(hash));
    }
}

/// Every dispatch counts: a caller that is dispatched, calls a frame that is dispatched, and is
/// dispatched again when it resumes, counts at least twice, and the called program at least
/// once, as long as no count starts again at zero.
pub proof fn lemma_resumed_caller_counts_twice(
    start: DispatchHits,
    called: DispatchHits,
    returned: DispatchHits,
    resumed: DispatchHits,
    caller: B256,
    callee: B256,
)
    requires
        counted_for(start, called, caller, true),
        counted_for(called, returned, callee, true),
        counted_for(returned, resumed, caller, true),
        start.count(caller) + 3 <= u64::MAX,
        start.count(callee) + 3 <= u64::MAX,
    ensures
        resumed.count(caller) >= start.count(caller) + 2,
        resumed.count(callee) >= start.count(callee) + 1,
{
}

/// A program is found exactly where one is resident under the hash, compiled from code of that very
/// length, in a registry whose programs read the ring and are tagged so. Finding it counts one for
/// its hash, modulo 2^64; nothing else is counted.
pub proof fn lemma_what_is_found<C, F: Copy, T: Copy>(
    registry: CompiledFrameRegistry<C, F, T>,
    hash: B256,
    len: usize,
    other: B256,
)
    ensures
        forall|hits: &mut DispatchHits, r: Option<F>| #[trigger]
            call_ensures(
                CompiledFrameRegistry::<C, F, T>::lookup,
                (&registry, hash, len, hits),
                r,
            ) ==> {
                let tagged = registry.hash_source() == BlockHashSemantics::ArbosL1Ring
                    && registry.bound_to().block_hash_semantics@ == "arbos-l1-ring-blockhash-v1"@;
                &&& r matches Some(program) ==> tagged && registry.resident().contains_key(hash)
                    && registry.resident()[hash] == (program, len as nat)
                &&& r is None ==> !(tagged && registry.resident().contains_key(hash)
                    && registry.resident()[hash].1 == len)
                &&& r is None ==> final(hits).count(hash) == hits.count(hash)
                &&& r is Some && hits.count(hash) < u64::MAX ==> final(hits).count(hash)
                    == hits.count(hash) + 1
                &&& r is Some && hits.count(hash) == u64::MAX ==> final(hits).count(hash) == 0
                &&& other != hash ==> final(hits).count(other) == hits.count(other)
            },
{
}

/// A frame's rules and gas constants are accepted exactly where they are those that programs were
/// compiled for, and the programs read the ring and are tagged so.
pub proof fn lemma_what_is_accepted<C, F: Copy, T: Copy>(
    registry: CompiledFrameRegistry<C, F, T>,
    spec: ArbSpecId,
    gas_params: GasParams,
    r: bool,
)
    requires
        call_ensures(
            CompiledFrameRegistry::<C, F, T>::accepts_context,
            (&registry, spec, &gas_params),
            r,
        ),
    ensures
        r <==> spec == registry.bound_to().spec && gas_params@ == registry.gas_constants()
            && registry.hash_source() == BlockHashSemantics::ArbosL1Ring
            && registry.bound_to().block_hash_semantics@ == "arbos-l1-ring-blockhash-v1"@,
{
}

/// A new registry asks its compiler to meter gas, check stack bounds, keep the reasons of halts,
/// dump nothing, and read the ring, with the gas constants of the hardfork, and for symbols only
/// where they are asked for. It has no programs, and is bound to the rules, the target and the
/// build; a compiler that cannot be set up is an error with its report.
pub proof fn lemma_new_registries<
    C,
    F: Copy,
    T: Copy,
    B: FnOnce(CompilerSettings) -> Result<C, String>,
>(
    spec: ArbSpecId,
    target_arch: &'static str,
    target_os: &'static str,
    build: B,
    r: Result<CompiledFrameRegistry<C, F, T>, CompiledFrameError>,
    simple_perf: bool,
)
    requires
        simple_perf ==> call_ensures(
            CompiledFrameRegistry::<C, F, T>::new_with_simple_perf::<B>,
            (spec, target_arch, target_os, build),
            r,
        ),
        !simple_perf ==> call_ensures(
            CompiledFrameRegistry::<C, F, T>::new::<B>,
            (spec, target_arch, target_os, build),
            r,
        ),
    ensures
        exists|settings: CompilerSettings, built: Result<C, String>|
            {
                &&& #[trigger] call_ensures(build, (settings,), built)
                &&& settings.block_hash_semantics == BlockHashSemantics::ArbosL1Ring
                &&& settings.module_name@ == "arb-compiled-frame"@
                &&& !settings.dump && !settings.dump_assembly && !settings.debug_support
                &&& settings.simple_perf == simple_perf
                &&& settings.gas_metering && settings.stack_bound_checks && !settings.single_error
                &&& settings.gas_params@ == crate::spec::hardfork_gas_params(spec.hardfork())
                &&& built is Ok <==> r is Ok
                &&& r matches Ok(registry) ==> built == Ok::<C, String>(registry.owned_compiler())
                &&& r matches Err(e) ==> (e matches CompiledFrameError::Compiler(text)
                    && built matches Err(report) && text@ == report@)
            },
        r matches Ok(registry) ==> {
            let identity = registry.bound_to();
            &&& registry.resident().dom().len() == 0
            &&& forall|hash: B256| !(#[trigger] registry.resident().contains_key(hash))
            &&& registry.timings() is None
            &&& registry.gas_constants() == crate::spec::hardfork_gas_params(spec.hardfork())
            &&& registry.hash_source() == BlockHashSemantics::ArbosL1Ring
            &&& identity.block_hash_semantics@ == "arbos-l1-ring-blockhash-v1"@
            &&& identity.spec == spec
            &&& identity.eth_spec == spec.hardfork()
            &&& identity.target_arch@ == target_arch@
            &&& identity.target_os@ == target_os@
            &&& identity.simple_perf_requested == simple_perf
            &&& identity.compiler_runtime@
                == "revmc-6f8854dc/arbos-l1-ring-blockhash-v1/in-process-owned-jit/gas-metered/single-error-off/stack-checks-on"@
        },
{
}

/// Compiling never changes what a registry is bound to. Code that is refused, or that has a program
/// already, leaves the registry as it was, and the latter gives the hash of the code. Other code
/// is handed to the compiler whole, for the hardfork that the registry is bound to, under the
/// symbol of its hash; where that and clearing up went well, its program is resident from then on
/// under the hash and the length of the code, and otherwise the programs are the same as before.
#[verifier::spinoff_prover]
#[verifier::rlimit(40)]
pub proof fn lemma_what_compiling_does<
    C,
    F: Copy,
    T: Copy,
    J: FnOnce(&mut C, JitJob) -> Result<F, String>,
    M: FnOnce(&mut C) -> T,
    D: FnOnce(&mut C) -> Result<(), String>,
>(
    bytecode: &[u8],
    jit: J,
    time: M,
    clear: D,
    ring: bool,
    reason: Option<IneligibleReason>,
    hash: B256,
)
    requires
        call_ensures(bytecode_ineligible_with_ring, (bytecode, ring), reason),
        hash@ == crate::bytes::be_value(crate::hashing::keccak_bytes(bytecode@)),
    ensures
        forall|registry: &mut CompiledFrameRegistry<C, F, T>, r: Result<B256, CompiledFrameError>|
            #[trigger] call_ensures(
                CompiledFrameRegistry::<C, F, T>::compile::<J, M, D>,
                (registry, bytecode, jit, time, clear),
                r,
            ) && ring == (registry.hash_source() == BlockHashSemantics::ArbosL1Ring
                && registry.bound_to().block_hash_semantics@ == "arbos-l1-ring-blockhash-v1"@)
                ==> {
                let before = *registry;
                let after = *final(registry);
                let unchanged = {
                    &&& after.owned_compiler() == before.owned_compiler()
                    &&& after.resident() == before.resident()
                    &&& after.timings() == before.timings()
                };
                &&& after.bound_to() == before.bound_to()
                &&& after.gas_constants() == before.gas_constants()
                &&& after.hash_source() == before.hash_source()
                &&& reason matches Some(why) ==> unchanged && r == Err::<B256, CompiledFrameError>(
                    CompiledFrameError::Ineligible(why),
                )
                &&& reason is None && before.resident().contains_key(hash) ==> unchanged && r
                    == Ok::<B256, CompiledFrameError>(hash)
                &&& reason is None && !before.resident().contains_key(hash) ==> {
                    &&& r matches Ok(given) ==> given == hash
                    &&& r is Err ==> after.resident() == before.resident()
                    &&& exists|
                        compiler: &mut C,
                        cleaner: &mut C,
                        job: JitJob,
                        function: Result<F, String>,
                        cleared: Result<(), String>,
                    |
                        {
                            &&& #[trigger] call_ensures(jit, (compiler, job), function)
                            &&& #[trigger] call_ensures(clear, (cleaner,), cleared)
                            &&& *compiler == before.owned_compiler()
                            &&& job.bytecode@ == bytecode@
                            &&& job.eth_spec == before.bound_to().eth_spec
                            &&& job.name@ == "arb_0x"@ + crate::text::hex_text(hash.bytes())
                            &&& r is Ok <==> function is Ok && cleared is Ok
                            &&& r is Ok ==> after.resident() == before.resident().insert(
                                hash,
                                (function->Ok_0, bytecode@.len()),
                            )
                            &&& function matches Err(report) ==> r == Err::<
                                B256,
                                CompiledFrameError,
                            >(CompiledFrameError::Compiler(report))
                            &&& function is Ok && cleared is Err ==> r == Err::<
                                B256,
                                CompiledFrameError,
                            >(CompiledFrameError::Compiler(cleared->Err_0))
                        }
                }
            },
{
    assert forall|other: B256| #[trigger] is_hash_of(other, bytecode@) implies other == hash by {
        crate::words::lemma_word_value(other.word, hash.word);
    }
    assert(is_hash_of(hash, bytecode@));
}

/// The texts of errors.
pub proof fn lemma_texts_of_errors(e: CompiledFrameError, r: String)
    requires
        call_ensures(CompiledFrameError::message, (&e,), r),
    ensures
        match e {
            CompiledFrameError::Compiler(report) => r@ == "revmc compiler error: "@ + report@,
            CompiledFrameError::Ineligible(reason) => r@ == "bytecode ineligible for compilation: "@
                + match reason {
                IneligibleReason::Empty => "Empty"@,
                IneligibleReason::EofOrStylusPrefix => "EofOrStylusPrefix"@,
                IneligibleReason::InstructionOverride(op) => "InstructionOverride("@
                    + crate::text::decimal_text(op) + ")"@,
            },
        },
{
}

/// All hits together are those of each program, added up modulo 2^64: none where there is no
/// program, and one program's own on top of those of all others.
pub proof fn lemma_hits_add_up<C, F: Copy, T: Copy>(
    registry: CompiledFrameRegistry<C, F, T>,
    hits: DispatchHits,
    total: u64,
    hash: B256,
    own: u64,
)
    requires
        call_ensures(CompiledFrameRegistry::<C, F, T>::dispatch_hits, (&registry, &hits), total),
        call_ensures(
            CompiledFrameRegistry::<C, F, T>::dispatch_hits_for,
            (&registry, &hits, hash),
            own,
        ),
        registry.resident().dom().finite(),
    ensures
        registry.resident().dom().len() == 0 ==> total == 0,
        !registry.resident().contains_key(hash) ==> own == 0,
        registry.resident().contains_key(hash) ==> own == hits.count(hash) && total == (own
            + total_hits(registry.resident().dom().remove(hash), hits))
            % 0x1_0000_0000_0000_0000,
        total_hits(Set::empty(), hits) == 0,
{
    if registry.resident().contains_key(hash) {
        lemma_total_hits(registry.resident().dom(), hits, hash);
    }
}

/// Two identities are equal exactly where all of their fields are.
pub proof fn lemma_identities_are_compared_by_every_field(
    a: CompiledFrameIdentity,
    b: CompiledFrameIdentity,
    same: bool,
)
    requires
        call_ensures(<CompiledFrameIdentity as PartialEq>::eq, (&a, &b), same),
    ensures
        same <==> {
            &&& a.spec == b.spec
            &&& a.eth_spec == b.eth_spec
            &&& a.target_arch@ == b.target_arch@
            &&& a.target_os@ == b.target_os@
            &&& a.block_hash_semantics@ == b.block_hash_semantics@
            &&& a.compiler_runtime@ == b.compiler_runtime@
            &&& a.simple_perf_requested == b.simple_perf_requested
        },
{
}

} // verus!
