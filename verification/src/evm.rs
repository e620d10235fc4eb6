//! The EVM of the chain, and how its frames are routed.
use crate::compiled_frame::dispatch::try_execute;
use crate::compiled_frame::registry::{CompiledFrameRegistry, DispatchHits};
use crate::instructions::{canonical_arb_instructions, ArbInstructions};
use crate::primitives::B256;
use crate::spans::FrameInput;
use crate::spec::{ArbSpecId, GasParams};
use crate::stack_dispatch::{CanonicalStackInstructions, StackDispatchMode};
use std::sync::Arc;
use vstd::prelude::*;

verus! {

/// The parts that execution runs on.
#[derive(Debug)]
pub struct Evm<CTX, INSP, I, P, S> {
    pub ctx: CTX,
    pub inspector: INSP,
    pub instruction: I,
    pub precompiles: P,
    pub frame_stack: S,
}

/// The EVM of the chain. Besides its parts it has, optionally, a registry of compiled
/// programs, and it knows whether frames are run by the stack kernel.
pub struct ArbEvm<CTX, INSP, I, P, S, C, F, T> {
    inner: Evm<CTX, INSP, I, P, S>,
    registry: Option<Arc<CompiledFrameRegistry<C, F, T>>>,
    stack_kernel: bool,
}

/// What happened to the current frame since the last call.
#[derive(Clone, Copy, Debug, PartialEq, Eq, Structural)]
pub enum FrameRunEvent {
    /// The frame is to be run; `stylus` tells whether its code is a Stylus program.
    Entered { stylus: bool },
    /// The Stylus program gave no action.
    StylusDeclined,
}

/// How the current frame is run.
#[derive(Debug, PartialEq, Eq)]
pub enum FrameRoute<F> {
    /// As a Stylus program.
    Stylus,
    /// By a compiled program.
    Compiled(F),
    /// By the stack kernel.
    StackKernel,
    /// By the interpreter.
    Interpreter,
}

impl<CTX, INSP, I, P, S, C, F: Copy, T: Copy> ArbEvm<CTX, INSP, I, P, S, C, F, T> {
    /// The parts.
    pub closed spec fn parts(self) -> Evm<CTX, INSP, I, P, S> {
        self.inner
    }

    /// The registry of compiled programs, if there is one.
    pub closed spec fn programs(self) -> Option<Arc<CompiledFrameRegistry<C, F, T>>> {
        self.registry
    }

    /// Whether frames are run by the stack kernel.
    pub closed spec fn has_stack_kernel(self) -> bool {
        self.stack_kernel
    }

    /// Whether a program is looked up for a frame: not for one that Stylus runs, and only
    /// in a registry that has programs, for the rules and gas constants that they were
    /// compiled for.
    pub open spec fn looks_up(
        self,
        event: FrameRunEvent,
        spec: ArbSpecId,
        gas_params: Seq<u64>,
        input: FrameInput,
    ) -> bool {
        &&& event != (FrameRunEvent::Entered { stylus: true })
        &&& input is Call
        &&& self.programs() matches Some(registry) && registry.resident() != Map::<
            B256,
            (F, nat),
        >::empty() && registry.accepts(spec, gas_params)
    }

    /// How a frame is run that no compiled program runs.
    pub open spec fn uncompiled_route(self, event: FrameRunEvent) -> FrameRoute<F> {
        if event == (FrameRunEvent::Entered { stylus: true }) {
            FrameRoute::Stylus
        } else if self.has_stack_kernel() {
            FrameRoute::StackKernel
        } else {
            FrameRoute::Interpreter
        }
    }

    /// How a frame is run: by the program for its code, where one is looked up and found.
    pub open spec fn route(
        self,
        event: FrameRunEvent,
        spec: ArbSpecId,
        gas_params: Seq<u64>,
        input: FrameInput,
        hash: B256,
        len: nat,
    ) -> FrameRoute<F> {
        if self.looks_up(event, spec, gas_params, input) {
            match self.programs()->0.found(hash, len) {
                Some(program) => FrameRoute::Compiled(program),
                None => self.uncompiled_route(event),
            }
        } else {
            self.uncompiled_route(event)
        }
    }

    /// Wraps the parts. There are no compiled programs, and the interpreter runs frames.
    pub fn from_inner(inner: Evm<CTX, INSP, I, P, S>) -> (r: ArbEvm<CTX, INSP, I, P, S, C, F, T>)
        ensures
            r.parts() == inner,
            r.programs() is None,
            !r.has_stack_kernel(),
    {
        ArbEvm { inner, registry: None, stack_kernel: false }
    }

    /// The same EVM with another inspector.
    pub fn with_inspector<N>(self, inspector: N) -> (r: ArbEvm<CTX, N, I, P, S, C, F, T>)
        ensures
            r.parts() == (Evm {
                ctx: self.parts().ctx,
                inspector,
                instruction: self.parts().instruction,
                precompiles: self.parts().precompiles,
                frame_stack: self.parts().frame_stack,
            }),
            r.programs() == self.programs(),
            r.has_stack_kernel() == self.has_stack_kernel(),
    {
        ArbEvm {
            inner: Evm {
                ctx: self.inner.ctx,
                inspector,
                instruction: self.inner.instruction,
                precompiles: self.inner.precompiles,
                frame_stack: self.inner.frame_stack,
            },
            registry: self.registry,
            stack_kernel: self.stack_kernel,
        }
    }

    /// The same EVM with other precompiles.
    pub fn with_precompiles<N>(self, precompiles: N) -> (r: ArbEvm<CTX, INSP, I, N, S, C, F, T>)
        ensures
            r.parts() == (Evm {
                ctx: self.parts().ctx,
                inspector: self.parts().inspector,
                instruction: self.parts().instruction,
                precompiles,
                frame_stack: self.parts().frame_stack,
            }),
            r.programs() == self.programs(),
            r.has_stack_kernel() == self.has_stack_kernel(),
    {
        ArbEvm {
            inner: Evm {
                ctx: self.inner.ctx,
                inspector: self.inner.inspector,
                instruction: self.inner.instruction,
                precompiles,
                frame_stack: self.inner.frame_stack,
            },
            registry: self.registry,
            stack_kernel: self.stack_kernel,
        }
    }

    /// Attaches a registry of compiled programs, or none.
    pub fn set_compiled_programs(&mut self, registry: Option<Arc<CompiledFrameRegistry<C, F, T>>>)
        ensures
            final(self).programs() == registry,
            final(self).parts() == old(self).parts(),
            final(self).has_stack_kernel() == old(self).has_stack_kernel(),
    {
        self.registry = registry;
    }

    /// The attached registry, if there is one.
    pub fn compiled_programs(&self) -> (r: Option<&Arc<CompiledFrameRegistry<C, F, T>>>)
        ensures
            match r {
                Some(registry) => self.programs() == Some(*registry),
                None => self.programs() is None,
            },
    {
        self.registry.as_ref()
    }

    /// The inspector.
    pub fn into_inspector(self) -> (r: INSP)
        ensures
            r == self.parts().inspector,
    {
        self.inner.inspector
    }

    /// The context.
    pub fn into_context(self) -> (r: CTX)
        ensures
            r == self.parts().ctx,
    {
        self.inner.ctx
    }
}

impl<CTX, INSP, I, P, S, C, F: Copy, T: Copy> ArbEvm<CTX, INSP, I, P, S, C, F, T> {
    /// The parts.
    pub fn inner(&self) -> (r: &Evm<CTX, INSP, I, P, S>)
        ensures
            *r == self.parts(),
    {
        &self.inner
    }

    /// The parts.
    pub fn inner_mut(&mut self) -> (r: &mut Evm<CTX, INSP, I, P, S>)
        ensures
            *r == old(self).parts(),
            final(self).parts() == *final(r),
            final(self).programs() == old(self).programs(),
            final(self).has_stack_kernel() == old(self).has_stack_kernel(),
    {
        &mut self.inner
    }

    /// The compiled program that runs the current frame, if one does.
    pub fn try_compiled_frame_action(
        &self,
        spec: ArbSpecId,
        gas_params: &GasParams,
        input: &FrameInput,
        code: &[u8],
        code_hash: &mut Option<B256>,
        hits: &mut DispatchHits,
    ) -> (r: Option<F>)
        ensures
            self.looks_up(FrameRunEvent::StylusDeclined, spec, gas_params@, *input) ==> exists|
                hash: B256,
            |
                {
                    &&& #[trigger] crate::compiled_frame::dispatch::is_live_hash(hash, code@, *old(code_hash))
                    &&& *final(code_hash) == Some(hash)
                    &&& r == self.programs()->0.found(hash, code@.len())
                    &&& crate::compiled_frame::registry::counted_for(*old(hits), *final(hits), hash, r is Some)
                },
            !self.looks_up(FrameRunEvent::StylusDeclined, spec, gas_params@, *input) ==> r is None
                && *final(code_hash) == *old(code_hash) && *final(hits) == *old(hits),
    {
        match &self.registry {
            Some(registry) => {
                if registry.is_empty() || !registry.accepts_context(spec, gas_params) {
                    return None;
                }
                try_execute(registry, input, code, code_hash, hits)
            },
            None => None,
        }
    }

    /// How the current frame is run: a Stylus program first, a compiled program next, then
    /// the stack kernel, and else the interpreter. The Stylus program may decline; then the
    /// others are asked in turn.
    pub fn frame_run(
        &self,
        event: FrameRunEvent,
        spec: ArbSpecId,
        gas_params: &GasParams,
        input: &FrameInput,
        code: &[u8],
        code_hash: &mut Option<B256>,
        hits: &mut DispatchHits,
    ) -> (r: FrameRoute<F>)
        ensures
            self.looks_up(event, spec, gas_params@, *input) ==> exists|hash: B256|
                {
                    &&& #[trigger] crate::compiled_frame::dispatch::is_live_hash(hash, code@, *old(code_hash))
                    &&& *final(code_hash) == Some(hash)
                    &&& r == self.route(event, spec, gas_params@, *input, hash, code@.len())
                    &&& crate::compiled_frame::registry::counted_for(
                        *old(hits),
                        *final(hits),
                        hash,
                        r is Compiled,
                    )
                },
            !self.looks_up(event, spec, gas_params@, *input) ==> r == self.uncompiled_route(event)
                && *final(code_hash) == *old(code_hash) && *final(hits) == *old(hits),
    {
        match event {
            FrameRunEvent::Entered { stylus } => {
                if stylus {
                    return FrameRoute::Stylus;
                }
            },
            FrameRunEvent::StylusDeclined => {},
        }
        if let Some(program) = self.try_compiled_frame_action(
            spec,
            gas_params,
            input,
            code,
            code_hash,
            hits,
        ) {
            return FrameRoute::Compiled(program);
        }
        if self.stack_kernel {
            FrameRoute::StackKernel
        } else {
            FrameRoute::Interpreter
        }
    }
}

impl<F> FrameRoute<F> {
    /// Whether the frame is to be marked as finished after its action was processed. The
    /// interpreter's own loop marks the frames that it runs.
    pub fn marks_finished(&self, is_result: bool) -> (r: bool)
        ensures
            r == (is_result && !(*self is Interpreter)),
    {
        match self {
            FrameRoute::Interpreter => false,
            _ => is_result,
        }
    }
}

impl<CTX, INSP, P, S, C, F: Copy, T: Copy> ArbEvm<CTX, INSP, ArbInstructions, P, S, C, F, T> {
    /// An EVM under `spec` that runs frames by the interpreter.
    pub fn new(ctx: CTX, inspector: INSP, spec: ArbSpecId, precompiles: P, frame_stack: S) -> (r:
        ArbEvm<CTX, INSP, ArbInstructions, P, S, C, F, T>)
        ensures
            r.parts().ctx == ctx,
            r.parts().inspector == inspector,
            r.parts().instruction.is_canonical(spec.hardfork()),
            r.parts().precompiles == precompiles,
            r.parts().frame_stack == frame_stack,
            r.programs() is None,
            !r.has_stack_kernel(),
    {
        let instruction = canonical_arb_instructions(spec);
        Self::from_inner(Evm { ctx, inspector, instruction, precompiles, frame_stack })
    }
}

impl<CTX, INSP, P, S, C, F: Copy, T: Copy> ArbEvm<
    CTX,
    INSP,
    CanonicalStackInstructions,
    P,
    S,
    C,
    F,
    T,
> {
    /// An EVM under `spec` that runs frames by the stack kernel, in the given mode.
    pub fn new_canonical(
        ctx: CTX,
        inspector: INSP,
        spec: ArbSpecId,
        mode: StackDispatchMode,
        precompiles: P,
        frame_stack: S,
    ) -> (r: ArbEvm<CTX, INSP, CanonicalStackInstructions, P, S, C, F, T>)
        ensures
            r.parts().ctx == ctx,
            r.parts().inspector == inspector,
            r.parts().instruction.table().is_canonical(spec.hardfork()),
            r.parts().instruction.dispatch_mode() == mode,
            r.parts().instruction.evidence().direct_frames == 0,
            r.parts().instruction.evidence().direct_steps == 0,
            r.parts().precompiles == precompiles,
            r.parts().frame_stack == frame_stack,
            r.programs() is None,
            r.has_stack_kernel(),
    {
        ArbEvm {
            inner: Evm {
                ctx,
                inspector,
                instruction: CanonicalStackInstructions::new(spec, mode),
                precompiles,
                frame_stack,
            },
            registry: None,
            stack_kernel: true,
        }
    }
}

/// Without programs no frame is run by one: a missing or an empty registry leaves every
/// frame to whatever else would run it.
pub proof fn lemma_no_programs_no_lookup<CTX, INSP, I, P, S, C, F: Copy, T: Copy>(
    evm: ArbEvm<CTX, INSP, I, P, S, C, F, T>,
    event: FrameRunEvent,
    spec: ArbSpecId,
    gas_params: Seq<u64>,
    input: FrameInput,
)
    requires
        evm.programs() matches Some(registry) ==> registry.resident() == Map::<
            B256,
            (F, nat),
        >::empty(),
    ensures
        !evm.looks_up(event, spec, gas_params, input),
{
}

/// A program runs only call frames, after Stylus had its turn, and only under the rules and
/// gas constants that it was compiled for.
pub proof fn lemma_unfit_frames_are_not_looked_up<CTX, INSP, I, P, S, C, F: Copy, T: Copy>(
    evm: ArbEvm<CTX, INSP, I, P, S, C, F, T>,
    event: FrameRunEvent,
    spec: ArbSpecId,
    gas_params: Seq<u64>,
    input: FrameInput,
)
    requires
        ({
            ||| event == (FrameRunEvent::Entered { stylus: true })
            ||| !(input is Call)
            ||| (evm.programs() matches Some(registry) && spec != registry.bound_to().spec)
            ||| (evm.programs() matches Some(registry) && gas_params != registry.gas_constants())
        }),
    ensures
        !evm.looks_up(event, spec, gas_params, input),
{
}

/// How frames are run: one with the code of a Stylus program as such, unless that declined. Any
/// other by a compiled program where it is a call under the rules and gas constants of the
/// registry, and the registry holds a program for its code; and else by the stack kernel, or by the
/// interpreter where the EVM has none.
pub proof fn lemma_how_frames_are_run<CTX, INSP, I, P, S, C, F: Copy, T: Copy>(
    evm: ArbEvm<CTX, INSP, I, P, S, C, F, T>,
    event: FrameRunEvent,
    spec: ArbSpecId,
    gas_params: GasParams,
    input: FrameInput,
    code: &[u8],
)
    ensures
        forall|code_hash: &mut Option<B256>, hits: &mut DispatchHits, r: FrameRoute<F>| #[trigger]
            call_ensures(
                ArbEvm::<CTX, INSP, I, P, S, C, F, T>::frame_run,
                (&evm, event, spec, &gas_params, &input, code, code_hash, hits),
                r,
            ) ==> {
                let stylus = event == (FrameRunEvent::Entered { stylus: true });
                let fits = input is Call && (evm.programs() matches Some(registry)
                    && registry.bound_to().spec == spec && registry.gas_constants() == gas_params@
                    && registry.reads_ring());
                &&& r is Stylus <==> stylus
                &&& r matches FrameRoute::Compiled(program) ==> {
                    &&& fits && !stylus
                    &&& *final(code_hash) matches Some(hash)
                    &&& *code_hash matches Some(kept) ==> hash == kept
                    &&& *code_hash is None ==> hash@ == crate::bytes::be_value(
                        crate::hashing::keccak_bytes(code@),
                    )
                    &&& evm.programs()->0.resident().contains_key(hash)
                    &&& evm.programs()->0.resident()[hash] == (program, code@.len())
                }
                &&& fits && !stylus ==> forall|live: B256|
                    #![trigger evm.programs()->0.resident().contains_key(live)]
                    (*code_hash == Some(live) || *code_hash is None && live@
                        == crate::bytes::be_value(crate::hashing::keccak_bytes(code@)))
                        && evm.programs()->0.resident().contains_key(live)
                        && evm.programs()->0.resident()[live].1 == code@.len() ==> r
                        == FrameRoute::Compiled(evm.programs()->0.resident()[live].0)
                &&& r is StackKernel ==> evm.has_stack_kernel()
                &&& r is Interpreter ==> !evm.has_stack_kernel()
            },
{
    assert forall|a: B256, b: B256| #[trigger] a@ == #[trigger] b@ implies a == b by {
        crate::words::lemma_word_value(a.word, b.word);
    }
    if let Some(registry) = evm.programs() {
        assert forall|hash: B256| #[trigger] registry.resident().contains_key(hash) implies
            registry.resident() != Map::<B256, (F, nat)>::empty() by {}
    }
}

} // verus!
