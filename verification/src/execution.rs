//! Whole executions, as sequences of frames that are run one after the other.
//!
//! What a frame does, what a program does to it, and what the handler makes of it is a model
//! here; how each frame is run is what `ArbEvm::frame_run` decides.
use crate::evm::{ArbEvm, FrameRoute, FrameRunEvent};
use crate::compiled_frame::registry::{CompiledFrameRegistry, DispatchHits};
use crate::primitives::B256;
use crate::spans::FrameInput;
use crate::spec::ArbSpecId;
use crate::stack_dispatch::{KernelModel, TableModel};
use vstd::prelude::*;

verus! {

/// What a frame is run under.
pub struct RulesModel {
    pub spec: ArbSpecId,
    pub gas_params: Seq<u64>,
}

/// A frame that is about to be run.
pub struct FrameModel {
    pub event: FrameRunEvent,
    pub rules: RulesModel,
    pub input: FrameInput,
    pub code: Seq<u8>,
    pub state: KernelModel,
}

/// How a frame's run ended: the frame's state, the rest of the machine, and the result or the
/// request that the frame ended with.
pub struct FrameEnd<W, E> {
    pub state: KernelModel,
    pub world: W,
    pub end: E,
}

/// What the handler does after a frame's run.
pub enum HandlerStep<W, R> {
    /// It runs a frame: the same one again, one that was asked for, or the caller.
    Run(FrameModel, W),
    /// It is done.
    Done(R),
}

/// What the parts of a machine do.
#[verifier::reject_recursive_types(W)]
#[verifier::reject_recursive_types(E)]
#[verifier::reject_recursive_types(R)]
#[verifier::reject_recursive_types(F)]
pub struct MachineModel<W, E, R, F> {
    /// The instruction table under given rules, for frames with the given code.
    pub table: spec_fn(RulesModel, Seq<u8>) -> TableModel<W, E>,
    /// The static gas costs under given rules.
    pub costs: spec_fn(RulesModel) -> Seq<u16>,
    /// How a program's run of a frame ends, if it ends.
    pub program: spec_fn(F, KernelModel, W) -> Option<FrameEnd<W, E>>,
    /// How a Stylus program's run of a frame ends.
    pub stylus: spec_fn(FrameModel, W) -> FrameEnd<W, E>,
    pub handler: spec_fn(FrameModel, FrameEnd<W, E>) -> HandlerStep<W, R>,
}

/// The run of one frame.
pub struct Visit<W, E> {
    pub frame: FrameModel,
    pub world: W,
    pub end: FrameEnd<W, E>,
}

/// The hash that code is known by.
pub open spec fn code_hash(code: Seq<u8>) -> B256 {
    choose|hash: B256| crate::compiled_frame::registry::is_hash_of(hash, code)
}

/// A hash of code is the one that it is known by.
pub proof fn lemma_code_hash(hash: B256, code: Seq<u8>)
    requires
        crate::compiled_frame::registry::is_hash_of(hash, code),
    ensures
        hash == code_hash(code),
{
    crate::words::lemma_word_value(hash.word, code_hash(code).word);
}

impl<W, E, R, F> MachineModel<W, E, R, F> {
    /// Whether stepping through the table ends so.
    pub open spec fn steps_to(
        self,
        rules: RulesModel,
        code: Seq<u8>,
        s: KernelModel,
        w: W,
        end: FrameEnd<W, E>,
    ) -> bool {
        exists|n: nat| #[trigger]
            (self.table)(rules, code).plain_run(code, (self.costs)(rules), s, w, n) == (
                end.state,
                end.world,
                Some(end.end),
            )
    }

    /// Whether the stack kernel's run ends so.
    pub open spec fn dispatches_to(
        self,
        rules: RulesModel,
        code: Seq<u8>,
        s: KernelModel,
        w: W,
        end: FrameEnd<W, E>,
    ) -> bool {
        exists|rounds: nat| #[trigger]
            (self.table)(rules, code).direct_run(code, (self.costs)(rules), s, w, rounds) == (
                end.state,
                end.world,
                Some(end.end),
            )
    }

    /// Whether the table holds the hot stack instructions themselves.
    pub open spec fn has_canonical_table(self) -> bool {
        forall|rules: RulesModel, code: Seq<u8>| #[trigger]
            (self.table)(rules, code).is_canonical(code)
    }

    /// Whether a program does to frames what stepping through their code does.
    pub open spec fn is_faithful(self, program: F, rules: RulesModel, code: Seq<u8>) -> bool {
        forall|s: KernelModel, w: W, end: FrameEnd<W, E>|
            (self.program)(program, s, w) == Some(end) <==> #[trigger] self.steps_to(
                rules,
                code,
                s,
                w,
                end,
            )
    }

    /// Whether a run by the given route ends so.
    pub open spec fn ends(self, route: FrameRoute<F>, visit: Visit<W, E>) -> bool {
        let frame = visit.frame;
        match route {
            FrameRoute::Stylus => visit.end == (self.stylus)(frame, visit.world),
            FrameRoute::Compiled(program) => (self.program)(program, frame.state, visit.world)
                == Some(visit.end),
            FrameRoute::StackKernel => self.dispatches_to(
                frame.rules,
                frame.code,
                frame.state,
                visit.world,
                visit.end,
            ),
            FrameRoute::Interpreter => self.steps_to(
                frame.rules,
                frame.code,
                frame.state,
                visit.world,
                visit.end,
            ),
        }
    }
}

/// The route that a frame takes.
pub open spec fn route_of<CTX, INSP, I, P, S, C, F: Copy, T: Copy>(
    evm: ArbEvm<CTX, INSP, I, P, S, C, F, T>,
    frame: FrameModel,
) -> FrameRoute<F> {
    evm.route(
        frame.event,
        frame.rules.spec,
        frame.rules.gas_params,
        frame.input,
        code_hash(frame.code),
        frame.code.len(),
    )
}

/// How an EVM runs frames.
pub open spec fn routes_of<CTX, INSP, I, P, S, C, F: Copy, T: Copy>(
    evm: ArbEvm<CTX, INSP, I, P, S, C, F, T>,
) -> spec_fn(FrameModel) -> FrameRoute<F> {
    |frame: FrameModel| route_of(evm, frame)
}

/// How an EVM runs frames where no compiled program runs any.
pub open spec fn uncompiled_routes_of<CTX, INSP, I, P, S, C, F: Copy, T: Copy>(
    evm: ArbEvm<CTX, INSP, I, P, S, C, F, T>,
) -> spec_fn(FrameModel) -> FrameRoute<F> {
    |frame: FrameModel| evm.uncompiled_route(frame.event)
}

/// The route that `ArbEvm::frame_run` gives a frame is `route_of` it, and its count is that of the
/// code's hash: whichever hash it takes the code to have, where none is kept with the code or the
/// one that is kept is the code's own.
pub proof fn lemma_live_hash_takes_the_route<CTX, INSP, I, P, S, C, F: Copy, T: Copy>(
    evm: ArbEvm<CTX, INSP, I, P, S, C, F, T>,
    frame: FrameModel,
    kept: Option<B256>,
    hash: B256,
)
    requires
        kept matches Some(known) ==> crate::compiled_frame::registry::is_hash_of(known, frame.code),
        crate::compiled_frame::dispatch::is_live_hash(hash, frame.code, kept),
    ensures
        hash == code_hash(frame.code),
        evm.route(
            frame.event,
            frame.rules.spec,
            frame.rules.gas_params,
            frame.input,
            hash,
            frame.code.len(),
        ) == route_of(evm, frame),
{
    lemma_code_hash(hash, frame.code);
}

/// Whether every resident program does to frames under the rules and gas constants that it was
/// compiled for what stepping through its code does.
pub open spec fn programs_are_faithful<W, E, R, C, F: Copy, T: Copy>(
    machine: MachineModel<W, E, R, F>,
    registry: CompiledFrameRegistry<C, F, T>,
) -> bool {
    forall|rules: RulesModel, code: Seq<u8>, program: F|
        registry.accepts(rules.spec, rules.gas_params) && registry.found(
            code_hash(code),
            code.len(),
        ) == Some(program) ==> #[trigger] machine.is_faithful(program, rules, code)
}

/// Whether an EVM's frames all do what stepping through their code does: its programs are
/// faithful, and its stack kernel has the canonical table.
pub open spec fn is_sound<W, E, R, CTX, INSP, I, P, S, C, F: Copy, T: Copy>(
    machine: MachineModel<W, E, R, F>,
    evm: ArbEvm<CTX, INSP, I, P, S, C, F, T>,
) -> bool {
    &&& evm.programs() matches Some(registry) ==> programs_are_faithful(machine, *registry)
    &&& evm.has_stack_kernel() ==> machine.has_canonical_table()
}

/// Whether the runs of frames, from the first on, are an execution with the given result, where
/// frames are run by the given routes.
pub open spec fn is_execution<W, E, R, F>(
    machine: MachineModel<W, E, R, F>,
    routes: spec_fn(FrameModel) -> FrameRoute<F>,
    visits: Seq<Visit<W, E>>,
    result: R,
) -> bool
    decreases visits.len(),
{
    &&& visits.len() > 0
    &&& machine.ends(routes(visits[0].frame), visits[0])
    &&& match (machine.handler)(visits[0].frame, visits[0].end) {
        HandlerStep::Done(r) => visits.len() == 1 && r == result,
        HandlerStep::Run(frame, world) => {
            &&& visits.len() > 1
            &&& visits[1].frame == frame
            &&& visits[1].world == world
            &&& is_execution(machine, routes, visits.skip(1), result)
        },
    }
}

/// After stepping has ended, further steps change nothing.
proof fn lemma_stays_ended<W, E>(
    table: TableModel<W, E>,
    code: Seq<u8>,
    costs: Seq<u16>,
    s: KernelModel,
    w: W,
    m: nat,
    n: nat,
)
    requires
        table.plain_run(code, costs, s, w, m).2 is Some,
        m <= n,
    ensures
        table.plain_run(code, costs, s, w, n) == table.plain_run(code, costs, s, w, m),
{
    crate::stack_dispatch::lemma_plain_run_parts(table, code, costs, s, w, m, (n - m) as nat);
}

/// The stack kernel's run ends exactly where and how stepping through the canonical table does.
pub proof fn lemma_kernel_ends_as_steps_do<W, E, R, F>(
    machine: MachineModel<W, E, R, F>,
    rules: RulesModel,
    code: Seq<u8>,
    s: KernelModel,
    w: W,
    end: FrameEnd<W, E>,
)
    requires
        machine.has_canonical_table(),
    ensures
        machine.dispatches_to(rules, code, s, w, end) <==> machine.steps_to(
            rules,
            code,
            s,
            w,
            end,
        ),
{
    let table = (machine.table)(rules, code);
    let costs = (machine.costs)(rules);
    let last = (end.state, end.world, Some(end.end));
    assert(table.is_canonical(code));
    if machine.dispatches_to(rules, code, s, w, end) {
        let rounds = choose|rounds: nat| #[trigger]
            table.direct_run(code, costs, s, w, rounds) == last;
        crate::stack_dispatch::lemma_direct_dispatch_is_plain_stepping(
            table,
            code,
            costs,
            s,
            w,
            rounds,
        );
        let n = table.direct_steps(code, costs, s, w, rounds);
        assert(table.plain_run(code, costs, s, w, n) == last);
    }
    if machine.steps_to(rules, code, s, w, end) {
        let n = choose|n: nat| #[trigger] table.plain_run(code, costs, s, w, n) == last;
        crate::stack_dispatch::lemma_direct_dispatch_is_plain_stepping(table, code, costs, s, w, n);
        crate::stack_dispatch::lemma_rounds_take_steps(table, code, costs, s, w, n);
        let m = table.direct_steps(code, costs, s, w, n);
        if n <= m {
            lemma_stays_ended(table, code, costs, s, w, n, m);
        } else {
            lemma_stays_ended(table, code, costs, s, w, m, n);
        }
        assert(table.direct_run(code, costs, s, w, n) == last);
    }
}

/// However a frame is run that Stylus does not run, its run ends as stepping through its code
/// does, and as it does where no compiled program runs it.
pub proof fn lemma_every_route_ends_as_steps_do<W, E, R, CTX, INSP, I, P, S, C, F: Copy, T: Copy>(
    machine: MachineModel<W, E, R, F>,
    evm: ArbEvm<CTX, INSP, I, P, S, C, F, T>,
    visit: Visit<W, E>,
)
    requires
        is_sound(machine, evm),
        visit.frame.event != (FrameRunEvent::Entered { stylus: true }),
    ensures
        machine.ends(route_of(evm, visit.frame), visit) <==> machine.steps_to(
            visit.frame.rules,
            visit.frame.code,
            visit.frame.state,
            visit.world,
            visit.end,
        ),
        machine.ends(evm.uncompiled_route(visit.frame.event), visit) <==> machine.steps_to(
            visit.frame.rules,
            visit.frame.code,
            visit.frame.state,
            visit.world,
            visit.end,
        ),
{
    let rules = visit.frame.rules;
    let code = visit.frame.code;
    let s = visit.frame.state;
    if evm.has_stack_kernel() {
        lemma_kernel_ends_as_steps_do(machine, rules, code, s, visit.world, visit.end);
    }
    if let FrameRoute::Compiled(program) = route_of(evm, visit.frame) {
        assert(evm.programs()->0.found(code_hash(code), code.len()) == Some(program));
        assert(machine.is_faithful(program, rules, code));
        assert((machine.program)(program, s, visit.world) == Some(visit.end) <==> machine.steps_to(
            rules,
            code,
            s,
            visit.world,
            visit.end,
        ));
    }
}

/// Compiled programs change no execution: where each does to a frame what stepping through its
/// code does, the same runs of frames are an execution with the same result whether frames are
/// run by the routes of `ArbEvm::frame_run` or none is run by a program.
pub proof fn lemma_programs_change_no_execution<
    W,
    E,
    R,
    CTX,
    INSP,
    I,
    P,
    S,
    C,
    F: Copy,
    T: Copy,
>(
    machine: MachineModel<W, E, R, F>,
    evm: ArbEvm<CTX, INSP, I, P, S, C, F, T>,
    visits: Seq<Visit<W, E>>,
    result: R,
)
    requires
        is_sound(machine, evm),
    ensures
        is_execution(machine, routes_of(evm), visits, result) <==> is_execution(
            machine,
            uncompiled_routes_of(evm),
            visits,
            result,
        ),
    decreases visits.len(),
{
    if visits.len() > 0 {
        if visits[0].frame.event != (FrameRunEvent::Entered { stylus: true }) {
            lemma_every_route_ends_as_steps_do(machine, evm, visits[0]);
        }
        lemma_programs_change_no_execution(machine, evm, visits.skip(1), result);
    }
}

/// Two EVMs that execute the same first frame on the same machine agree in every frame, in every
/// state between, and in the result, whichever of them has programs.
pub proof fn lemma_executions_agree<W, E, R, CTX, INSP, I, P, S, C, F: Copy, T: Copy>(
    machine: MachineModel<W, E, R, F>,
    a: ArbEvm<CTX, INSP, I, P, S, C, F, T>,
    b: ArbEvm<CTX, INSP, I, P, S, C, F, T>,
    xs: Seq<Visit<W, E>>,
    ys: Seq<Visit<W, E>>,
    x: R,
    y: R,
)
    requires
        is_sound(machine, a),
        is_sound(machine, b),
        is_execution(machine, routes_of(a), xs, x),
        is_execution(machine, routes_of(b), ys, y),
        xs[0].frame == ys[0].frame,
        xs[0].world == ys[0].world,
    ensures
        xs == ys,
        x == y,
    decreases xs.len(),
{
    let frame = xs[0].frame;
    if frame.event != (FrameRunEvent::Entered { stylus: true }) {
        lemma_every_route_ends_as_steps_do(machine, a, xs[0]);
        lemma_every_route_ends_as_steps_do(machine, b, ys[0]);
        lemma_ends_once(
            machine,
            frame.rules,
            frame.code,
            frame.state,
            xs[0].world,
            xs[0].end,
            ys[0].end,
        );
    }
    assert(xs[0] == ys[0]);
    if (machine.handler)(frame, xs[0].end) is Run {
        assert(xs.skip(1)[0] == xs[1] && ys.skip(1)[0] == ys[1]);
        lemma_executions_agree(machine, a, b, xs.skip(1), ys.skip(1), x, y);
        assert(xs =~= seq![xs[0]] + xs.skip(1));
        assert(ys =~= seq![ys[0]] + ys.skip(1));
    } else {
        assert(xs =~= ys);
    }
}

/// Stepping through code ends in one way at most.
proof fn lemma_ends_once<W, E, R, F>(
    machine: MachineModel<W, E, R, F>,
    rules: RulesModel,
    code: Seq<u8>,
    s: KernelModel,
    w: W,
    a: FrameEnd<W, E>,
    b: FrameEnd<W, E>,
)
    requires
        machine.steps_to(rules, code, s, w, a),
        machine.steps_to(rules, code, s, w, b),
    ensures
        a == b,
{
    let table = (machine.table)(rules, code);
    let costs = (machine.costs)(rules);
    let m = choose|m: nat| #[trigger]
        table.plain_run(code, costs, s, w, m) == (a.state, a.world, Some(a.end));
    let n = choose|n: nat| #[trigger]
        table.plain_run(code, costs, s, w, n) == (b.state, b.world, Some(b.end));
    if m <= n {
        lemma_stays_ended(table, code, costs, s, w, m, n);
    } else {
        lemma_stays_ended(table, code, costs, s, w, n, m);
    }
}

/// Whether a run of a frame is one that a program makes, of code with the given hash.
pub open spec fn is_program_run<W, E, CTX, INSP, I, P, S, C, F: Copy, T: Copy>(
    evm: ArbEvm<CTX, INSP, I, P, S, C, F, T>,
    visit: Visit<W, E>,
    hash: B256,
) -> bool {
    route_of(evm, visit.frame) is Compiled && code_hash(visit.frame.code) == hash
}

/// How many runs of frames with code of a hash a program made.
pub open spec fn program_runs<W, E, CTX, INSP, I, P, S, C, F: Copy, T: Copy>(
    evm: ArbEvm<CTX, INSP, I, P, S, C, F, T>,
    visits: Seq<Visit<W, E>>,
    hash: B256,
) -> nat
    decreases visits.len(),
{
    if visits.len() == 0 {
        0
    } else {
        program_runs(evm, visits.drop_last(), hash) + (if is_program_run(
            evm,
            visits.last(),
            hash,
        ) {
            1nat
        } else {
            0nat
        })
    }
}

/// Whether the hits before and after each run of a frame are those that routing it leaves.
pub open spec fn are_hits_of<W, E, CTX, INSP, I, P, S, C, F: Copy, T: Copy>(
    evm: ArbEvm<CTX, INSP, I, P, S, C, F, T>,
    visits: Seq<Visit<W, E>>,
    hits: Seq<DispatchHits>,
) -> bool {
    &&& hits.len() == visits.len() + 1
    &&& forall|i: int|
        0 <= i < visits.len() ==> crate::compiled_frame::registry::counted_for(
            #[trigger] hits[i],
            hits[i + 1],
            code_hash(visits[i].frame.code),
            route_of(evm, visits[i].frame) is Compiled,
        )
}

/// Each of two runs that a program makes is counted.
proof fn lemma_program_runs_at_least<W, E, CTX, INSP, I, P, S, C, F: Copy, T: Copy>(
    evm: ArbEvm<CTX, INSP, I, P, S, C, F, T>,
    visits: Seq<Visit<W, E>>,
    hash: B256,
    i: int,
    j: int,
)
    requires
        0 <= i <= j < visits.len(),
        is_program_run(evm, visits[i], hash),
        is_program_run(evm, visits[j], hash),
    ensures
        program_runs(evm, visits, hash) >= (if i < j {
            2int
        } else {
            1
        }),
    decreases visits.len(),
{
    let head = visits.drop_last();
    if j < head.len() {
        lemma_program_runs_at_least(evm, head, hash, i, j);
    } else if i < j {
        lemma_program_runs_at_least(evm, head, hash, i, i);
    }
}

/// A hash whose code a program ran in an execution was hit at least once, and at least twice
/// where its frame was resumed, as long as no count starts again at zero.
pub proof fn lemma_executed_programs_are_hit<W, E, CTX, INSP, I, P, S, C, F: Copy, T: Copy>(
    evm: ArbEvm<CTX, INSP, I, P, S, C, F, T>,
    visits: Seq<Visit<W, E>>,
    hits: Seq<DispatchHits>,
    hash: B256,
    entered: int,
    resumed: int,
)
    requires
        are_hits_of(evm, visits, hits),
        hits[0].count(hash) + visits.len() <= u64::MAX,
        0 <= entered <= resumed < visits.len(),
        is_program_run(evm, visits[entered], hash),
        is_program_run(evm, visits[resumed], hash),
    ensures
        hits.last().count(hash) >= hits[0].count(hash) + 1,
        entered < resumed ==> hits.last().count(hash) >= hits[0].count(hash) + 2,
{
    lemma_hits_count_program_runs(evm, visits, hits, hash);
    lemma_program_runs_at_least(evm, visits, hash, entered, resumed);
}

/// After an execution each hash was hit as often as a program made a run of its code, as long as
/// no count starts again at zero.
pub proof fn lemma_hits_count_program_runs<W, E, CTX, INSP, I, P, S, C, F: Copy, T: Copy>(
    evm: ArbEvm<CTX, INSP, I, P, S, C, F, T>,
    visits: Seq<Visit<W, E>>,
    hits: Seq<DispatchHits>,
    hash: B256,
)
    requires
        are_hits_of(evm, visits, hits),
        hits[0].count(hash) + visits.len() <= u64::MAX,
    ensures
        hits.last().count(hash) == hits[0].count(hash) + program_runs(evm, visits, hash),
        program_runs(evm, visits, hash) <= visits.len(),
    decreases visits.len(),
{
    if visits.len() > 0 {
        let n = visits.len() - 1;
        let head = visits.drop_last();
        let before = hits.drop_last();
        assert forall|i: int|
            0 <= i < head.len() implies crate::compiled_frame::registry::counted_for(
            #[trigger] before[i],
            before[i + 1],
            code_hash(head[i].frame.code),
            route_of(evm, head[i].frame) is Compiled,
        ) by {
            assert(before[i] == hits[i] && before[i + 1] == hits[i + 1] && head[i] == visits[i]);
        }
        lemma_hits_count_program_runs(evm, head, before, hash);
        assert(before.last() == hits[n]);
        assert(hits.last() == hits[n + 1]);
    }
}

/// Every run of a call frame under the rules and gas constants of the programs is a program's,
/// where there is one for its code: it is counted once for each time that the frame is entered or
/// resumed.
pub proof fn lemma_resident_code_is_run_by_its_program<
    CTX,
    INSP,
    I,
    P,
    S,
    C,
    F: Copy,
    T: Copy,
>(evm: ArbEvm<CTX, INSP, I, P, S, C, F, T>, frame: FrameModel, program: F)
    requires
        frame.event != (FrameRunEvent::Entered { stylus: true }),
        frame.input is Call,
        evm.programs() matches Some(registry) && registry.accepts(
            frame.rules.spec,
            frame.rules.gas_params,
        )
            && registry.found(code_hash(frame.code), frame.code.len()) == Some(program),
    ensures
        route_of(evm, frame) == FrameRoute::Compiled(program),
{
    let registry = evm.programs()->0;
    assert(registry.resident().contains_key(code_hash(frame.code)));
}

} // verus!
