//! Direct dispatch of the hot stack instructions.
//!
//! The kernel runs `POP`, `PUSH1`, `PUSH2`, `DUP1` to `DUP3`, `SWAP1` and `SWAP2` by direct
//! calls, in the order in which the interpreter itself steps: advance, charge the static
//! gas, execute. At every other instruction it hands over to the instruction table.
use crate::instructions::{canonical_arb_instructions, ArbInstructions};
use crate::operand_stack::{stack_dup, stack_pop, stack_push_slice, stack_swap, STACK_LIMIT};
use crate::spec::ArbSpecId;
use revm::interpreter::Stack;
use vstd::prelude::*;

verus! {

/// How frames are run.
#[derive(Clone, Copy, Debug, PartialEq, Eq, Structural)]
pub enum StackDispatchMode {
    /// Every instruction goes through the table.
    Indirect,
    /// Hot instructions are called directly, and counted.
    Direct,
    /// The same kernel without counting: `direct_steps` stays as it is, which is no
    /// evidence that nothing was dispatched.
    DirectUncounted,
}

impl Default for StackDispatchMode {
    fn default() -> (r: StackDispatchMode)
        ensures
            r == StackDispatchMode::Indirect,
    {
        StackDispatchMode::Indirect
    }
}

/// Evidence of what was dispatched directly.
#[derive(Clone, Copy, Debug, PartialEq, Eq, Structural)]
pub struct StackDispatchStats {
    /// Frame invocations that the kernel ran, resumed frames included.
    pub direct_frames: u64,
    /// Hot instructions called after their static gas was charged, failing ones included.
    pub direct_steps: u64,
}

impl Default for StackDispatchStats {
    fn default() -> (r: StackDispatchStats)
        ensures
            r.direct_frames == 0,
            r.direct_steps == 0,
    {
        StackDispatchStats { direct_frames: 0, direct_steps: 0 }
    }
}

/// Why an instruction ended its frame.
#[derive(Clone, Copy, Debug, PartialEq, Eq, Structural)]
pub enum InstructionResult {
    OutOfGas,
    StackUnderflow,
    StackOverflow,
}

/// Why the kernel stopped.
#[derive(Clone, Copy, Debug, PartialEq, Eq, Structural)]
pub enum KernelExit {
    /// An instruction of the table comes next: it is charged for, and the program counter
    /// stands behind its opcode.
    Table(u8),
    /// The frame ends.
    Halt(InstructionResult),
}

/// What the kernel works on.
pub struct Kernel {
    /// The operand stack.
    pub stack: Stack,
    /// The program counter.
    pub pc: usize,
    /// The gas that is left.
    pub gas: u64,
}

/// What a kernel state holds.
#[verifier::ext_equal]
pub struct KernelModel {
    pub words: Seq<nat>,
    pub pc: nat,
    pub gas: u64,
}

impl View for Kernel {
    type V = KernelModel;

    open spec fn view(&self) -> KernelModel {
        KernelModel {
            words: crate::operand_stack::stack_words(self.stack),
            pc: self.pc as nat,
            gas: self.gas,
        }
    }
}

/// The byte of the code at `pc`; behind its end the code is padded with zeros.
pub open spec fn code_byte(code: Seq<u8>, pc: nat) -> u8 {
    if pc < code.len() {
        code[pc as int]
    } else {
        0
    }
}

/// The `n` bytes of the code from `pc` on.
pub open spec fn immediate(code: Seq<u8>, pc: nat, n: nat) -> Seq<u8> {
    Seq::new(n, |i: int| code_byte(code, (pc + i) as nat))
}

/// Whether the kernel calls an instruction directly.
pub open spec fn is_hot(op: u8) -> bool {
    ||| op == 0x50
    ||| op == 0x60
    ||| op == 0x61
    ||| op == 0x80
    ||| op == 0x81
    ||| op == 0x82
    ||| op == 0x90
    ||| op == 0x91
}

/// The gas left after charging `cost`; it wraps where there is not enough.
pub open spec fn charged(gas: u64, cost: u64) -> u64 {
    if cost <= gas {
        (gas - cost) as u64
    } else {
        (gas + 0x1_0000_0000_0000_0000 - cost) as u64
    }
}

/// Pushing the `n` bytes behind the opcode.
pub open spec fn push_effect(code: Seq<u8>, s: KernelModel, n: nat) -> Result<
    KernelModel,
    InstructionResult,
> {
    if s.words.len() < STACK_LIMIT {
        Ok(
            KernelModel {
                words: s.words.push(crate::bytes::be_value(immediate(code, s.pc, n))),
                pc: s.pc + n,
                gas: s.gas,
            },
        )
    } else {
        Err(InstructionResult::StackOverflow)
    }
}

/// Pushing a copy of the `n`th word from the top. A missing word is reported as an
/// overflow too.
pub open spec fn dup_effect(s: KernelModel, n: nat) -> Result<KernelModel, InstructionResult> {
    if n <= s.words.len() < STACK_LIMIT {
        Ok(KernelModel { words: s.words.push(s.words[s.words.len() - n]), pc: s.pc, gas: s.gas })
    } else {
        Err(InstructionResult::StackOverflow)
    }
}

/// Exchanging the top word for the one `n` below it.
pub open spec fn swap_effect(s: KernelModel, n: nat) -> Result<KernelModel, InstructionResult> {
    if n < s.words.len() {
        Ok(
            KernelModel {
                words: crate::operand_stack::swapped(s.words, n as int),
                pc: s.pc,
                gas: s.gas,
            },
        )
    } else {
        Err(InstructionResult::StackUnderflow)
    }
}

/// What a hot instruction does once it is charged for and `pc` stands behind its opcode.
pub open spec fn hot_effect(op: u8, code: Seq<u8>, s: KernelModel) -> Result<
    KernelModel,
    InstructionResult,
> {
    if op == 0x50 {
        if s.words.len() > 0 {
            Ok(KernelModel { words: s.words.drop_last(), pc: s.pc, gas: s.gas })
        } else {
            Err(InstructionResult::StackUnderflow)
        }
    } else if op == 0x60 {
        push_effect(code, s, 1)
    } else if op == 0x61 {
        push_effect(code, s, 2)
    } else if op == 0x80 {
        dup_effect(s, 1)
    } else if op == 0x81 {
        dup_effect(s, 2)
    } else if op == 0x82 {
        dup_effect(s, 3)
    } else if op == 0x90 {
        swap_effect(s, 1)
    } else {
        swap_effect(s, 2)
    }
}

/// One step of the interpreter, as far as the kernel takes it: the state after it, and why
/// it stops there, if it does.
pub open spec fn kernel_step(code: Seq<u8>, costs: Seq<u16>, s: KernelModel) -> (
    KernelModel,
    Option<KernelExit>,
) {
    let op = code_byte(code, s.pc);
    let cost = costs[op as int] as u64;
    let t = KernelModel { words: s.words, pc: s.pc + 1, gas: charged(s.gas, cost) };
    if s.gas < cost {
        (t, Some(KernelExit::Halt(InstructionResult::OutOfGas)))
    } else if !is_hot(op) {
        (t, Some(KernelExit::Table(op)))
    } else {
        match hot_effect(op, code, t) {
            Ok(u) => (u, None),
            Err(e) => (t, Some(KernelExit::Halt(e))),
        }
    }
}

/// Whether a step calls a hot instruction: one that there was gas for.
pub open spec fn step_is_direct(code: Seq<u8>, costs: Seq<u16>, s: KernelModel) -> bool {
    is_hot(code_byte(code, s.pc)) && costs[code_byte(code, s.pc) as int] as u64 <= s.gas
}

/// Steps until one stops: the state then, why, and how many hot instructions were called.
pub open spec fn kernel_run(code: Seq<u8>, costs: Seq<u16>, s: KernelModel) -> (
    KernelModel,
    KernelExit,
    nat,
)
    decreases
            if s.pc < code.len() {
                code.len() - s.pc
            } else {
                0
            },
{
    let (t, exit) = kernel_step(code, costs, s);
    let hit: nat = if step_is_direct(code, costs, s) {
        1
    } else {
        0
    };
    match exit {
        Some(exit) => (t, exit, hit),
        None => {
            let (u, exit, hits) = kernel_run(code, costs, t);
            (u, exit, hits + hit)
        },
    }
}

/// The byte of the code at `pc`; behind its end the code is padded with zeros.
fn read_code(code: &[u8], pc: usize) -> (r: u8)
    ensures
        r == code_byte(code@, pc as nat),
{
    if pc < code.len() {
        code[pc]
    } else {
        0
    }
}

/// Charges the static gas of an instruction; true where there was not enough.
pub fn record_cost(gas: &mut u64, cost: u64) -> (r: bool)
    ensures
        r == (*old(gas) < cost),
        *final(gas) == charged(*old(gas), cost),
        !r ==> *final(gas) + cost == *old(gas),
        r ==> *final(gas) + cost == *old(gas) + 0x1_0000_0000_0000_0000,
{
    let out_of_gas = *gas < cost;
    *gas = gas.wrapping_sub(cost);
    out_of_gas
}

/// Calls a hot instruction.
fn execute_hot(op: u8, code: &[u8], kernel: &mut Kernel) -> (r: Result<(), InstructionResult>)
    requires
        is_hot(op),
        old(kernel).pc + 2 <= usize::MAX,
    ensures
        match r {
            Ok(_) => hot_effect(op, code@, old(kernel)@) == Ok::<KernelModel, InstructionResult>(
                final(kernel)@,
            ),
            Err(e) => hot_effect(op, code@, old(kernel)@) == Err::<KernelModel, InstructionResult>(
                e,
            ) && final(kernel)@ == old(kernel)@,
        },
{
    if op == 0x50 {
        if stack_pop(&mut kernel.stack) {
            Ok(())
        } else {
            Err(InstructionResult::StackUnderflow)
        }
    } else if op == 0x60 || op == 0x61 {
        let width: usize = if op == 0x60 {
            1
        } else {
            2
        };
        let mut bytes: Vec<u8> = Vec::new();
        bytes.push(read_code(code, kernel.pc));
        if op == 0x61 {
            bytes.push(read_code(code, kernel.pc + 1));
        }
        assert(bytes@ =~= immediate(code@, kernel.pc as nat, width as nat));
        if stack_push_slice(&mut kernel.stack, bytes.as_slice()) {
            kernel.pc = kernel.pc + width;
            Ok(())
        } else {
            Err(InstructionResult::StackOverflow)
        }
    } else if op == 0x90 || op == 0x91 {
        let n: usize = if op == 0x90 {
            1
        } else {
            2
        };
        if stack_swap(&mut kernel.stack, n) {
            Ok(())
        } else {
            Err(InstructionResult::StackUnderflow)
        }
    } else {
        let n: usize = if op == 0x80 {
            1
        } else if op == 0x81 {
            2
        } else {
            3
        };
        if stack_dup(&mut kernel.stack, n) {
            Ok(())
        } else {
            Err(InstructionResult::StackOverflow)
        }
    }
}

/// Runs hot instructions until another instruction comes or the frame ends, and counts
/// them where `COUNT` asks for it.
pub fn run_direct<const COUNT: bool>(code: &[u8], costs: &[u16; 256], kernel: &mut Kernel) -> (r: (
    KernelExit,
    u64,
))
    requires
        code@.len() + 5 <= usize::MAX,
        old(kernel).pc + 3 <= usize::MAX,
    ensures
        final(kernel)@ == kernel_run(code@, costs@, old(kernel)@).0,
        r.0 == kernel_run(code@, costs@, old(kernel)@).1,
        COUNT ==> r.1 == kernel_run(code@, costs@, old(kernel)@).2,
        !COUNT ==> r.1 == 0,
{
    let mut hits: u64 = 0;
    let ghost start = kernel@;
    let ghost mut done: nat = 0;
    loop
        invariant
            code@.len() + 5 <= usize::MAX,
            kernel.pc + 3 <= usize::MAX,
            start == old(kernel)@,
            start.pc + done <= kernel.pc,
            done > 0 ==> start.pc + done <= code@.len() + 3,
            COUNT ==> hits == done,
            !COUNT ==> hits == 0,
            kernel_run(code@, costs@, start).0 == kernel_run(code@, costs@, kernel@).0,
            kernel_run(code@, costs@, start).1 == kernel_run(code@, costs@, kernel@).1,
            kernel_run(code@, costs@, start).2 == kernel_run(code@, costs@, kernel@).2 + done,
        decreases
                if kernel.pc < code@.len() {
                    code@.len() - kernel.pc
                } else {
                    0
                },
    {
        let op = read_code(code, kernel.pc);
        let cost: u64 = costs[op as usize] as u64;
        let ghost before = kernel@;
        kernel.pc = kernel.pc + 1;
        if record_cost(&mut kernel.gas, cost) {
            return (KernelExit::Halt(InstructionResult::OutOfGas), hits);
        }
        let hot = op == 0x50 || op == 0x60 || op == 0x61 || op == 0x80 || op == 0x81 || op == 0x82
            || op == 0x90 || op == 0x91;
        if !hot {
            return (KernelExit::Table(op), hits);
        }
        if COUNT {
            hits = hits + 1;
        }
        proof {
            done = done + 1;
        }
        match execute_hot(op, code, kernel) {
            Ok(_) => {
                assert(kernel_step(code@, costs@, before) == (kernel@, None::<KernelExit>));
            },
            Err(e) => {
                return (KernelExit::Halt(e), hits);
            },
        }
    }
}

/// How many steps the kernel takes before it stops, the last one included.
pub open spec fn kernel_steps(code: Seq<u8>, costs: Seq<u16>, s: KernelModel) -> nat
    decreases
            if s.pc < code.len() {
                code.len() - s.pc
            } else {
                0
            },
{
    let (t, exit) = kernel_step(code, costs, s);
    match exit {
        Some(_) => 1,
        None => 1 + kernel_steps(code, costs, t),
    }
}

/// An instruction table: what each instruction does to the kernel state and to the rest of
/// the machine, and the error it ends the frame with, if it does.
#[verifier::reject_recursive_types(W)]
pub struct TableModel<W, E> {
    pub execute: spec_fn(u8, KernelModel, W) -> (KernelModel, W, Option<E>),
    pub own: spec_fn(InstructionResult) -> E,
}

impl<W, E> TableModel<W, E> {
    /// Whether the table holds the hot instructions themselves.
    pub open spec fn is_canonical(self, code: Seq<u8>) -> bool {
        forall|op: u8, s: KernelModel, w: W|
            is_hot(op) ==> #[trigger] (self.execute)(op, s, w) == match hot_effect(op, code, s) {
                Ok(t) => (t, w, None::<E>),
                Err(e) => (s, w, Some((self.own)(e))),
            }
    }

    /// One step through the table alone: advance, charge the static gas, execute.
    pub open spec fn plain_step(self, code: Seq<u8>, costs: Seq<u16>, s: KernelModel, w: W) -> (
        KernelModel,
        W,
        Option<E>,
    ) {
        let op = code_byte(code, s.pc);
        let cost = costs[op as int] as u64;
        let t = KernelModel { words: s.words, pc: s.pc + 1, gas: charged(s.gas, cost) };
        if s.gas < cost {
            (t, w, Some((self.own)(InstructionResult::OutOfGas)))
        } else {
            (self.execute)(op, t, w)
        }
    }

    /// At most `n` steps through the table alone, fewer where one ends the frame.
    pub open spec fn plain_run(
        self,
        code: Seq<u8>,
        costs: Seq<u16>,
        s: KernelModel,
        w: W,
        n: nat,
    ) -> (KernelModel, W, Option<E>)
        decreases n,
    {
        if n == 0 {
            (s, w, None)
        } else {
            let (t, v, error) = self.plain_step(code, costs, s, w);
            match error {
                Some(_) => (t, v, error),
                None => self.plain_run(code, costs, t, v, (n - 1) as nat),
            }
        }
    }
}

/// Direct dispatch does what stepping through the canonical table does: as many plain
/// steps as the kernel takes end where the kernel's halt ends, or where executing the
/// instruction that it hands over leads.
pub proof fn lemma_kernel_is_plain_stepping<W, E>(
    table: TableModel<W, E>,
    code: Seq<u8>,
    costs: Seq<u16>,
    s: KernelModel,
    w: W,
)
    requires
        table.is_canonical(code),
    ensures
        ({
            let (u, exit, hits) = kernel_run(code, costs, s);
            let plain = table.plain_run(code, costs, s, w, kernel_steps(code, costs, s));
            match exit {
                KernelExit::Halt(e) => plain == (u, w, Some((table.own)(e))),
                KernelExit::Table(op) => plain == (table.execute)(op, u, w),
            }
        }),
    decreases
            if s.pc < code.len() {
                code.len() - s.pc
            } else {
                0
            },
{
    let (t, exit) = kernel_step(code, costs, s);
    let op = code_byte(code, s.pc);
    let cost = costs[op as int] as u64;
    let mid = KernelModel { words: s.words, pc: s.pc + 1, gas: charged(s.gas, cost) };
    let done = (table.execute)(op, mid, w);
    if exit is None {
        lemma_kernel_is_plain_stepping(table, code, costs, t, w);
        assert(table.plain_step(code, costs, s, w) == (t, w, None::<E>));
    } else {
        reveal_with_fuel(TableModel::plain_run, 2);
        let plain = table.plain_step(code, costs, s, w);
        assert(table.plain_run(code, costs, s, w, 1) == plain);
    }
}

impl<W, E> TableModel<W, E> {
    /// A frame under direct dispatch, for at most `rounds` rounds: the kernel runs, and the
    /// instruction that it hands over is executed.
    pub open spec fn direct_run(
        self,
        code: Seq<u8>,
        costs: Seq<u16>,
        s: KernelModel,
        w: W,
        rounds: nat,
    ) -> (KernelModel, W, Option<E>)
        decreases rounds,
    {
        if rounds == 0 {
            (s, w, None)
        } else {
            let (u, exit, hits) = kernel_run(code, costs, s);
            match exit {
                KernelExit::Halt(e) => (u, w, Some((self.own)(e))),
                KernelExit::Table(op) => {
                    let (t, v, error) = (self.execute)(op, u, w);
                    match error {
                        Some(_) => (t, v, error),
                        None => self.direct_run(code, costs, t, v, (rounds - 1) as nat),
                    }
                },
            }
        }
    }

    /// How many steps of the interpreter the rounds stand for.
    pub open spec fn direct_steps(
        self,
        code: Seq<u8>,
        costs: Seq<u16>,
        s: KernelModel,
        w: W,
        rounds: nat,
    ) -> nat
        decreases rounds,
    {
        if rounds == 0 {
            0
        } else {
            let (u, exit, hits) = kernel_run(code, costs, s);
            let (t, v, error) = match exit {
                KernelExit::Halt(e) => (u, w, Some((self.own)(e))),
                KernelExit::Table(op) => (self.execute)(op, u, w),
            };
            kernel_steps(code, costs, s) + match error {
                Some(_) => 0,
                None => self.direct_steps(code, costs, t, v, (rounds - 1) as nat),
            }
        }
    }
}

/// Plain steps can be taken in two parts.
pub proof fn lemma_plain_run_parts<W, E>(
    table: TableModel<W, E>,
    code: Seq<u8>,
    costs: Seq<u16>,
    s: KernelModel,
    w: W,
    m: nat,
    n: nat,
)
    ensures
        ({
            let (t, v, error) = table.plain_run(code, costs, s, w, m);
            table.plain_run(code, costs, s, w, m + n) == match error {
                Some(_) => (t, v, error),
                None => table.plain_run(code, costs, t, v, n),
            }
        }),
    decreases m,
{
    if m > 0 {
        let (t, v, error) = table.plain_step(code, costs, s, w);
        if error is None {
            lemma_plain_run_parts(table, code, costs, t, v, (m - 1) as nat, n);
            assert((m + n - 1) as nat == (m - 1) as nat + n);
        }
    }
}

/// A whole frame does the same under direct dispatch as by stepping through the canonical
/// table, however often the kernel hands over, and whatever the table's instructions do: the
/// same state, the same effects, and the same error at the end, if there is one.
pub proof fn lemma_direct_dispatch_is_plain_stepping<W, E>(
    table: TableModel<W, E>,
    code: Seq<u8>,
    costs: Seq<u16>,
    s: KernelModel,
    w: W,
    rounds: nat,
)
    requires
        table.is_canonical(code),
    ensures
        table.direct_run(code, costs, s, w, rounds) == table.plain_run(
            code,
            costs,
            s,
            w,
            table.direct_steps(code, costs, s, w, rounds),
        ),
    decreases rounds,
{
    if rounds > 0 {
        let n = kernel_steps(code, costs, s);
        lemma_kernel_is_plain_stepping(table, code, costs, s, w);
        let (t, v, error) = table.plain_run(code, costs, s, w, n);
        if error is None {
            let rest = table.direct_steps(code, costs, t, v, (rounds - 1) as nat);
            lemma_plain_run_parts(table, code, costs, s, w, n, rest);
            lemma_direct_dispatch_is_plain_stepping(table, code, costs, t, v, (rounds - 1) as nat);
        }
    }
}

/// Rounds that have not ended the frame took at least one step each.
pub proof fn lemma_rounds_take_steps<W, E>(
    table: TableModel<W, E>,
    code: Seq<u8>,
    costs: Seq<u16>,
    s: KernelModel,
    w: W,
    rounds: nat,
)
    ensures
        table.direct_run(code, costs, s, w, rounds).2 is None ==> rounds <= table.direct_steps(
            code,
            costs,
            s,
            w,
            rounds,
        ),
    decreases rounds,
{
    if rounds > 0 {
        let (u, exit, hits) = kernel_run(code, costs, s);
        if let KernelExit::Table(op) = exit {
            let (t, v, error) = (table.execute)(op, u, w);
            if error is None {
                lemma_rounds_take_steps(table, code, costs, t, v, (rounds - 1) as nat);
            }
        }
    }
}

/// What every kernel run keeps: the stack stays within its limit, the program counter
/// advances, no more instructions are called than the code has bytes left, an instruction
/// that is handed over is never a hot one, and gas is only ever spent unless it ran out.
pub proof fn lemma_kernel_run_bounds(code: Seq<u8>, costs: Seq<u16>, s: KernelModel)
    ensures
        s.words.len() <= STACK_LIMIT ==> kernel_run(code, costs, s).0.words.len() <= STACK_LIMIT,
        s.pc < kernel_run(code, costs, s).0.pc,
        kernel_run(code, costs, s).2 <= (if s.pc < code.len() {
            code.len() - s.pc
        } else {
            0
        }),
        kernel_run(code, costs, s).1 matches KernelExit::Table(op) ==> !is_hot(op),
        kernel_run(code, costs, s).1 != KernelExit::Halt(InstructionResult::OutOfGas)
            ==> kernel_run(code, costs, s).0.gas <= s.gas,
    decreases
            if s.pc < code.len() {
                code.len() - s.pc
            } else {
                0
            },
{
    let (t, exit) = kernel_step(code, costs, s);
    if exit is None {
        lemma_kernel_run_bounds(code, costs, t);
    }
}

/// The replaced instructions are never called directly: they always go through the table.
pub proof fn lemma_overrides_go_through_the_table(op: u8)
    requires
        crate::instructions::ARB_INSTRUCTION_OVERRIDES@.contains(op),
    ensures
        !is_hot(op),
{
    assert(crate::instructions::ARB_INSTRUCTION_OVERRIDES@[0] == 0x40);
    assert(crate::instructions::ARB_INSTRUCTION_OVERRIDES@[1] == 0x43);
}

/// The chain's own instruction table, which nothing can change, with a dispatch mode and
/// the evidence of what was dispatched.
#[derive(Debug)]
pub struct CanonicalStackInstructions {
    inner: ArbInstructions,
    mode: StackDispatchMode,
    stats: StackDispatchStats,
}

/// What happened to a frame since the last call.
#[derive(Clone, Copy, Debug, PartialEq, Eq, Structural)]
pub enum FrameEvent {
    /// The frame was entered or resumed.
    Entered,
    /// The instruction of the table was executed, and the frame goes on.
    TableContinues,
    /// The instruction of the table was executed, and ended the frame.
    TableEnds,
}

/// What is to be done with a frame next.
#[derive(Clone, Copy, Debug, PartialEq, Eq, Structural)]
pub enum FrameAction {
    /// Run the whole frame through the table.
    RunPlain,
    /// Execute one instruction of the table, which is charged for already.
    Execute(u8),
    /// End the frame: halt for the given reason, or for the one that the table's
    /// instruction gave, unless it left an action, and take the action.
    Finish(Option<InstructionResult>),
}

impl Clone for CanonicalStackInstructions {
    /// The same table and mode. The clone begins with no evidence.
    fn clone(&self) -> (r: CanonicalStackInstructions)
        ensures
            r.table() == self.table(),
            r.dispatch_mode() == self.dispatch_mode(),
            r.evidence().direct_frames == 0,
            r.evidence().direct_steps == 0,
    {
        CanonicalStackInstructions {
            inner: self.inner,
            mode: self.mode,
            stats: StackDispatchStats { direct_frames: 0, direct_steps: 0 },
        }
    }
}

impl CanonicalStackInstructions {
    /// The instruction table.
    pub closed spec fn table(self) -> ArbInstructions {
        self.inner
    }

    /// The dispatch mode.
    pub closed spec fn dispatch_mode(self) -> StackDispatchMode {
        self.mode
    }

    /// The evidence so far.
    pub closed spec fn evidence(self) -> StackDispatchStats {
        self.stats
    }

    /// The chain's table under `spec`, without evidence.
    pub(crate) fn new(spec: ArbSpecId, mode: StackDispatchMode) -> (r: CanonicalStackInstructions)
        ensures
            r.table().is_canonical(spec.hardfork()),
            r.dispatch_mode() == mode,
            r.evidence().direct_frames == 0,
            r.evidence().direct_steps == 0,
    {
        CanonicalStackInstructions {
            inner: canonical_arb_instructions(spec),
            mode,
            stats: StackDispatchStats { direct_frames: 0, direct_steps: 0 },
        }
    }

    /// The evidence so far. Reading it does not reset it.
    pub fn stats(&self) -> (r: StackDispatchStats)
        ensures
            r == self.evidence(),
    {
        self.stats
    }

    /// The dispatch mode.
    pub fn mode(&self) -> (r: StackDispatchMode)
        ensures
            r == self.dispatch_mode(),
    {
        self.mode
    }

    /// The instruction table.
    pub fn instructions(&self) -> (r: &ArbInstructions)
        ensures
            *r == self.table(),
    {
        &self.inner
    }

    /// Takes a frame as far as the kernel can, and says what is to be done next.
    ///
    /// `hits` counts over one frame invocation: it is zero when the frame is entered, and
    /// is added to the evidence when the frame ends.
    pub fn run_frame(
        &mut self,
        event: FrameEvent,
        code: &[u8],
        kernel: &mut Kernel,
        hits: &mut u64,
    ) -> (r: FrameAction)
        requires
            code@.len() + 5 <= usize::MAX,
            old(kernel).pc + 3 <= usize::MAX,
            event == FrameEvent::Entered ==> *old(hits) == 0,
            event != FrameEvent::Entered ==> old(self).dispatch_mode()
                != StackDispatchMode::Indirect,
            old(self).evidence().direct_frames < u64::MAX,
            old(self).evidence().direct_steps + *old(hits) + code@.len() <= u64::MAX,
        ensures
            final(self).table() == old(self).table(),
            final(self).dispatch_mode() == old(self).dispatch_mode(),
            old(self).dispatch_mode() == StackDispatchMode::Indirect ==> {
                &&& r == FrameAction::RunPlain
                &&& final(kernel)@ == old(kernel)@
                &&& *final(hits) == *old(hits)
            },
            old(self).dispatch_mode() != StackDispatchMode::Indirect && event
                == FrameEvent::TableEnds ==> {
                &&& r == FrameAction::Finish(None)
                &&& final(kernel)@ == old(kernel)@
                &&& *final(hits) == *old(hits)
            },
            old(self).dispatch_mode() != StackDispatchMode::Indirect && event
                != FrameEvent::TableEnds ==> {
                let run = kernel_run(code@, old(self).table().costs(), old(kernel)@);
                &&& r == (match run.1 {
                    KernelExit::Table(op) => FrameAction::Execute(op),
                    KernelExit::Halt(e) => FrameAction::Finish(Some(e)),
                })
                &&& final(kernel)@ == run.0
                &&& *final(hits) == *old(hits) + (if old(self).dispatch_mode()
                    == StackDispatchMode::Direct {
                    run.2
                } else {
                    0
                })
            },
            match r {
                FrameAction::Finish(_) => {
                    &&& final(self).evidence().direct_frames == old(self).evidence().direct_frames
                        + 1
                    &&& final(self).evidence().direct_steps == old(self).evidence().direct_steps
                        + *final(hits)
                },
                _ => final(self).evidence() == old(self).evidence(),
            },
    {
        if self.mode == StackDispatchMode::Indirect {
            return FrameAction::RunPlain;
        }
        if event == FrameEvent::TableEnds {
            self.finish_frame(*hits);
            return FrameAction::Finish(None);
        }
        proof {
            lemma_kernel_run_bounds(code@, self.inner.costs(), kernel@);
        }
        let (exit, calls) = if self.mode == StackDispatchMode::Direct {
            run_direct::<true>(code, self.inner.gas_table(), kernel)
        } else {
            run_direct::<false>(code, self.inner.gas_table(), kernel)
        };
        *hits = *hits + calls;
        match exit {
            KernelExit::Table(op) => FrameAction::Execute(op),
            KernelExit::Halt(e) => {
                self.finish_frame(*hits);
                FrameAction::Finish(Some(e))
            },
        }
    }

    /// Adds one frame invocation with `hits` counted instructions to the evidence.
    fn finish_frame(&mut self, hits: u64)
        requires
            old(self).evidence().direct_frames < u64::MAX,
            old(self).evidence().direct_steps + hits <= u64::MAX,
        ensures
            final(self).table() == old(self).table(),
            final(self).dispatch_mode() == old(self).dispatch_mode(),
            final(self).evidence().direct_frames == old(self).evidence().direct_frames + 1,
            final(self).evidence().direct_steps == old(self).evidence().direct_steps + hits,
    {
        self.stats.direct_frames = self.stats.direct_frames + 1;
        self.stats.direct_steps = self.stats.direct_steps + hits;
    }
}

/// Whether two sequences differ only in that the items at two places are exchanged.
pub open spec fn exchanges(before: Seq<nat>, after: Seq<nat>, i: int, j: int) -> bool {
    &&& after.len() == before.len()
    &&& after[i] == before[j]
    &&& after[j] == before[i]
    &&& forall|x: int| 0 <= x < before.len() && x != i && x != j ==> after[x] == before[x]
}

/// An opcode that the kernel runs directly does what the EVM gives that opcode to do, and nothing
/// else: `POP` removes the top word, `PUSH1` and `PUSH2` push the one or two bytes behind them and
/// skip these, `DUP1` to `DUP3` copy the word as many places from the top, and `SWAP1` and `SWAP2`
/// exchange the top word for the one as many places below. Running such an opcode and what follows
/// is one more direct step than running what follows on the stack that it leaves.
pub proof fn lemma_direct_opcodes_have_their_effect<const COUNT: bool>(
    code: &[u8],
    costs: &[u16; 256],
)
    ensures
        forall|k: &mut Kernel, r: (KernelExit, u64), m: &mut Kernel, q: (KernelExit, u64)|
            #![trigger call_ensures(run_direct::<COUNT>, (code, costs, k), r), call_ensures(
                run_direct::<COUNT>,
                (code, costs, m),
                q,
            )]
            {
                let byte = |at: int|
                    if 0 <= at < code@.len() {
                        code@[at]
                    } else {
                        0u8
                    };
                let words = crate::operand_stack::stack_words(k.stack);
                let after = crate::operand_stack::stack_words(m.stack);
                let n = words.len() as int;
                let op = byte(k.pc as int);
                let first = byte(k.pc + 1) as nat;
                let second = byte(k.pc + 2) as nat;
                &&& call_ensures(run_direct::<COUNT>, (code, costs, k), r)
                &&& call_ensures(run_direct::<COUNT>, (code, costs, m), q)
                &&& k.gas >= costs@[op as int]
                &&& m.gas == k.gas - costs@[op as int]
                &&& {
                    ||| op == 0x50 && n > 0 && after == words.take(n - 1) && m.pc == k.pc + 1
                    ||| op == 0x60 && n < 1024 && after == words.push(first) && m.pc == k.pc + 2
                    ||| op == 0x61 && n < 1024 && after == words.push(256 * first + second) && m.pc
                        == k.pc + 3
                    ||| 0x80 <= op <= 0x82 && op - 0x7f <= n < 1024 && after == words.push(
                        words[n - (op - 0x7f)],
                    ) && m.pc == k.pc + 1
                    ||| 0x90 <= op <= 0x91 && op - 0x8f < n && exchanges(
                        words,
                        after,
                        n - 1,
                        n - 1 - (op - 0x8f),
                    ) && m.pc == k.pc + 1
                }
            } ==> {
                &&& r.0 == q.0
                &&& r.1 == q.1 + (if COUNT {
                    1int
                } else {
                    0
                })
                &&& crate::operand_stack::stack_words(final(k).stack)
                    == crate::operand_stack::stack_words(final(m).stack)
                &&& final(k).pc == final(m).pc
                &&& final(k).gas == final(m).gas
            },
{
    assert forall|k: Kernel, m: Kernel| is_direct_step(code@, costs@, k@, m@) implies #[trigger]
        kernel_step(code@, costs@, k@) == (#[trigger] m@, None::<KernelExit>) by {
        lemma_direct_step(code@, costs@, k@, m@);
    }
}

/// Whether a state is what an opcode that is run directly makes of another.
spec fn is_direct_step(code: Seq<u8>, costs: Seq<u16>, s: KernelModel, t: KernelModel) -> bool {
    let n = s.words.len() as int;
    let op = code_byte(code, s.pc);
    let first = code_byte(code, s.pc + 1) as nat;
    let second = code_byte(code, s.pc + 2) as nat;
    &&& s.gas >= costs[op as int]
    &&& t.gas == s.gas - costs[op as int]
    &&& {
        ||| op == 0x50 && n > 0 && t.words == s.words.take(n - 1) && t.pc == s.pc + 1
        ||| op == 0x60 && n < 1024 && t.words == s.words.push(first) && t.pc == s.pc + 2
        ||| op == 0x61 && n < 1024 && t.words == s.words.push(256 * first + second) && t.pc == s.pc
            + 3
        ||| 0x80 <= op <= 0x82 && op - 0x7f <= n < 1024 && t.words == s.words.push(
            s.words[n - (op - 0x7f)],
        ) && t.pc == s.pc + 1
        ||| 0x90 <= op <= 0x91 && op - 0x8f < n && exchanges(
            s.words,
            t.words,
            n - 1,
            n - 1 - (op - 0x8f),
        ) && t.pc == s.pc + 1
    }
}

/// The step of the kernel at an opcode that it runs directly.
proof fn lemma_direct_step(code: Seq<u8>, costs: Seq<u16>, s: KernelModel, t: KernelModel)
    requires
        is_direct_step(code, costs, s, t),
    ensures
        kernel_step(code, costs, s) == (t, None::<KernelExit>),
{
    let op = code_byte(code, s.pc);
    let mid = KernelModel {
        words: s.words,
        pc: s.pc + 1,
        gas: charged(s.gas, costs[op as int] as u64),
    };
    reveal_with_fuel(crate::bytes::be_value, 3);
    let one = immediate(code, mid.pc, 1);
    let two = immediate(code, mid.pc, 2);
    assert(one.drop_last() =~= Seq::<u8>::empty());
    assert(two.drop_last() =~= one);
    assert(one.last() == code_byte(code, s.pc + 1));
    assert(two.last() == code_byte(code, s.pc + 2));
    if op == 0x50 {
        assert(t.words =~= s.words.drop_last());
    } else if 0x90 <= op <= 0x91 {
        assert(t.words =~= crate::operand_stack::swapped(s.words, op - 0x8f));
    }
    assert(hot_effect(op, code, mid) == Ok::<KernelModel, InstructionResult>(t));
}

/// Every opcode but `POP`, `PUSH1`, `PUSH2`, `DUP1` to `DUP3`, `SWAP1` and `SWAP2` leaves the kernel
/// at once for the table, charged for, with the stack unchanged and no direct step counted. Where
/// there is not enough gas, whatever the opcode, the frame ends before it is executed. One of the
/// eight that finds too few words, or no room, ends the frame with the stack unchanged, and is
/// counted.
pub proof fn lemma_other_opcodes_leave_the_kernel<const COUNT: bool>(
    code: &[u8],
    costs: &[u16; 256],
)
    ensures
        forall|k: &mut Kernel, r: (KernelExit, u64)| #[trigger]
            call_ensures(run_direct::<COUNT>, (code, costs, k), r) ==> {
                let words = crate::operand_stack::stack_words(k.stack);
                let n = words.len() as int;
                let op = if k.pc < code@.len() {
                    code@[k.pc as int]
                } else {
                    0u8
                };
                let cost = costs@[op as int];
                let direct = seq![0x50u8, 0x60, 0x61, 0x80, 0x81, 0x82, 0x90, 0x91];
                let stays = {
                    &&& crate::operand_stack::stack_words(final(k).stack) == words
                    &&& final(k).pc == k.pc + 1
                };
                let one = if COUNT {
                    1u64
                } else {
                    0u64
                };
                &&& k.gas < cost ==> {
                    &&& r == (KernelExit::Halt(InstructionResult::OutOfGas), 0u64)
                    &&& stays
                    &&& final(k).gas == k.gas + 0x1_0000_0000_0000_0000 - cost
                }
                &&& k.gas >= cost && !direct.contains(op) ==> {
                    &&& r == (KernelExit::Table(op), 0u64)
                    &&& stays
                    &&& final(k).gas == k.gas - cost
                }
                &&& k.gas >= cost && (op == 0x50 && n == 0 || 0x90 <= op <= 0x91 && n <= op - 0x8f)
                    ==> {
                    &&& r == (KernelExit::Halt(InstructionResult::StackUnderflow), one)
                    &&& stays
                    &&& final(k).gas == k.gas - cost
                }
                &&& k.gas >= cost && (0x60 <= op <= 0x61 && n >= 1024 || 0x80 <= op <= 0x82 && !(op
                    - 0x7f <= n < 1024)) ==> {
                    &&& r == (KernelExit::Halt(InstructionResult::StackOverflow), one)
                    &&& stays
                    &&& final(k).gas == k.gas - cost
                }
            },
{
    let direct = seq![0x50u8, 0x60, 0x61, 0x80, 0x81, 0x82, 0x90, 0x91];
    assert(direct[0] == 0x50 && direct[1] == 0x60 && direct[2] == 0x61 && direct[3] == 0x80
        && direct[4] == 0x81 && direct[5] == 0x82 && direct[6] == 0x90 && direct[7] == 0x91);
    assert forall|op: u8| #[trigger] is_hot(op) implies direct.contains(op) by {
        assert(direct.contains(direct[0]) && direct.contains(direct[1]) && direct.contains(
            direct[2],
        ) && direct.contains(direct[3]) && direct.contains(direct[4]) && direct.contains(direct[5])
            && direct.contains(direct[6]) && direct.contains(direct[7]));
    }
}

/// A table that runs `POP`, every `PUSH`, every `DUP` and every `SWAP` as the EVM does is canonical,
/// so direct dispatch does with it what stepping through it does.
pub proof fn lemma_tables_of_the_evm_are_canonical<W, E>(table: TableModel<W, E>, code: Seq<u8>)
    requires
        forall|op: u8, s: KernelModel, w: W|
            {
                let n = s.words.len() as int;
                let top = n - 1;
                let (t, v, error) = #[trigger] (table.execute)(op, s, w);
                let goes_on = error is None && v == w && t.gas == s.gas;
                let fails = |e: InstructionResult|
                    error == Some((table.own)(e)) && v == w && t == s;
                &&& op == 0x50 ==> if n > 0 {
                    goes_on && t.words == s.words.take(top) && t.pc == s.pc
                } else {
                    fails(InstructionResult::StackUnderflow)
                }
                &&& 0x60 <= op <= 0x7f ==> if n < 1024 {
                    goes_on && t.words == s.words.push(
                        crate::bytes::be_value(immediate(code, s.pc, (op - 0x5f) as nat)),
                    ) && t.pc == s.pc + (op - 0x5f)
                } else {
                    fails(InstructionResult::StackOverflow)
                }
                &&& 0x80 <= op <= 0x8f ==> if op - 0x7f <= n < 1024 {
                    goes_on && t.words == s.words.push(s.words[n - (op - 0x7f)]) && t.pc == s.pc
                } else {
                    fails(InstructionResult::StackOverflow)
                }
                &&& 0x90 <= op <= 0x9f ==> if op - 0x8f < n {
                    goes_on && exchanges(s.words, t.words, top, top - (op - 0x8f)) && t.pc == s.pc
                } else {
                    fails(InstructionResult::StackUnderflow)
                }
            },
    ensures
        table.is_canonical(code),
{
    assert forall|op: u8, s: KernelModel, w: W| is_hot(op) implies #[trigger] (table.execute)(
        op,
        s,
        w,
    ) == match hot_effect(op, code, s) {
        Ok(t) => (t, w, None::<E>),
        Err(e) => (s, w, Some((table.own)(e))),
    } by {
        let (t, v, error) = (table.execute)(op, s, w);
        if op == 0x50 && s.words.len() > 0 {
            assert(t.words =~= s.words.drop_last());
        } else if 0x90 <= op <= 0x91 && op - 0x8f < s.words.len() {
            assert(t.words =~= crate::operand_stack::swapped(s.words, op - 0x8f));
        }
    }
}

} // verus!
