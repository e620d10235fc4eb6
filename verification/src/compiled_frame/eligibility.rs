//! Which code may be compiled.
use crate::constants::{BLOCKHASH, PUSH1, PUSH32};
use crate::instructions::{ARB_INSTRUCTION_OVERRIDES, COMPILED_HOST_BRIDGED_OVERRIDES};
use vstd::prelude::*;

verus! {

/// First byte of code in another format than that of the legacy EVM: EOF, or a Stylus
/// program.
pub const EOF_OR_STYLUS_PREFIX: u8 = 0xef;

/// Why code is refused for compilation.
#[derive(Clone, Copy, Debug, PartialEq, Eq, Structural)]
pub enum IneligibleReason {
    /// There is nothing to compile.
    Empty,
    /// The code is not that of the legacy EVM.
    EofOrStylusPrefix,
    /// The code holds an instruction that the chain replaced and that the host of compiled
    /// code does not provide. Compiled code does not go through the instruction table.
    InstructionOverride(u8),
}

/// How many bytes of the code behind an opcode belong to it: those that a push pushes.
pub open spec fn payload_len(op: u8) -> nat {
    if PUSH1 <= op <= PUSH32 {
        (op - PUSH1 + 1) as nat
    } else {
        0
    }
}

/// Whether the host of compiled code provides a replaced instruction; `BLOCKHASH` only
/// where it reads the ring of hashes that ArbOS recorded.
pub open spec fn is_bridged(op: u8, ring: bool) -> bool {
    COMPILED_HOST_BRIDGED_OVERRIDES@.contains(op) && (op != BLOCKHASH || ring)
}

/// Whether code with an instruction is refused.
pub open spec fn is_refused(op: u8, ring: bool) -> bool {
    ARB_INSTRUCTION_OVERRIDES@.contains(op) && !is_bridged(op, ring)
}

/// How many bytes the code has from position `i` on.
pub open spec fn bytes_left(code: Seq<u8>, i: nat) -> nat {
    if i < code.len() {
        (code.len() - i) as nat
    } else {
        0
    }
}

/// The first instruction from position `i` on that is refused. What a push pushes is no
/// instruction.
pub open spec fn first_refused(code: Seq<u8>, i: nat, ring: bool) -> Option<u8>
    decreases bytes_left(code, i),
{
    if i >= code.len() {
        None
    } else if is_refused(code[i as int], ring) {
        Some(code[i as int])
    } else {
        first_refused(code, i + 1 + payload_len(code[i as int]), ring)
    }
}

/// Why code is refused, if it is.
pub open spec fn ineligibility(code: Seq<u8>, ring: bool) -> Option<IneligibleReason> {
    if code.len() == 0 {
        Some(IneligibleReason::Empty)
    } else if code[0] == EOF_OR_STYLUS_PREFIX {
        Some(IneligibleReason::EofOrStylusPrefix)
    } else {
        match first_refused(code, 0, ring) {
            Some(op) => Some(IneligibleReason::InstructionOverride(op)),
            None => None,
        }
    }
}

/// Whether a list of two opcodes holds one.
fn lists(ops: &[u8; 2], op: u8) -> (r: bool)
    ensures
        r == ops@.contains(op),
{
    proof {
        assert(ops@.contains(ops@[0]));
        assert(ops@.contains(ops@[1]));
    }
    ops[0] == op || ops[1] == op
}

/// Why `code` must not be compiled, if it must not; `ring` tells whether the host of
/// compiled code reads the ring of hashes that ArbOS recorded.
///
/// A replaced instruction is refused unless it is listed as provided by the host, so one
/// that nobody classified is refused.
pub fn bytecode_ineligible_with_ring(code: &[u8], ring: bool) -> (r: Option<IneligibleReason>)
    ensures
        r == ineligibility(code@, ring),
{
    if code.len() == 0 {
        return Some(IneligibleReason::Empty);
    }
    if code[0] == EOF_OR_STYLUS_PREFIX {
        return Some(IneligibleReason::EofOrStylusPrefix);
    }
    let mut i: usize = 0;
    while i < code.len()
        invariant
            code@.len() > 0,
            code@[0] != EOF_OR_STYLUS_PREFIX,
            first_refused(code@, 0, ring) == first_refused(code@, i as nat, ring),
        decreases code.len() - i,
    {
        let op: u8 = code[i];
        if lists(&ARB_INSTRUCTION_OVERRIDES, op) && !(lists(&COMPILED_HOST_BRIDGED_OVERRIDES, op)
            && (op != BLOCKHASH || ring)) {
            return Some(IneligibleReason::InstructionOverride(op));
        }
        let payload: usize = if PUSH1 <= op && op <= PUSH32 {
            (op - PUSH1) as usize + 1
        } else {
            0
        };
        let left: usize = code.len() - i;
        if left <= 1 + payload {
            assert(first_refused(code@, (i + 1 + payload) as nat, ring) is None);
            return None;
        }
        i = i + 1 + payload;
    }
    None
}

/// Why `code` must not be compiled, if it must not, for a host that reads the ring of
/// hashes that ArbOS recorded.
pub fn bytecode_ineligible(code: &[u8]) -> (r: Option<IneligibleReason>)
    ensures
        r == ineligibility(code@, true),
{
    bytecode_ineligible_with_ring(code, true)
}

/// Every replaced instruction is either provided by the host or refused, never both, and
/// nothing else is refused.
pub proof fn lemma_overrides_are_bridged_or_refused(op: u8, ring: bool)
    ensures
        ARB_INSTRUCTION_OVERRIDES@.contains(op) ==> is_bridged(op, ring) != is_refused(op, ring),
        !ARB_INSTRUCTION_OVERRIDES@.contains(op) ==> !is_refused(op, ring) && !is_bridged(op, ring),
        is_refused(op, ring) <==> op == BLOCKHASH && !ring,
{
    assert(ARB_INSTRUCTION_OVERRIDES@[0] == 0x40);
    assert(ARB_INSTRUCTION_OVERRIDES@[1] == 0x43);
    assert(COMPILED_HOST_BRIDGED_OVERRIDES@[0] == 0x40);
    assert(COMPILED_HOST_BRIDGED_OVERRIDES@[1] == 0x43);
}

/// With the ring, no instruction is a reason to refuse code.
pub proof fn lemma_ring_admits_every_instruction(code: Seq<u8>)
    ensures
        ineligibility(code, true) is None <==> code.len() > 0 && code[0] != EOF_OR_STYLUS_PREFIX,
{
    lemma_ring_refuses_nothing(code, 0);
}

proof fn lemma_ring_refuses_nothing(code: Seq<u8>, i: nat)
    ensures
        first_refused(code, i, true) is None,
    decreases bytes_left(code, i),
{
    if i < code.len() {
        lemma_overrides_are_bridged_or_refused(code[i as int], true);
        lemma_ring_refuses_nothing(code, i + 1 + payload_len(code[i as int]));
    }
}

/// Whether position `p` holds an opcode, where position `i` does.
pub open spec fn is_instruction(code: Seq<u8>, i: nat, p: nat) -> bool
    decreases bytes_left(code, i),
{
    i < code.len() && (i == p || is_instruction(code, i + 1 + payload_len(code[i as int]), p))
}

/// What a push pushes never decides: changing a byte that is no opcode leaves the verdict
/// as it is.
pub proof fn lemma_payload_is_ignored(code: Seq<u8>, p: nat, byte: u8, ring: bool)
    requires
        p < code.len(),
        !is_instruction(code, 0, p),
    ensures
        ineligibility(code.update(p as int, byte), ring) == ineligibility(code, ring),
{
    lemma_payload_step(code, 0, p, byte, ring);
}

proof fn lemma_payload_step(code: Seq<u8>, i: nat, p: nat, byte: u8, ring: bool)
    requires
        p < code.len(),
        !is_instruction(code, i, p),
    ensures
        first_refused(code.update(p as int, byte), i, ring) == first_refused(code, i, ring),
    decreases bytes_left(code, i),
{
    if i < code.len() {
        assert(i != p);
        lemma_payload_step(code, i + 1 + payload_len(code[i as int]), p, byte, ring);
    }
}

/// A refused instruction behind the last byte of a push is still found.
pub proof fn lemma_refusal_after_push(op: u8, payload: Seq<u8>, rest: Seq<u8>, ring: bool)
    requires
        payload.len() == payload_len(op),
        !is_refused(op, ring),
    ensures
        first_refused(seq![op] + payload + rest, 0, ring) == first_refused(rest, 0, ring),
{
    let code = seq![op] + payload + rest;
    assert(code[0] == op);
    lemma_shift(seq![op] + payload, rest, 0, ring);
}

proof fn lemma_shift(head: Seq<u8>, rest: Seq<u8>, i: nat, ring: bool)
    ensures
        first_refused(head + rest, head.len() + i, ring) == first_refused(rest, i, ring),
    decreases bytes_left(rest, i),
{
    if i < rest.len() {
        assert((head + rest)[(head.len() + i) as int] == rest[i as int]);
        let next = i + 1 + payload_len(rest[i as int]);
        lemma_shift(head, rest, next, ring);
        assert(head.len() + i + 1 + payload_len(rest[i as int]) == head.len() + next);
    }
}

/// Whether `starts` lists where the instructions of the code stand: the first at the beginning, and
/// each behind the one before it and what that pushes, to the end of the code.
pub open spec fn are_instruction_starts(code: Seq<u8>, starts: Seq<nat>) -> bool {
    &&& starts.len() > 0
    &&& starts[0] == 0
    &&& starts.last() >= code.len()
    &&& forall|i: int|
        0 <= i < starts.len() - 1 ==> (#[trigger] starts[i]) < code.len() && starts[i + 1]
            == starts[i] + 1 + (if 0x60 <= code[starts[i] as int] <= 0x7f {
            code[starts[i] as int] - 0x5f
        } else {
            0
        })
}

/// Code is refused where it is empty, and where it begins with 0xef. Other code is refused only
/// where the host does not read the ring, and then exactly where one of its instructions is
/// `BLOCKHASH`: the bytes that a push pushes are none.
pub proof fn lemma_what_is_refused(
    code: &[u8],
    ring: bool,
    starts: Seq<nat>,
    r: Option<IneligibleReason>,
)
    requires
        call_ensures(bytecode_ineligible_with_ring, (code, ring), r),
        are_instruction_starts(code@, starts),
    ensures
        code@.len() == 0 ==> r == Some(IneligibleReason::Empty),
        code@.len() > 0 && code@[0] == 0xef ==> r == Some(IneligibleReason::EofOrStylusPrefix),
        code@.len() > 0 && code@[0] != 0xef && ring ==> r is None,
        code@.len() > 0 && code@[0] != 0xef && !ring ==> if exists|i: int|
            0 <= i < starts.len() - 1 && code@[#[trigger] starts[i] as int] == 0x40 {
            r == Some(IneligibleReason::InstructionOverride(0x40))
        } else {
            r is None
        },
{
    lemma_ring_refuses_nothing(code@, 0);
    lemma_refused_from(code@, starts, 0);
}

proof fn lemma_refused_from(code: Seq<u8>, starts: Seq<nat>, k: int)
    requires
        are_instruction_starts(code, starts),
        0 <= k < starts.len(),
    ensures
        (exists|i: int|
            k <= i < starts.len() - 1 && code[#[trigger] starts[i] as int] == 0x40)
            ==> first_refused(code, starts[k], false) == Some(0x40u8),
        !(exists|i: int| k <= i < starts.len() - 1 && code[#[trigger] starts[i] as int] == 0x40)
            ==> first_refused(code, starts[k], false) is None,
    decreases starts.len() - k,
{
    if k < starts.len() - 1 {
        lemma_overrides_are_bridged_or_refused(code[starts[k] as int], false);
        lemma_refused_from(code, starts, k + 1);
        if exists|i: int| k <= i < starts.len() - 1 && code[#[trigger] starts[i] as int] == 0x40 {
            let i = choose|i: int|
                k <= i < starts.len() - 1 && code[#[trigger] starts[i] as int] == 0x40;
            if code[starts[k] as int] != 0x40 {
                assert(k + 1 <= i);
            }
        }
    }
}

/// The verdict without a say on the ring is that of a host that reads it.
pub proof fn lemma_ring_is_assumed(
    code: &[u8],
    r: Option<IneligibleReason>,
    q: Option<IneligibleReason>,
)
    requires
        call_ensures(bytecode_ineligible, (code,), r),
        call_ensures(bytecode_ineligible_with_ring, (code, true), q),
    ensures
        r == q,
{
}

} // verus!
