//! The chain's instruction table and the instructions that it replaces.
use crate::constants::{BLOCKHASH, NUMBER};
use crate::operand_stack::{stack_push, stack_set_top, stack_top, STACK_LIMIT};
use crate::primitives::B256;
use crate::spec::{mainnet_gas_table, ArbSpecId};
use crate::stack_dispatch::InstructionResult;
use crate::words::U256;
use revm::interpreter::Stack;
use vstd::prelude::*;

verus! {

/// Opcodes whose entries in the instruction table are replaced, in ascending order.
pub const ARB_INSTRUCTION_OVERRIDES: [u8; 2] = [0x40, 0x43];

/// Replaced opcodes that compiled code reaches through its host instead of the table, in
/// ascending order.
pub const COMPILED_HOST_BRIDGED_OVERRIDES: [u8; 2] = [0x40, 0x43];

/// What an entry of the instruction table executes.
#[derive(Clone, Copy, Debug, PartialEq, Eq, Structural)]
pub enum InstructionEntry {
    /// The instruction of the hardfork's own table.
    Mainnet,
    /// `arb_block_number`.
    L1BlockNumber,
    /// `arb_block_hash`.
    L1BlockHash,
}

/// An instruction table with the static gas costs of its entries.
#[derive(Clone, Copy, Debug)]
pub struct ArbInstructions {
    entries: [InstructionEntry; 256],
    gas: [u16; 256],
}

/// What each instruction of the chain's table executes.
pub open spec fn canonical_entry(op: u8) -> InstructionEntry {
    if op == NUMBER {
        InstructionEntry::L1BlockNumber
    } else if op == BLOCKHASH {
        InstructionEntry::L1BlockHash
    } else {
        InstructionEntry::Mainnet
    }
}

/// The static gas costs of the chain's table.
pub open spec fn canonical_gas(hardfork: u8) -> Seq<u16> {
    crate::spec::hardfork_gas_table(hardfork).update(NUMBER as int, 2).update(BLOCKHASH as int, 20)
}

impl ArbInstructions {
    /// What an instruction executes.
    pub closed spec fn entry_of(self, op: u8) -> InstructionEntry {
        self.entries@[op as int]
    }

    /// The static gas costs.
    pub closed spec fn costs(self) -> Seq<u16> {
        self.gas@
    }

    /// Whether this is the chain's table for a hardfork.
    pub open spec fn is_canonical(self, hardfork: u8) -> bool {
        &&& forall|op: u8| #[trigger] self.entry_of(op) == canonical_entry(op)
        &&& crate::spec::hardfork_gas_table(hardfork).len() == 256
        &&& self.costs() == canonical_gas(hardfork)
    }

    /// The table of a hardfork.
    fn new_mainnet_with_spec(spec: ArbSpecId) -> (r: ArbInstructions)
        ensures
            forall|op: u8| #[trigger] r.entry_of(op) == InstructionEntry::Mainnet,
            r.costs() == crate::spec::hardfork_gas_table(spec.hardfork()),
    {
        ArbInstructions {
            entries: [InstructionEntry::Mainnet;256],
            gas: mainnet_gas_table(spec.into_eth_spec()),
        }
    }

    /// Replaces an instruction and its static gas cost.
    fn insert_instruction(&mut self, op: u8, entry: InstructionEntry, gas: u16)
        ensures
            forall|x: u8| #[trigger]
                final(self).entry_of(x) == (if x == op {
                    entry
                } else {
                    old(self).entry_of(x)
                }),
            final(self).costs() == old(self).costs().update(op as int, gas),
    {
        self.entries[op as usize] = entry;
        self.gas[op as usize] = gas;
    }

    /// What an instruction executes.
    pub fn entry(&self, op: u8) -> (r: InstructionEntry)
        ensures
            r == self.entry_of(op),
    {
        self.entries[op as usize]
    }

    /// The static gas costs.
    pub fn gas_table(&self) -> (r: &[u16; 256])
        ensures
            r@ == self.costs(),
    {
        &self.gas
    }
}

/// The chain's instructions: those of the hardfork, but `NUMBER` gives the number of the
/// parent chain's block, and `BLOCKHASH` a hash that ArbOS recorded of one.
pub fn canonical_arb_instructions(spec: ArbSpecId) -> (r: ArbInstructions)
    ensures
        r.is_canonical(spec.hardfork()),
{
    let mut instruction = ArbInstructions::new_mainnet_with_spec(spec);
    assert(instruction.gas@.len() == 256);
    instruction.insert_instruction(NUMBER, InstructionEntry::L1BlockNumber, 2);
    instruction.insert_instruction(BLOCKHASH, InstructionEntry::L1BlockHash, 20);
    instruction
}

/// The chain's table differs from the hardfork's in the entries that are listed as
/// overrides, and in no other; nor does it charge differently for any other.
pub proof fn lemma_overrides_are_exactly_the_listed(table: ArbInstructions, hardfork: u8, op: u8)
    requires
        table.is_canonical(hardfork),
    ensures
        table.entry_of(op) != InstructionEntry::Mainnet <==> ARB_INSTRUCTION_OVERRIDES@.contains(op),
        !ARB_INSTRUCTION_OVERRIDES@.contains(op) ==> table.costs()[op as int]
            == crate::spec::hardfork_gas_table(hardfork)[op as int],
{
    assert(ARB_INSTRUCTION_OVERRIDES@[0] == BLOCKHASH);
    assert(ARB_INSTRUCTION_OVERRIDES@[1] == NUMBER);
}

/// The `NUMBER` instruction: pushes the number of the parent chain's block.
pub fn arb_block_number(stack: &mut Stack, l1_block_number: u64) -> (r: Result<
    (),
    InstructionResult,
>)
    ensures
        match r {
            Ok(_) => {
                &&& crate::operand_stack::stack_words(*old(stack)).len() != STACK_LIMIT
                &&& crate::operand_stack::stack_words(*final(stack))
                    == crate::operand_stack::stack_words(*old(stack)).push(l1_block_number as nat)
            },
            Err(e) => {
                &&& e == InstructionResult::StackOverflow
                &&& crate::operand_stack::stack_words(*old(stack)).len() == STACK_LIMIT
                &&& crate::operand_stack::stack_words(*final(stack))
                    == crate::operand_stack::stack_words(*old(stack))
            },
        },
{
    if !stack_push(stack, U256::from_u64(l1_block_number)) {
        return Err(InstructionResult::StackOverflow);
    }
    Ok(())
}

/// The block that a word asks for: the word itself, or the largest `u64` where it does not
/// fit.
pub open spec fn requested_block(word: nat) -> u64 {
    if word <= u64::MAX {
        word as u64
    } else {
        u64::MAX
    }
}

/// The hash that stands for what a lookup gave: zero where it failed.
pub open spec fn hash_or_zero(found: Option<B256>) -> nat {
    match found {
        Some(hash) => hash@,
        None => 0,
    }
}

/// The `BLOCKHASH` instruction: replaces the number on top of the stack by the hash that
/// `lookup` gives for it. A lookup that fails counts as a zero hash, never as an error.
pub fn arb_block_hash<F: FnOnce(u64) -> Option<B256>>(stack: &mut Stack, lookup: F) -> (r: Result<
    (),
    InstructionResult,
>)
    requires
        forall|number: u64| #[trigger] call_requires(lookup, (number,)),
    ensures
        match r {
            Ok(_) => {
                let words = crate::operand_stack::stack_words(*old(stack));
                &&& words.len() > 0
                &&& exists|found: Option<B256>| #[trigger]
                    call_ensures(lookup, (requested_block(words.last()),), found)
                        && crate::operand_stack::stack_words(*final(stack)) == words.update(
                        words.len() - 1,
                        hash_or_zero(found),
                    )
            },
            Err(e) => {
                &&& e == InstructionResult::StackUnderflow
                &&& crate::operand_stack::stack_words(*old(stack)).len() == 0
                &&& crate::operand_stack::stack_words(*final(stack))
                    == crate::operand_stack::stack_words(*old(stack))
            },
        },
{
    let number = match stack_top(stack) {
        Some(number) => number,
        None => return Err(InstructionResult::StackUnderflow),
    };
    let requested: u64 = number.saturating_u64();
    let ghost words = crate::operand_stack::stack_words(*stack);
    assert(requested == requested_block(words.last()));
    let found = lookup(requested);
    assert(call_ensures(lookup, (requested_block(words.last()),), found));
    let hash = match found {
        Some(hash) => hash,
        None => B256::zero(),
    };
    if stack_set_top(stack, hash.word) {
        Ok(())
    } else {
        Err(InstructionResult::StackUnderflow)
    }
}

/// `BLOCKHASH` of a block that is known gives the hash of that very block, whichever hashes are
/// known, and of any other block zero: the lookup is asked for the number on top of the stack, and
/// for the largest `u64` where that is larger.
pub proof fn lemma_block_hash_is_that_of_the_block<F: FnOnce(u64) -> Option<B256>>(
    lookup: F,
    known: Map<u64, B256>,
)
    requires
        forall|number: u64, found: Option<B256>| #[trigger]
            call_ensures(lookup, (number,), found) ==> found == (if known.contains_key(number) {
                Some(known[number])
            } else {
                None
            }),
    ensures
        forall|stack: &mut Stack, r: Result<(), InstructionResult>| #[trigger]
            call_ensures(arb_block_hash::<F>, (stack, lookup), r) ==> {
                let before = crate::operand_stack::stack_words(*stack);
                let after = crate::operand_stack::stack_words(*final(stack));
                let top = before.len() - 1;
                &&& r is Ok <==> before.len() > 0
                &&& after.len() == before.len()
                &&& forall|i: int| 0 <= i < top ==> after[i] == before[i]
                &&& r is Ok ==> forall|number: u64|
                    number as nat == before[top] || before[top] > u64::MAX && number == u64::MAX
                        ==> after[top] == (if #[trigger] known.contains_key(number) {
                        known[number]@
                    } else {
                        0
                    })
            },
{
}

/// The chain's table gives `NUMBER` and `BLOCKHASH` instructions of its own, for two and twenty gas,
/// and every other opcode what the hardfork gives it, for what the hardfork charges.
pub proof fn lemma_two_instructions_are_replaced(spec: ArbSpecId, r: ArbInstructions, op: u8)
    requires
        call_ensures(canonical_arb_instructions, (spec,), r),
    ensures
        r.entry_of(0x40) == InstructionEntry::L1BlockHash,
        r.entry_of(0x43) == InstructionEntry::L1BlockNumber,
        r.costs().len() == 256,
        r.costs()[0x40] == 20,
        r.costs()[0x43] == 2,
        op != 0x40 && op != 0x43 ==> r.entry_of(op) == InstructionEntry::Mainnet
            && r.costs()[op as int] == crate::spec::hardfork_gas_table(spec.hardfork())[op as int],
        forall|entry: InstructionEntry| #[trigger]
            call_ensures(ArbInstructions::entry, (&r, op), entry) ==> entry == r.entry_of(op),
        forall|costs: &[u16; 256]| #[trigger]
            call_ensures(ArbInstructions::gas_table, (&r,), costs) ==> costs@ == r.costs(),
{
}

} // verus!
