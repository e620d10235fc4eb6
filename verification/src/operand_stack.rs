//! The interpreter's operand stack, as revm holds it.
use crate::words::U256;
use revm::interpreter::Stack;
use vstd::prelude::*;

verus! {

/// The operand stack of revm's interpreter.
#[verifier::external_type_specification]
#[verifier::external_body]
pub struct ExStack(revm::interpreter::Stack);

/// The words on a stack, from the bottom to the top.
pub uninterp spec fn stack_words(stack: Stack) -> Seq<nat>;

/// Most words that a stack holds.
pub const STACK_LIMIT: usize = 1024;

/// The words with the top one exchanged for the one `n` below it.
pub open spec fn swapped(words: Seq<nat>, n: int) -> Seq<nat> {
    let top = words.len() - 1;
    words.update(top, words[top - n]).update(top - n, words[top])
}

/// Removes the top word.
///
/// Calls `revm::interpreter::Stack::pop`. Trusted: it removes the top word, and fails on
/// an empty stack only.
#[verifier::external_body]
pub(crate) fn stack_pop(stack: &mut Stack) -> (r: bool)
    ensures
        r == (stack_words(*old(stack)).len() > 0),
        r ==> stack_words(*final(stack)) == stack_words(*old(stack)).drop_last(),
        !r ==> stack_words(*final(stack)) == stack_words(*old(stack)),
{
    stack.pop().is_ok()
}

/// Pushes the word that up to 32 bytes stand for, most significant first.
///
/// Calls `revm::interpreter::Stack::push_slice`, which writes into room that has to be
/// there, so room is reserved first. Trusted: it pushes the number of the bytes, and
/// fails on a full stack only, which it leaves unchanged.
#[verifier::external_body]
pub(crate) fn stack_push_slice(stack: &mut Stack, bytes: &[u8]) -> (r: bool)
    requires
        0 < bytes@.len() <= 32,
    ensures
        r == (stack_words(*old(stack)).len() < STACK_LIMIT),
        r ==> stack_words(*final(stack)) == stack_words(*old(stack)).push(
            crate::bytes::be_value(bytes@),
        ),
        !r ==> stack_words(*final(stack)) == stack_words(*old(stack)),
{
    stack.data_mut().reserve(revm::interpreter::STACK_LIMIT);
    stack.push_slice(bytes).is_ok()
}

/// Pushes a word.
///
/// Calls `revm::interpreter::Stack::push`, which writes into room that has to be there,
/// so room is reserved first. Trusted: it pushes the word, and fails only on a stack with
/// exactly as many words as the limit, which it leaves unchanged.
#[verifier::external_body]
pub(crate) fn stack_push(stack: &mut Stack, word: U256) -> (r: bool)
    ensures
        r == (stack_words(*old(stack)).len() != STACK_LIMIT),
        r ==> stack_words(*final(stack)) == stack_words(*old(stack)).push(word@),
        !r ==> stack_words(*final(stack)) == stack_words(*old(stack)),
{
    stack.data_mut().reserve(revm::interpreter::STACK_LIMIT);
    stack.push(revm::primitives::U256::from_limbs([word.l0, word.l1, word.l2, word.l3]))
}

/// Pushes a copy of the `n`th word from the top, the top one being the first.
///
/// Calls `revm::interpreter::Stack::dup`, which panics where `n` is zero and writes into
/// room that has to be there, so room is reserved first. Trusted: it pushes the copy, and
/// fails where there is no such word or the stack is full, leaving it unchanged.
#[verifier::external_body]
pub(crate) fn stack_dup(stack: &mut Stack, n: usize) -> (r: bool)
    requires
        n > 0,
    ensures
        r == (n <= stack_words(*old(stack)).len() < STACK_LIMIT),
        r ==> stack_words(*final(stack)) == stack_words(*old(stack)).push(
            stack_words(*old(stack))[stack_words(*old(stack)).len() - n],
        ),
        !r ==> stack_words(*final(stack)) == stack_words(*old(stack)),
{
    stack.data_mut().reserve(revm::interpreter::STACK_LIMIT);
    stack.dup(n)
}

/// Exchanges the top word for the one `n` below it.
///
/// Calls `revm::interpreter::Stack::exchange` from the top, which panics where `n` is
/// zero. Trusted: it exchanges the two words, and fails where there is no such word,
/// leaving the stack unchanged.
#[verifier::external_body]
pub(crate) fn stack_swap(stack: &mut Stack, n: usize) -> (r: bool)
    requires
        n > 0,
    ensures
        r == (n < stack_words(*old(stack)).len()),
        r ==> stack_words(*final(stack)) == swapped(stack_words(*old(stack)), n as int),
        !r ==> stack_words(*final(stack)) == stack_words(*old(stack)),
{
    stack.exchange(0, n)
}

/// The top word.
///
/// Calls `revm::interpreter::Stack::peek` at the top. Trusted: it gives the top word, and
/// fails on an empty stack only.
#[verifier::external_body]
pub(crate) fn stack_top(stack: &Stack) -> (r: Option<U256>)
    ensures
        match r {
            Some(word) => stack_words(*stack).len() > 0 && word@ == stack_words(*stack).last(),
            None => stack_words(*stack).len() == 0,
        },
{
    let limbs = stack.peek(0).ok()?.into_limbs();
    Some(U256 { l0: limbs[0], l1: limbs[1], l2: limbs[2], l3: limbs[3] })
}

/// Replaces the top word.
///
/// Calls `revm::interpreter::Stack::set` at the top. Trusted: it replaces the top word,
/// and fails on an empty stack only.
#[verifier::external_body]
pub(crate) fn stack_set_top(stack: &mut Stack, word: U256) -> (r: bool)
    ensures
        r == (stack_words(*old(stack)).len() > 0),
        r ==> stack_words(*final(stack)) == stack_words(*old(stack)).update(
            stack_words(*old(stack)).len() - 1,
            word@,
        ),
        !r ==> stack_words(*final(stack)) == stack_words(*old(stack)),
{
    stack.set(
        0,
        revm::primitives::U256::from_limbs([word.l0, word.l1, word.l2, word.l3]),
    ).is_ok()
}

} // verus!
