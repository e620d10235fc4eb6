//! Lookup of the program for a frame. Nothing is compiled here.
use super::registry::{CompiledFrameRegistry, DispatchHits};
use crate::spans::FrameInput;
use crate::hashing::keccak256;
use crate::primitives::B256;
use vstd::prelude::*;

verus! {

/// Whether a hash is the one that a frame's code is known by: the one that is kept with it,
/// or else that of the code.
pub open spec fn is_live_hash(hash: B256, code: Seq<u8>, kept: Option<B256>) -> bool {
    match kept {
        Some(known) => hash == known,
        None => super::registry::is_hash_of(hash, code),
    }
}

/// The program for the current frame, or nothing where it is to be interpreted: for
/// creations, and for code that no resident program was compiled from.
///
/// The hash of the code is computed only where it is not kept with it yet, and kept then.
pub fn try_execute<C, F: Copy, T: Copy>(
    registry: &CompiledFrameRegistry<C, F, T>,
    input: &FrameInput,
    code: &[u8],
    code_hash: &mut Option<B256>,
    hits: &mut DispatchHits,
) -> (r: Option<F>)
    ensures
        match *input {
            FrameInput::Call(_) => exists|hash: B256|
                {
                    &&& #[trigger] is_live_hash(hash, code@, *old(code_hash))
                    &&& *final(code_hash) == Some(hash)
                    &&& r == registry.found(hash, code@.len())
                    &&& super::registry::counted_for(*old(hits), *final(hits), hash, r is Some)
                },
            _ => r is None && *final(code_hash) == *old(code_hash) && *final(hits) == *old(hits),
        },
{
    match input {
        FrameInput::Create => return None,
        FrameInput::Empty => return None,
        FrameInput::Call(_) => {},
    }
    let hash = match *code_hash {
        Some(hash) => hash,
        None => keccak256(code),
    };
    assert(is_live_hash(hash, code@, *code_hash));
    *code_hash = Some(hash);
    registry.lookup(hash, code.len(), hits)
}

/// Only calls are looked up, by the hash that is kept with their code, or else by that of the code
/// itself, which is kept then. What is found is what the registry finds under that hash and the
/// length of the code.
pub proof fn lemma_what_is_looked_up<C, F: Copy, T: Copy>(
    registry: CompiledFrameRegistry<C, F, T>,
    input: FrameInput,
    code: &[u8],
)
    ensures
        forall|code_hash: &mut Option<B256>, hits: &mut DispatchHits, r: Option<F>| #[trigger]
            call_ensures(
                try_execute::<C, F, T>,
                (&registry, &input, code, code_hash, hits),
                r,
            ) ==> {
                &&& !(input is Call) ==> r is None && *final(code_hash) == *code_hash && *final(hits)
                    == *hits
                &&& input is Call ==> {
                    &&& *final(code_hash) matches Some(hash)
                    &&& *code_hash matches Some(kept) ==> hash == kept
                    &&& *code_hash is None ==> hash@ == crate::bytes::be_value(
                        crate::hashing::keccak_bytes(code@),
                    )
                    &&& r matches Some(program) ==> registry.resident().contains_key(hash)
                        && registry.resident()[hash] == (program, code@.len())
                    &&& r is None ==> !(registry.resident().contains_key(hash)
                        && registry.resident()[hash].1 == code@.len() && registry.hash_source()
                        == super::registry::BlockHashSemantics::ArbosL1Ring
                        && registry.bound_to().block_hash_semantics@
                        == "arbos-l1-ring-blockhash-v1"@)
                }
            },
{
}

} // verus!
