//! What the host of compiled code answers instead of the frame's own host.
use crate::primitives::B256;
use crate::words::U256;
use vstd::prelude::*;

verus! {

/// Where the host of compiled code has block hashes from.
#[derive(Clone, Copy, Debug, PartialEq, Eq, Structural)]
pub enum BlockHashLookup {
    /// From the frame's own host.
    Forward,
    /// From the ring of hashes that ArbOS recorded.
    Ring,
}

/// The host of compiled code. It answers with the number of the parent chain's block and
/// with block hashes; everything else is answered by the frame's own host, whose block
/// environment is not written.
#[derive(Clone, Copy, Debug)]
pub struct CompiledNumberHost {
    l1_block_number: U256,
    block_hash_lookup: BlockHashLookup,
}

impl CompiledNumberHost {
    /// The number of the parent chain's block.
    pub closed spec fn number(self) -> nat {
        self.l1_block_number@
    }

    /// Where block hashes come from.
    pub closed spec fn hash_lookup(self) -> BlockHashLookup {
        self.block_hash_lookup
    }

    /// A host that has block hashes from the frame's own host.
    pub fn new(l1_block_number: u64) -> (r: CompiledNumberHost)
        ensures
            r.number() == l1_block_number,
            r.hash_lookup() == BlockHashLookup::Forward,
    {
        CompiledNumberHost {
            l1_block_number: U256::from_u64(l1_block_number),
            block_hash_lookup: BlockHashLookup::Forward,
        }
    }

    /// A host that has block hashes from the ring that ArbOS recorded.
    pub fn new_arb_ring(l1_block_number: u64) -> (r: CompiledNumberHost)
        ensures
            r.number() == l1_block_number,
            r.hash_lookup() == BlockHashLookup::Ring,
    {
        CompiledNumberHost {
            l1_block_number: U256::from_u64(l1_block_number),
            block_hash_lookup: BlockHashLookup::Ring,
        }
    }

    /// The number of the parent chain's block.
    pub fn block_number(&self) -> (r: U256)
        ensures
            r@ == self.number(),
    {
        self.l1_block_number
    }

    /// The hash of a block. What the frame's own host gives is passed on; a failed read of
    /// the ring counts as a zero hash, never as a missing one.
    pub fn block_hash<H: FnOnce(u64) -> Option<B256>, R: FnOnce(u64) -> Option<B256>>(
        &self,
        number: u64,
        forward: H,
        ring: R,
    ) -> (r: Option<B256>)
        requires
            call_requires(forward, (number,)),
            call_requires(ring, (number,)),
        ensures
            match self.hash_lookup() {
                BlockHashLookup::Forward => call_ensures(forward, (number,), r),
                BlockHashLookup::Ring => exists|found: Option<B256>| #[trigger]
                    call_ensures(ring, (number,), found) && (r matches Some(hash) && hash@
                        == crate::instructions::hash_or_zero(found)),
            },
    {
        match self.block_hash_lookup {
            BlockHashLookup::Forward => forward(number),
            BlockHashLookup::Ring => {
                let found = ring(number);
                match found {
                    Some(hash) => Some(hash),
                    None => Some(B256::zero()),
                }
            },
        }
    }
}

/// Compiled code reads of a recorded block the hash that the ring holds of that very block, and of
/// any other a zero hash; where it does not read the ring, it reads what the frame's own host
/// gives.
pub proof fn lemma_compiled_code_reads_the_ring<
    H: FnOnce(u64) -> Option<B256>,
    R: FnOnce(u64) -> Option<B256>,
>(
    l1_block_number: u64,
    reading: CompiledNumberHost,
    forwarding: CompiledNumberHost,
    number: u64,
    forward: H,
    ring: R,
    recorded: Map<u64, B256>,
    x: Option<B256>,
    y: Option<B256>,
    shown: U256,
)
    requires
        call_ensures(CompiledNumberHost::new_arb_ring, (l1_block_number,), reading),
        call_ensures(CompiledNumberHost::new, (l1_block_number,), forwarding),
        forall|n: u64, found: Option<B256>| #[trigger]
            call_ensures(ring, (n,), found) ==> found == (if recorded.contains_key(n) {
                Some(recorded[n])
            } else {
                None
            }),
        call_ensures(CompiledNumberHost::block_hash::<H, R>, (&reading, number, forward, ring), x),
        call_ensures(
            CompiledNumberHost::block_hash::<H, R>,
            (&forwarding, number, forward, ring),
            y,
        ),
        call_ensures(CompiledNumberHost::block_number, (&reading,), shown),
    ensures
        x matches Some(hash) && hash@ == (if recorded.contains_key(number) {
            recorded[number]@
        } else {
            0
        }),
        call_ensures(forward, (number,), y),
        shown@ == l1_block_number,
{
}

} // verus!
