//! Protocol constants.
use crate::primitives::Address;
use vstd::prelude::*;

verus! {

/// Transaction type of a deposit from the parent chain.
pub const ARBITRUM_DEPOSIT_TX_TYPE: u8 = 0x64;

/// Transaction type of a retryable redemption.
pub const ARBITRUM_RETRY_TX_TYPE: u8 = 0x68;

/// Transaction type of a retryable submission.
pub const ARBITRUM_SUBMIT_RETRYABLE_TX_TYPE: u8 = 0x69;

/// Transaction type of the transactions that ArbOS itself starts.
pub const ARBITRUM_INTERNAL_TX_TYPE: u8 = 0x6a;

/// Coinbase of the blocks whose transactions pay for their data on the parent chain:
/// `0xa4b000000000000000000073657175656e636572`.
pub open spec fn batch_poster() -> Address {
    Address { hi: 0xa4b0_0000, mid: 0x73, lo: 0x6571_7565_6e63_6572 }
}

/// The batch poster's address.
pub fn batch_poster_address() -> (r: Address)
    ensures
        r == batch_poster(),
{
    Address { hi: 0xa4b0_0000, mid: 0x73, lo: 0x6571_7565_6e63_6572 }
}

/// The `BLOCKHASH` opcode.
pub const BLOCKHASH: u8 = 0x40;

/// The `NUMBER` opcode.
pub const NUMBER: u8 = 0x43;

/// The `PUSH1` opcode.
pub const PUSH1: u8 = 0x60;

/// The `PUSH32` opcode.
pub const PUSH32: u8 = 0x7f;

/// The batch poster's address and the types of the protocol's own transactions.
pub proof fn lemma_protocol_constants()
    ensures
        batch_poster()@ == 0xa4b0_0000_0000_0000_0000_0073_6571_7565_6e63_6572nat,
        ARBITRUM_DEPOSIT_TX_TYPE == 100,
        ARBITRUM_RETRY_TX_TYPE == 104,
        ARBITRUM_SUBMIT_RETRYABLE_TX_TYPE == 105,
        ARBITRUM_INTERNAL_TX_TYPE == 106,
{
}

} // verus!
