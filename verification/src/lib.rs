//! Verified rules of an Arbitrum EVM: what transactions pay for their data, which frames run
//! as compiled programs or by the stack kernel, and how transactions are recorded.
pub mod bytes;
pub mod compiled_frame;
pub mod compression;
pub mod constants;
pub mod counters;
pub mod evm;
pub mod execution;
pub mod hashing;
pub mod instructions;
pub mod l1_cost;
pub mod operand_stack;
pub mod phase_timing;
pub mod primitives;
pub mod rlp;
pub mod run;
pub mod spans;
pub mod spec;
pub mod stack_dispatch;
pub mod text;
pub mod transaction;
pub mod words;
