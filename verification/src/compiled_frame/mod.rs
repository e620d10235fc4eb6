//! Dispatch of frames to programs that were compiled ahead of time.
//!
//! Programs are compiled before execution and looked up by code hash while it runs. A
//! frame that no resident program fits is interpreted.
pub mod dispatch;
pub mod eligibility;
pub mod host;
pub mod registry;
