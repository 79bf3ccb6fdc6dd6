//! Greedy autoregressive decoding for a locally loaded causal language model.
//!
//! The numeric work (loading weights, running a forward pass, turning text into
//! token ids and back) is done by the model backend outside this library. What
//! stands here is the part where correctness is subtle: reducing a forward
//! pass's output to the distribution for the next position, picking a token
//! deterministically, keeping the position cursor in step with what the model
//! has consumed, and deciding when to stop.
pub mod select;
pub mod decoding;
pub mod device;
pub mod session;
