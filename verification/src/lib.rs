//! Host side of a batch computation on a GPU: for a run of consecutive 128-bit
//! candidates, the step count and the largest value of each trajectory.
//!
//! The library encodes the candidates for the device, lays out the buffers,
//! plans the dispatch, steers the invocation through its stages, and decodes what
//! comes back. It does not talk to the device itself: whoever drives a
//! [`session::Session`] does.

pub mod codec;
pub mod error;
pub mod layout;
pub mod plan;
pub mod range;
pub mod readback;
pub mod reference;
pub mod report;
pub mod session;
