//! A verified model of the runtime status of a multi-channel hardware audio
//! mixer, shared between the daemon that owns the device and its clients.
//!
//! The crate holds the status tree itself (device identity, faders, levels,
//! the microphone processing chain, lighting, effects, sampler banks and the
//! audio routing relation), the invariants that tree upholds, and a
//! self-describing token codec for carrying a status across a process
//! boundary.

pub mod ids;
pub mod wire;
pub mod util;
pub mod lighting;
pub mod mic;
pub mod effects;
pub mod sampler;
pub mod router;
pub mod mixer;
pub mod daemon;
