//! Opening a child's process descriptor at spawn time: the capability
//! probe's verdict and its once-only flag, the control-data layout and
//! checks for passing one descriptor over a local socket, and the parent's
//! and child's steps of a spawn.

pub mod capability;
pub mod channel;
pub mod spawn;
