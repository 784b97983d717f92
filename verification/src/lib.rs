//! A registry of build attestations: which published code ids were shown to
//! match a source repository, commit and build method, and who may say so.
//!
//! The registry keeps all of its state in a byte-keyed store. One identity, the
//! admin, may submit attestations and hand its role to another. A code id that
//! was verified once is closed for good, and an attempt that failed cannot be
//! submitted a second time.
//!
//! - [`contract`]: the operations, each with the spec function it is proved to follow.
//! - [`laws`]: what holds over any run of commands.
//! - [`consistency`]: the invariant of the store, and what it gives.
//! - [`state`]: the store and typed access to it.
//! - [`keys`]: where each piece of state lives.
//! - [`codec`], [`encoding`]: how values are written and read.
//! - [`msg`], [`error`]: requests, answers and rejections.
//! - [`padding`]: padding of response bodies.

pub mod codec;
pub mod consistency;
pub mod contract;
pub mod encoding;
pub mod error;
pub mod keys;
pub mod laws;
pub mod msg;
pub mod padding;
pub mod state;
