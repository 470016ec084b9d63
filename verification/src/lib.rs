//! Verified core of a fleet-wide "follow" utility: one streaming command is
//! fanned out to many hosts over a remote shell, and every host's live output
//! is fanned back into a single, host-attributed stream for one consumer.
//!
//! The remote transport itself (connection, authentication, channel I/O) is an
//! external collaborator driven by the surrounding binary; this crate holds the
//! decision core that the binary consults at every step: how channel events are
//! classified and tagged (`stream`), how the per-host traces interleave into
//! the delivery channel (`delivery`), how the single consumer drains that
//! channel (`aggregate`), and the plain-value logic around it (`hosts`,
//! `identity`, `command`, `errors`).

use vstd::prelude::*;

pub mod aggregate;
pub mod command;
pub mod delivery;
pub mod errors;
pub mod hosts;
pub mod identity;
pub mod stream;

verus! {

/// One entry on the delivery channel between the per-host units and the
/// aggregator: either a fragment of remote output tagged with the identity of
/// the host that produced it, or an explicit stop marker for the consumer.
#[derive(Debug, PartialEq, Eq)]
pub enum Msg {
    Message((String, Vec<u8>)),
    Exit,
}

} // verus!
