//! What a probe can fail with, apart from finding no server.

use vstd::prelude::*;

verus! {

/// The seconds that a probe waits: the BE probe for its reply, the JE probe
/// for its connection.
pub const TIMEOUT_SECS: u64 = 5;

/// A failure of a probe that is more than "no server answered".
#[derive(Clone, Copy, Debug, PartialEq, Eq, Structural)]
pub enum ProbeError {
    /// A reply came, but it does not have the shape the protocol gives it.
    Malformed,
    /// The local side could not set up what the probe needs.
    Local,
}

} // verus!
