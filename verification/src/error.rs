//! The conditions the monitor tells apart. Only a bad configuration stops
//! the process; every other condition is counted and monitoring goes on.

use vstd::prelude::*;

verus! {

/// Why a component could not be built. This is the only fatal condition.
#[derive(Clone, Copy, Debug, PartialEq, Eq, Structural)]
pub enum ConfigError {
    /// A window must be able to hold at least one entry.
    ZeroCapacity,
}

/// The conditions met while monitoring. None of them ends the monitor.
#[derive(Clone, Copy, Debug, PartialEq, Eq, Structural)]
pub enum MonitorError {
    /// The chain data source did not answer, or answered too late.
    TransientRpcError,
    /// A block came with missing or invalid fields.
    MalformedBlockError,
    /// A reorg whose divergence lies beyond what the window holds.
    UnresolvableReorg,
    /// A gas price that is not positive.
    GasSampleOutOfRange,
}

} // verus!
