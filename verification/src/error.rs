//! The failures that the sampling core reports.

use vstd::prelude::*;

verus! {

/// Why an operation of the core did not produce its value.
#[derive(Debug, Clone, Copy, PartialEq, Eq, Structural)]
pub enum Failure {
    /// The lookup of a service class found no match.
    NotFound,
    /// The merged channel dictionary has no channel list.
    ChannelLookupFailed,
    /// The kernel handed back no subscription.
    SubscriptionFailed,
    /// An energy unit label other than `mJ`, `uJ` or `nJ`.
    UnknownEnergyUnit,
    /// Opening the SMC user client returned this non-zero code.
    SMCOpenFailed(i32),
    /// The kernel call itself returned this non-zero code.
    SMCTransportError(i32),
    /// The SMC answered that it knows no such key.
    SMCKeyNotFound,
    /// The SMC answered with this non-zero result byte.
    SMCProtocolError(u8),
    /// A key that is not four bytes long.
    InvalidKey,
    /// The hardware profile could not be obtained or is not JSON.
    SystemProfilerFailed,
    /// A CPU frequency table came out empty.
    SocInfoIncomplete,
}

/// The result of an operation of the core.
pub type WithError<T> = Result<T, Failure>;

} // verus!
