//! Errors around launching and supervising the LabVIEW process and talking
//! to the discovery service.

use vstd::prelude::*;

verus! {

/// What can go wrong outside the wire protocol: registration, launch, and a
/// missing launch target.
#[derive(Debug, PartialEq)]
pub enum LabVIEWError {
    /// The discovery service could not be reached; carries the transport's
    /// own message.
    ServiceLocatorCommsError(String),
    /// The discovery service answered with a failing status code.
    ServiceLocatorResponseError(u16),
    /// The process could not be launched; carries the OS error text.
    ProcessLaunchFailed(String),
    /// The VI to launch does not exist; carries the path looked for.
    ViDoesNotExist(String),
    /// Nul characters in argument isn't allowed.
    NullCharInArgument,
}

} // verus!
