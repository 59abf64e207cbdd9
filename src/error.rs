//! What can go wrong while installing or removing a certificate.
use vstd::prelude::*;

verus! {

/// Why an install or uninstall stopped. Where an operating-system error caused
/// it, its message is carried along.
#[derive(Debug, Clone, PartialEq, Eq)]
pub enum CaError {
    /// No known trust-anchor directory exists on this host.
    UnsupportedPlatform,
    /// A required tool is not on the search path.
    ToolNotFound(String),
    /// The certificate could not be copied into the anchor directory.
    CopyFailed(String),
    /// The anchor file could not be removed.
    FileRemoveFailed(String),
    /// The registry file could not be read.
    RegistryIoError(String),
    /// The registry file could not be rewritten.
    RegistryWriteError(String),
    /// The trust-bundle rebuild did not succeed: it ran and exited with a
    /// failure (`None`), or could not be started, for the reason given.
    RebuildFailed(Option<String>),
    /// An event arrived that the session was not waiting for.
    OutOfOrder,
}

} // verus!
