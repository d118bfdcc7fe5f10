//! Error taxonomy of the daemon core.

use vstd::prelude::*;

verus! {

/// Why a core operation failed.
///
/// `NotFound` and `Config` identify a name the caller supplied that the
/// daemon does not know; every other variant is an internal failure.
#[derive(Clone, Copy, Debug, PartialEq, Eq, Structural)]
pub enum Error {
    /// Socket- or connection-level failure talking to the engine.
    Transport,
    /// Malformed or unexpected-status engine response.
    Protocol,
    /// A referenced deployment name or container id does not exist.
    NotFound,
    /// The external launch invocation failed or was unreachable.
    Launch,
    /// The launch succeeded but the container did not end up running.
    Verification,
    /// A referenced deployment name is absent from the configuration.
    Config,
}

impl Error {
    /// Whether the error maps to a not-found response rather than a
    /// generic internal failure.
    pub open spec fn spec_is_not_found(self) -> bool {
        self is NotFound || self is Config
    }

    /// HTTP-style status for this error: not-found names give 404,
    /// everything else a generic internal failure.
    pub fn status_code(&self) -> (r: u16)
        ensures
            r == 404 <==> self.spec_is_not_found(),
            r == 404 || r == 500,
    {
        match self {
            Error::NotFound => 404,
            Error::Config => 404,
            _ => 500,
        }
    }
}

} // verus!
