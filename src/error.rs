use vstd::prelude::*;

verus! {

/// The failures the engine reports; every one is an ordinary result value.
#[derive(Debug, Clone, Copy, PartialEq, Eq, Structural)]
pub enum RemoteFsError {
    /// The host is not in the configuration, or the configuration is malformed.
    ConfigError,
    /// A logical path does not decode to a remote address.
    AddressError,
    /// Connecting, authenticating or remote I/O failed.
    TransportError,
    /// A local file could not be read or sized.
    LocalIoError,
    /// A hook exited with this nonzero status and does not ignore errors.
    HookFailure(u32),
}

} // verus!
