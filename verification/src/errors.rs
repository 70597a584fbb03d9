use vstd::prelude::*;

verus! {

/// The failures a registry request can end in. A failing request leaves the
/// registry byte-for-byte unchanged; none of these is recovered internally.
#[derive(Clone, Copy, Debug, PartialEq, Eq, Structural)]
pub enum RegistryError {
    /// No valid disambiguation value exists for the requested derived address.
    DerivationFailure,
    /// The target address is already occupied; nothing is ever overwritten.
    AlreadyExists,
    /// The encoded record would exceed its fixed-capacity buffer.
    CapacityExceeded,
    /// The requester's identity is missing or malformed.
    Unauthenticated,
    /// The namespace's index space is used up; no further index can be assigned.
    ResourceExhaustion,
}

} // verus!
