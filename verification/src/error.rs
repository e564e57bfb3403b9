//! The failure kinds of this subsystem and their severity policy.

use vstd::prelude::*;

verus! {

/// Everything that can go wrong around topology queries, checkout and
/// binding.
///
/// Severity policy: topology and lock-poisoning failures are unrecoverable
/// process-level faults; an out-of-range index is surfaced to the caller of
/// `bind` with no state mutated; rejected CPU or memory bindings degrade
/// gracefully and never escalate past the bind call.
#[derive(Clone, Copy, Debug, PartialEq, Eq, Structural)]
pub enum CoreError {
    /// The hardware description was unreadable at init.
    TopologyQueryError,
    /// A requested core index was at or above the discovered core count.
    IndexOutOfRange,
    /// The topology reported no allowed processor set for a resolved core.
    NoAllowedCpuset,
    /// The platform refused the CPU-affinity call; the thread runs unbound.
    BindRejected,
    /// The platform refused the memory-locality call; suppressed entirely.
    MemoryBindRejected,
    /// A thread crashed while holding the shared topology lock; the shared
    /// state may be inconsistent, so this is fatal and never retried.
    LockPoisoned,
}

impl CoreError {
    /// Whether this failure is an unrecoverable process-level fault rather
    /// than a per-call condition the caller handles or survives.
    pub fn is_fatal(&self) -> (r: bool)
        ensures
            r == (*self == CoreError::TopologyQueryError || *self == CoreError::LockPoisoned),
    {
        match self {
            CoreError::TopologyQueryError => true,
            CoreError::LockPoisoned => true,
            CoreError::IndexOutOfRange => false,
            CoreError::NoAllowedCpuset => false,
            CoreError::BindRejected => false,
            CoreError::MemoryBindRejected => false,
        }
    }

    /// A short description, for diagnostics.
    pub fn describe(&self) -> (r: &'static str)
        ensures
            *self == CoreError::TopologyQueryError ==> r@ == "failed to query hardware topology"@,
            *self == CoreError::IndexOutOfRange ==> r@ == "core index out of range"@,
            *self == CoreError::NoAllowedCpuset ==> r@ == "no allowed cpuset for core"@,
            *self == CoreError::BindRejected ==> r@ == "failed to bind CPU"@,
            *self == CoreError::MemoryBindRejected ==> r@ == "failed to bind memory"@,
            *self == CoreError::LockPoisoned ==> r@ == "poisoned topology lock"@,
    {
        match self {
            CoreError::TopologyQueryError => "failed to query hardware topology",
            CoreError::IndexOutOfRange => "core index out of range",
            CoreError::NoAllowedCpuset => "no allowed cpuset for core",
            CoreError::BindRejected => "failed to bind CPU",
            CoreError::MemoryBindRejected => "failed to bind memory",
            CoreError::LockPoisoned => "poisoned topology lock",
        }
    }
}

} // verus!
