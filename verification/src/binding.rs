//! Per-thread CPU/memory binding decisions and scoped restoration.
//!
//! The platform calls themselves (querying the topology, reading and setting
//! a thread's affinity) are made by the surrounding program; everything the
//! subsystem decides — whether an index is bindable, which single logical
//! processor to bind to, what to capture beforehand and what to restore
//! afterward — lives here, on plain mask values.
//!
//! A bind proceeds in these steps: validate the core index against the
//! discovered core count (`check_core_index`); reduce the core's allowed
//! processor set to exactly one logical processor (`bind_target`), so that a
//! hyperthreaded core never gets both siblings bound; capture the thread's
//! current affinity and construct the guard (`capture_and_bind`); and, when
//! the guard's scope ends, restore exactly the captured state, once
//! (`release_step`). A rejected CPU bind is non-fatal — the guard is returned
//! anyway and the thread runs unbound — and a rejected memory bind is
//! suppressed entirely; this asymmetry is deliberate.

use crate::error::CoreError;
use crate::groups::CoreIndex;
use vstd::prelude::*;

verus! {

/// A thread's CPU-binding mask: the set of logical-processor indices the
/// thread may run on, as a strictly increasing list.
pub struct CpuMask {
    procs: Vec<usize>,
}

impl View for CpuMask {
    type V = Seq<usize>;

    closed spec fn view(&self) -> Seq<usize> {
        self.procs@
    }
}

/// Strictly increasing: each entry is below its successor, so entries are
/// unique and the first one is the lowest.
pub open spec fn strictly_increasing(s: Seq<usize>) -> bool {
    forall|a: int| 0 <= a && a + 1 < s.len() ==> #[trigger] s[a] < s[a + 1]
}

/// A mask reduced to at most one logical processor: its lowest entry stays,
/// everything else is dropped, and an empty mask stays empty.
pub open spec fn singlified(s: Seq<usize>) -> Seq<usize> {
    if s.len() == 0 {
        s
    } else {
        seq![s[0]]
    }
}

impl CpuMask {
    pub open spec fn wf(&self) -> bool {
        strictly_increasing(self@)
    }

    /// Builds a mask from a list of logical-processor indices; the list must
    /// be strictly increasing, else `None`.
    pub fn from_sorted(procs: Vec<usize>) -> (r: Option<CpuMask>)
        ensures
            match r {
                Some(m) => m@ == procs@ && m.wf(),
                None => !strictly_increasing(procs@),
            },
    {
        let n = procs.len();
        let mut i: usize = 1;
        while i < n
            invariant
                n == procs@.len(),
                1 <= i,
                forall|a: int| 0 <= a && a + 1 < i ==> #[trigger] procs@[a] < procs@[a + 1],
            decreases n - i,
        {
            if procs[i - 1] >= procs[i] {
                return None;
            }
            i += 1;
        }
        Some(CpuMask { procs })
    }

    /// Number of logical processors in the mask.
    pub fn len(&self) -> (r: usize)
        ensures
            r == self@.len(),
    {
        self.procs.len()
    }

    /// The logical-processor indices, lowest first.
    pub fn procs(&self) -> (r: &Vec<usize>)
        ensures
            r@ == self@,
    {
        &self.procs
    }

    /// An identical mask.
    pub fn duplicate(&self) -> (r: CpuMask)
        ensures
            r@ == self@,
    {
        let n = self.procs.len();
        let mut procs: Vec<usize> = Vec::new();
        let mut i: usize = 0;
        while i < n
            invariant
                i <= n,
                n == self.procs@.len(),
                procs@ =~= self.procs@.subrange(0, i as int),
            decreases n - i,
        {
            procs.push(self.procs[i]);
            i += 1;
        }
        proof {
            assert(procs@ =~= self.procs@);
        }
        CpuMask { procs }
    }

    /// Keeps only one logical processor — the lowest — so that a thread bound
    /// to a hyperthreaded core does not migrate between sibling processors.
    pub fn singlify(&mut self)
        ensures
            final(self)@ == singlified(old(self)@),
            old(self).wf() ==> final(self).wf(),
            old(self).wf() && old(self)@.len() > 0 ==> final(self)@.len() == 1 && forall|j: int|
                0 <= j < old(self)@.len() ==> final(self)@[0] <= #[trigger] old(self)@[j],
    {
        proof {
            if self.wf() && self@.len() > 0 {
                assert forall|j: int| 0 <= j < self@.len() implies self@[0]
                    <= #[trigger] self@[j] by {
                    lemma_first_entry_is_lowest(self@, j);
                }
            }
        }
        if self.procs.len() > 1 {
            let first = self.procs[0];
            let mut procs: Vec<usize> = Vec::new();
            procs.push(first);
            self.procs = procs;
            proof {
                assert(self@ =~= singlified(old(self)@));
            }
        } else {
            proof {
                assert(self@ =~= singlified(old(self)@));
            }
        }
    }
}

/// In a strictly increasing sequence the first entry is the lowest.
proof fn lemma_first_entry_is_lowest(s: Seq<usize>, j: int)
    requires
        strictly_increasing(s),
        0 <= j < s.len(),
    ensures
        s[0] <= s[j],
    decreases j,
{
    if j > 0 {
        lemma_first_entry_is_lowest(s, j - 1);
        assert(s[j - 1] < s[j]);
    }
}

/// Validates a core index against the core count discovered at startup:
/// `Ok` exactly when the index is in range, `IndexOutOfRange` otherwise, with
/// nothing mutated and no affinity state captured.
pub fn check_core_index(core_count: usize, index: CoreIndex) -> (r: Result<(), CoreError>)
    ensures
        r is Ok <==> index@ < core_count,
        r is Err ==> r->Err_0 == CoreError::IndexOutOfRange,
{
    if index.value() < core_count {
        Ok(())
    } else {
        Err(CoreError::IndexOutOfRange)
    }
}

/// Reduces a resolved core's allowed processor set to the single logical
/// processor that the thread will be bound to. A core with no allowed
/// processor set reported at all is refused with `NoAllowedCpuset`.
pub fn bind_target(allowed: Option<CpuMask>) -> (r: Result<CpuMask, CoreError>)
    ensures
        match r {
            Ok(t) => {
                &&& allowed is Some
                &&& t@ == singlified(allowed->0@)
            },
            Err(e) => {
                &&& allowed is None
                &&& e == CoreError::NoAllowedCpuset
            },
        },
{
    match allowed {
        Some(mask) => {
            let mut target = mask;
            target.singlify();
            Ok(target)
        },
        None => Err(CoreError::NoAllowedCpuset),
    }
}

/// A thread's observable affinity, where `None` means no binding could be
/// observed.
pub open spec fn mask_view(m: Option<CpuMask>) -> Option<Seq<usize>> {
    match m {
        Some(mask) => Some(mask@),
        None => None,
    }
}

/// A thread's affinity after a bind attempt: the target mask if the platform
/// accepted the call, unchanged if it rejected it (the degraded, non-fatal
/// outcome — the thread simply runs as before).
pub open spec fn affinity_after_bind(
    before: Option<Seq<usize>>,
    target: Seq<usize>,
    accepted: bool,
) -> Option<Seq<usize>> {
    if accepted {
        Some(target)
    } else {
        before
    }
}

/// A thread's affinity after its guard is released: the captured prior state
/// if one was captured, unchanged if none was (no custom binding existed
/// before, so restoration is skipped).
pub open spec fn affinity_after_release(
    current: Option<Seq<usize>>,
    prior: Option<Seq<usize>>,
) -> Option<Seq<usize>> {
    match prior {
        Some(p) => Some(p),
        None => current,
    }
}

/// Scoped restoration state: the affinity snapshot captured immediately
/// before one bind, owned until the bind's scope ends and consumed exactly
/// once to restore the owning thread.
pub struct Cleanup {
    tid: u64,
    prior_state: Option<CpuMask>,
}

impl Cleanup {
    /// The bound thread's identifier, as the platform reports it.
    pub closed spec fn spec_tid(&self) -> u64 {
        self.tid
    }

    /// The captured affinity snapshot still owed to the thread, if any.
    pub closed spec fn prior(&self) -> Option<Seq<usize>> {
        mask_view(self.prior_state)
    }

    /// The bound thread's identifier.
    pub fn thread_id(&self) -> (r: u64)
        ensures
            r == self.spec_tid(),
    {
        self.tid
    }

    /// Hands the captured snapshot out for restoration, leaving none behind,
    /// so that restoration happens at most once however often this is asked.
    pub fn take_prior(&mut self) -> (r: Option<CpuMask>)
        ensures
            mask_view(r) == old(self).prior(),
            final(self).prior() is None,
            final(self).spec_tid() == old(self).spec_tid(),
    {
        self.prior_state.take()
    }
}

/// Captures the thread's current affinity as the guard's restoration state.
/// The guard is constructed the same way whether or not the platform accepted
/// the CPU bind: a rejected bind is non-fatal and the caller is never blocked
/// by it, it merely runs unbound. The returned mask is what the thread's
/// affinity is after the attempt.
pub fn capture_and_bind(tid: u64, current: Option<CpuMask>, target: CpuMask, accepted: bool) -> (r:
    (Option<CpuMask>, Cleanup))
    ensures
        mask_view(r.0) == affinity_after_bind(mask_view(current), target@, accepted),
        r.1.prior() == mask_view(current),
        r.1.spec_tid() == tid,
{
    if accepted {
        let cleanup = Cleanup { tid, prior_state: current };
        (Some(target), cleanup)
    } else {
        let captured = match &current {
            Some(mask) => Some(mask.duplicate()),
            None => None,
        };
        let cleanup = Cleanup { tid, prior_state: captured };
        (current, cleanup)
    }
}

/// Consumes a guard at the end of its scope and yields the thread's affinity
/// after restoration: exactly the captured prior state when one is present,
/// the current affinity untouched when none is.
pub fn release_step(cleanup: Cleanup, current: Option<CpuMask>) -> (next: Option<CpuMask>)
    ensures
        mask_view(next) == affinity_after_release(mask_view(current), cleanup.prior()),
{
    match cleanup.prior_state {
        Some(p) => Some(p),
        None => current,
    }
}

/// Law: for any successful bind whose prior affinity was observable, an
/// immediate release with no intervening rebind restores the thread's
/// affinity to exactly what it was before the bind — whether or not the
/// platform accepted the bind itself. (When no prior state could be captured,
/// restoration is skipped and an accepted bind persists instead.)
pub proof fn lemma_bind_release_round_trip(before: Seq<usize>, target: Seq<usize>, accepted: bool)
    ensures
        affinity_after_release(
            affinity_after_bind(Some(before), target, accepted),
            Some(before),
        ) == Some(before),
{
}

/// Law: nested binds released in last-bound/first-restored order leave the
/// thread's final affinity equal to its state before the outermost bind, for
/// any targets and any mix of accepted and rejected binds, provided the
/// outermost prior affinity was observable. Each bind captures whatever
/// affinity preceded it, and each release restores its own capture.
pub proof fn lemma_nested_bind_release(
    before: Seq<usize>,
    target_a: Seq<usize>,
    accepted_a: bool,
    target_b: Seq<usize>,
    accepted_b: bool,
)
    ensures
        ({
            let after_a = affinity_after_bind(Some(before), target_a, accepted_a);
            let after_b = affinity_after_bind(after_a, target_b, accepted_b);
            let released_b = affinity_after_release(after_b, after_a);
            let released_a = affinity_after_release(released_b, Some(before));
            released_a == Some(before)
        }),
{
}

} // verus!
