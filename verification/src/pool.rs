//! A fixed pool of core groups, each checked out to at most one holder at a
//! time.
//!
//! Group membership is immutable after construction; only the held/free state
//! of each group varies. `checkout_core_group` is a single non-blocking pass
//! over the groups in their fixed construction order: the first free group
//! wins, and if every group is held the caller gets `None` and must retry on
//! its own. The pool itself is a sequential state machine; callers that share
//! it across threads serialize access to it behind one exclusive lock and
//! wrap the returned handle so that `release_core_group` runs when the
//! handle's scope ends.

use crate::groups::{group_views, is_partition, partition, CoreIndex};
use vstd::pervasive::VecAdditionalExecFns;
use vstd::prelude::*;

verus! {

/// Exclusive access to one core group, from checkout until it is given back
/// with `release_core_group`.
pub struct GroupHandle {
    index: usize,
    cores: Vec<CoreIndex>,
}

impl GroupHandle {
    /// Position of the held group in the pool's fixed group list.
    pub closed spec fn idx(&self) -> int {
        self.index as int
    }

    /// The core indices of the held group.
    pub closed spec fn cores_seq(&self) -> Seq<CoreIndex> {
        self.cores@
    }

    /// Position of the held group in the pool's fixed group list.
    pub fn group_index(&self) -> (r: usize)
        ensures
            r == self.idx(),
    {
        self.index
    }

    /// The core indices reserved by this handle.
    pub fn cores(&self) -> (r: &Vec<CoreIndex>)
        ensures
            r@ == self.cores_seq(),
    {
        &self.cores
    }
}

/// The fixed collection of core groups, each either free or held.
pub struct CoreGroupPool {
    groups: Vec<Vec<CoreIndex>>,
    held: Vec<bool>,
}

/// One checkout step over the held/free state: group `i` was the first free
/// group and is now held, and no other group changed.
pub open spec fn checkout_transition(pre: Seq<bool>, post: Seq<bool>, i: int) -> bool {
    &&& 0 <= i < pre.len()
    &&& !pre[i]
    &&& forall|j: int| 0 <= j < i ==> pre[j]
    &&& post == pre.update(i, true)
}

impl CoreGroupPool {
    /// The fixed group membership.
    pub closed spec fn groups_seq(&self) -> Seq<Seq<CoreIndex>> {
        group_views(self.groups@)
    }

    /// Which groups are currently held.
    pub closed spec fn held_seq(&self) -> Seq<bool> {
        self.held@
    }

    pub closed spec fn wf(&self) -> bool {
        self.held@.len() == self.groups@.len()
    }

    pub open spec fn num_groups(&self) -> int {
        self.groups_seq().len() as int
    }

    /// Every group is currently checked out (vacuously true of an empty pool).
    pub open spec fn all_held(&self) -> bool {
        forall|i: int| 0 <= i < self.held_seq().len() ==> self.held_seq()[i]
    }

    /// Builds the pool over a fresh partition of `total_cores` into groups of
    /// `group_size`; every group starts out free.
    pub fn new(total_cores: usize, group_size: usize) -> (pool: CoreGroupPool)
        requires
            group_size >= 1,
        ensures
            pool.wf(),
            is_partition(total_cores as int, group_size as int, pool.groups_seq()),
            pool.held_seq() == Seq::new(pool.num_groups() as nat, |i: int| false),
    {
        let groups = partition(total_cores, group_size);
        let n = groups.len();
        let mut held: Vec<bool> = Vec::new();
        let mut i: usize = 0;
        while i < n
            invariant
                i <= n,
                held@ =~= Seq::new(i as nat, |j: int| false),
            decreases n - i,
        {
            held.push(false);
            i += 1;
        }
        let pool = CoreGroupPool { groups, held };
        proof {
            assert(pool.held_seq() =~= Seq::new(pool.num_groups() as nat, |i: int| false));
        }
        pool
    }

    /// Number of groups in the pool.
    pub fn len(&self) -> (r: usize)
        ensures
            r == self.num_groups(),
    {
        self.groups.len()
    }

    /// Whether group `i` is currently checked out.
    pub fn is_held(&self, i: usize) -> (r: bool)
        requires
            self.wf(),
            i < self.num_groups(),
        ensures
            r == self.held_seq()[i as int],
    {
        self.held[i]
    }
}

/// Non-blocking checkout: scans the groups in their fixed construction order
/// and takes the first one not currently held. Returns `None` — without
/// changing anything — exactly when every group is held (in particular,
/// always, on an empty pool); this is a single-pass probe, not a queued wait,
/// and no fairness across callers is provided.
pub fn checkout_core_group(pool: &mut CoreGroupPool) -> (r: Option<GroupHandle>)
    requires
        old(pool).wf(),
    ensures
        final(pool).wf(),
        final(pool).groups_seq() == old(pool).groups_seq(),
        match r {
            Some(h) => {
                &&& checkout_transition(old(pool).held_seq(), final(pool).held_seq(), h.idx())
                &&& h.cores_seq() == old(pool).groups_seq()[h.idx()]
            },
            None => {
                &&& final(pool).held_seq() == old(pool).held_seq()
                &&& old(pool).all_held()
            },
        },
        old(pool).all_held() ==> r is None,
        old(pool).num_groups() == 0 ==> r is None,
{
    let n = pool.groups.len();
    let mut i: usize = 0;
    while i < n
        invariant
            pool.wf(),
            *pool == *old(pool),
            n == pool.num_groups(),
            i <= n,
            forall|j: int| 0 <= j < i ==> pool.held_seq()[j],
        decreases n - i,
    {
        if !pool.held[i] {
            pool.held.set(i, true);
            let cores = copy_cores(&pool.groups[i]);
            let handle = GroupHandle { index: i, cores };
            return Some(handle);
        }
        i += 1;
    }
    None
}

/// Gives a checked-out group back to the pool, making it eligible for a
/// future checkout. Callers wrap the handle so this runs when its scope ends.
pub fn release_core_group(pool: &mut CoreGroupPool, handle: GroupHandle)
    requires
        old(pool).wf(),
        0 <= handle.idx() < old(pool).num_groups(),
        old(pool).held_seq()[handle.idx()],
    ensures
        final(pool).wf(),
        final(pool).groups_seq() == old(pool).groups_seq(),
        final(pool).held_seq() == old(pool).held_seq().update(handle.idx(), false),
{
    let i = handle.group_index();
    pool.held.set(i, false);
}

/// Law: two checkouts made one after the other, both successful, never hand
/// out the same group — the first checkout leaves its group held, and a
/// checkout only ever takes a free group.
pub proof fn lemma_checkouts_distinct(
    pre: Seq<bool>,
    mid: Seq<bool>,
    post: Seq<bool>,
    i1: int,
    i2: int,
)
    requires
        checkout_transition(pre, mid, i1),
        checkout_transition(mid, post, i2),
    ensures
        i1 != i2,
{
    assert(mid[i1]);
}

fn copy_cores(v: &Vec<CoreIndex>) -> (r: Vec<CoreIndex>)
    ensures
        r@ == v@,
{
    let n = v.len();
    let mut r: Vec<CoreIndex> = Vec::new();
    let mut i: usize = 0;
    while i < n
        invariant
            i <= n,
            n == v@.len(),
            r@ =~= v@.subrange(0, i as int),
        decreases n - i,
    {
        r.push(v[i]);
        i += 1;
    }
    proof {
        assert(r@ =~= v@);
    }
    r
}

} // verus!
