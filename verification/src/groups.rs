//! Partitioning the discovered cores into fixed-size, non-overlapping groups.

use vstd::arithmetic::div_mod::lemma_fundamental_div_mod;
use vstd::prelude::*;

verus! {

/// Index into the ordered list of logical cores discovered at startup.
///
/// A `CoreIndex` should only ever be created with a value known to be less
/// than the number of discovered cores; the topology is assumed static for
/// the process lifetime, and `binding::check_core_index` re-validates the
/// index against the core count before any binding is attempted.
#[derive(Clone, Copy, Debug, PartialEq, Eq, Structural)]
pub struct CoreIndex(usize);

impl View for CoreIndex {
    type V = usize;

    closed spec fn view(&self) -> usize {
        self.0
    }
}

impl CoreIndex {
    /// Wraps a raw index. The caller is responsible for only using values
    /// below the discovered core count.
    pub fn new(value: usize) -> (r: CoreIndex)
        ensures
            r@ == value,
    {
        CoreIndex(value)
    }

    /// The raw index value.
    pub fn value(&self) -> (r: usize)
        ensures
            r == self@,
    {
        self.0
    }
}

/// The element-wise views of a sequence of core-index vectors.
pub open spec fn group_views(groups: Seq<Vec<CoreIndex>>) -> Seq<Seq<CoreIndex>> {
    groups.map_values(|g: Vec<CoreIndex>| g@)
}

/// What a correct partition of `total_cores` cores into groups of
/// `group_size` looks like: `total_cores / group_size` groups (integer
/// division; remainder cores stay unassigned), each of exactly `group_size`
/// contiguous indices, emitted in descending order, so group `k` covers the
/// range starting at `(group_count - 1 - k) * group_size`.
pub open spec fn is_partition(total_cores: int, group_size: int, groups: Seq<Seq<CoreIndex>>) -> bool {
    &&& groups.len() == total_cores / group_size
    &&& forall|k: int| 0 <= k < groups.len() ==> (#[trigger] groups[k]).len() == group_size
    &&& forall|k: int, j: int|
        0 <= k < groups.len() && 0 <= j < group_size ==> (#[trigger] groups[k][j])@
            == (groups.len() - 1 - k) * group_size + j
    &&& forall|k: int, j: int|
        0 <= k < groups.len() && 0 <= j < group_size ==> (#[trigger] groups[k][j])@ < total_cores
}

/// Builds `total_cores / group_size` non-overlapping groups of `group_size`
/// contiguous core indices each. Remainder cores are intentionally left
/// unassigned. Groups are emitted in descending index order (highest-numbered
/// cores first), a deliberate bias toward leaving low-numbered cores — often
/// used by the OS and other services — checked out last.
pub fn partition(total_cores: usize, group_size: usize) -> (groups: Vec<Vec<CoreIndex>>)
    requires
        group_size >= 1,
    ensures
        is_partition(total_cores as int, group_size as int, group_views(groups@)),
{
    let group_count = total_cores / group_size;
    let mut groups: Vec<Vec<CoreIndex>> = Vec::new();
    let mut k: usize = 0;
    while k < group_count
        invariant
            group_size >= 1,
            group_count == total_cores as int / group_size as int,
            k <= group_count,
            groups@.len() == k,
            forall|k2: int| 0 <= k2 < k ==> (#[trigger] groups@[k2])@.len() == group_size,
            forall|k2: int, j: int|
                0 <= k2 < k && 0 <= j < group_size ==> (#[trigger] groups@[k2]@[j])@
                    == (group_count - 1 - k2) * group_size + j,
        decreases group_count - k,
    {
        let i = group_count - 1 - k;
        let mut group: Vec<CoreIndex> = Vec::new();
        let mut j: usize = 0;
        while j < group_size
            invariant
                group_size >= 1,
                group_count == total_cores as int / group_size as int,
                i < group_count,
                j <= group_size,
                group@.len() == j,
                forall|j2: int|
                    0 <= j2 < j ==> (#[trigger] group@[j2])@ == i * group_size + j2,
            decreases group_size - j,
        {
            proof {
                lemma_fundamental_div_mod(total_cores as int, group_size as int);
                assert(i * group_size + j < total_cores) by (nonlinear_arith)
                    requires
                        i < group_count,
                        j < group_size,
                        total_cores as int == group_size as int * (total_cores as int
                            / group_size as int) + total_cores as int % group_size as int,
                        group_count == total_cores as int / group_size as int,
                        total_cores as int % group_size as int >= 0,
                {
                }
            }
            let core_index = i * group_size + j;
            group.push(CoreIndex(core_index));
            j += 1;
        }
        groups.push(group);
        k += 1;
    }
    proof {
        lemma_fundamental_div_mod(total_cores as int, group_size as int);
        assert forall|k2: int, j: int|
            0 <= k2 < groups@.len() && 0 <= j < group_size implies (#[trigger] group_views(
            groups@,
        )[k2][j])@ < total_cores by {
            assert(group_views(groups@)[k2][j] == groups@[k2]@[j]);
            assert((group_count - 1 - k2) * group_size + j < total_cores) by (nonlinear_arith)
                requires
                    0 <= k2 < group_count,
                    0 <= j < group_size,
                    total_cores as int == group_size as int * (total_cores as int
                        / group_size as int) + total_cores as int % group_size as int,
                    group_count == total_cores as int / group_size as int,
                    total_cores as int % group_size as int >= 0,
            {
            }
        }
    }
    groups
}

} // verus!
