use core_pool::{
    bind_target, capture_and_bind, check_core_index, checkout_core_group, partition,
    release_core_group, release_step, CoreError, CoreGroupPool, CoreIndex, CpuMask,
};

fn values(cores: &Vec<CoreIndex>) -> Vec<usize> {
    let mut out = Vec::new();
    for c in cores {
        out.push(c.value());
    }
    out
}

fn mask(procs: Vec<usize>) -> CpuMask {
    CpuMask::from_sorted(procs).expect("mask entries must be strictly increasing")
}

#[test]
fn test_cores() {
    partition(8, 2);
}

#[test]
fn test_checkout_cores() {
    let mut pool = CoreGroupPool::new(4, 2);
    let checkout1 = checkout_core_group(&mut pool);
    let checkout2 = checkout_core_group(&mut pool);

    match (checkout1, checkout2) {
        (Some(c1), Some(c2)) => assert!(*c1.cores() != *c2.cores()),
        _ => panic!("failed to get two checkouts"),
    }
}

#[test]
fn partition_eight_cores_in_threes() {
    let groups = partition(8, 3);
    assert_eq!(groups.len(), 2);
    assert_eq!(values(&groups[0]), vec![3, 4, 5]);
    assert_eq!(values(&groups[1]), vec![0, 1, 2]);
    // cores 6 and 7 stay unassigned
    for group in &groups {
        for c in group {
            assert!(c.value() < 6);
        }
    }
}

#[test]
fn partition_too_few_cores_yields_no_groups() {
    let groups = partition(2, 3);
    assert_eq!(groups.len(), 0);
}

#[test]
fn checkout_on_empty_pool_is_always_unavailable() {
    let mut pool = CoreGroupPool::new(2, 3);
    assert_eq!(pool.len(), 0);
    assert!(checkout_core_group(&mut pool).is_none());
    assert!(checkout_core_group(&mut pool).is_none());
}

#[test]
fn two_checkouts_never_share_a_group() {
    let mut pool = CoreGroupPool::new(6, 3);
    let c1 = checkout_core_group(&mut pool).expect("first checkout");
    let c2 = checkout_core_group(&mut pool).expect("second checkout");
    assert_ne!(c1.group_index(), c2.group_index());
    assert!(*c1.cores() != *c2.cores());
}

#[test]
fn checkout_with_all_groups_held_is_unavailable_until_release() {
    let mut pool = CoreGroupPool::new(6, 3);
    let c1 = checkout_core_group(&mut pool).expect("first checkout");
    let c2 = checkout_core_group(&mut pool).expect("second checkout");
    assert!(checkout_core_group(&mut pool).is_none());
    assert!(checkout_core_group(&mut pool).is_none());

    let freed = c2.group_index();
    release_core_group(&mut pool, c2);
    let c3 = checkout_core_group(&mut pool).expect("checkout after release");
    assert_eq!(c3.group_index(), freed);

    release_core_group(&mut pool, c1);
    release_core_group(&mut pool, c3);
}

#[test]
fn checkout_scans_in_fixed_order() {
    let mut pool = CoreGroupPool::new(8, 3);
    let c1 = checkout_core_group(&mut pool).expect("first checkout");
    assert_eq!(c1.group_index(), 0);
    assert_eq!(values(c1.cores()), vec![3, 4, 5]);
    let c2 = checkout_core_group(&mut pool).expect("second checkout");
    assert_eq!(c2.group_index(), 1);
    assert_eq!(values(c2.cores()), vec![0, 1, 2]);
}

#[test]
fn bind_release_round_trip_restores_prior_affinity() {
    let before = mask(vec![1, 3]);
    let target = mask(vec![2]);
    let (after, cleanup) = capture_and_bind(7, Some(before), target, true);
    assert_eq!(*after.as_ref().expect("bound").procs(), vec![2]);
    assert_eq!(cleanup.thread_id(), 7);
    let restored = release_step(cleanup, after);
    assert_eq!(*restored.expect("restored").procs(), vec![1, 3]);
}

#[test]
fn rejected_bind_still_returns_a_guard_and_round_trips() {
    let before = mask(vec![1, 3]);
    let target = mask(vec![2]);
    let (after, cleanup) = capture_and_bind(7, Some(before), target, false);
    assert_eq!(*after.as_ref().expect("unchanged").procs(), vec![1, 3]);
    let restored = release_step(cleanup, after);
    assert_eq!(*restored.expect("restored").procs(), vec![1, 3]);
}

#[test]
fn nested_binds_released_in_reverse_order_restore_outermost_state() {
    let before = mask(vec![0, 1]);
    let (after_a, cleanup_a) = capture_and_bind(9, Some(before), mask(vec![4]), true);
    let (after_b, cleanup_b) = capture_and_bind(9, after_a, mask(vec![5]), true);
    assert_eq!(*after_b.as_ref().expect("bound twice").procs(), vec![5]);

    let released_b = release_step(cleanup_b, after_b);
    assert_eq!(*released_b.as_ref().expect("inner restored").procs(), vec![4]);
    let released_a = release_step(cleanup_a, released_b);
    assert_eq!(*released_a.expect("outer restored").procs(), vec![0, 1]);
}

#[test]
fn out_of_range_index_fails_and_captures_nothing() {
    let r = check_core_index(4, CoreIndex::new(7));
    assert_eq!(r, Err(CoreError::IndexOutOfRange));
    let boundary = check_core_index(4, CoreIndex::new(4));
    assert_eq!(boundary, Err(CoreError::IndexOutOfRange));
    assert!(check_core_index(4, CoreIndex::new(3)).is_ok());
}

#[test]
fn take_prior_hands_out_the_snapshot_exactly_once() {
    let (_, mut cleanup) = capture_and_bind(3, Some(mask(vec![6])), mask(vec![0]), true);
    let first = cleanup.take_prior();
    assert_eq!(*first.expect("captured").procs(), vec![6]);
    assert!(cleanup.take_prior().is_none());
}

#[test]
fn bind_target_keeps_only_the_lowest_processor() {
    let t = bind_target(Some(mask(vec![2, 5, 9]))).expect("target");
    assert_eq!(*t.procs(), vec![2]);
    let single = bind_target(Some(mask(vec![8]))).expect("target");
    assert_eq!(*single.procs(), vec![8]);
    let empty = bind_target(Some(mask(vec![]))).expect("target");
    assert_eq!(*empty.procs(), Vec::<usize>::new());
}

#[test]
fn bind_target_without_allowed_cpuset_is_refused() {
    match bind_target(None) {
        Err(e) => assert_eq!(e, CoreError::NoAllowedCpuset),
        Ok(_) => panic!("expected a refused bind target"),
    }
}

#[test]
fn masks_must_be_strictly_increasing() {
    assert!(CpuMask::from_sorted(vec![1, 1]).is_none());
    assert!(CpuMask::from_sorted(vec![3, 2]).is_none());
    let m = CpuMask::from_sorted(vec![0, 2, 4]).expect("sorted");
    assert_eq!(m.len(), 3);
    assert_eq!(m.duplicate().procs(), m.procs());
}

#[test]
fn error_severity_policy() {
    assert!(CoreError::TopologyQueryError.is_fatal());
    assert!(CoreError::LockPoisoned.is_fatal());
    assert!(!CoreError::IndexOutOfRange.is_fatal());
    assert!(!CoreError::NoAllowedCpuset.is_fatal());
    assert!(!CoreError::BindRejected.is_fatal());
    assert!(!CoreError::MemoryBindRejected.is_fatal());
}

#[test]
fn error_descriptions() {
    assert_eq!(
        CoreError::TopologyQueryError.describe(),
        "failed to query hardware topology"
    );
    assert_eq!(CoreError::IndexOutOfRange.describe(), "core index out of range");
    assert_eq!(CoreError::NoAllowedCpuset.describe(), "no allowed cpuset for core");
    assert_eq!(CoreError::BindRejected.describe(), "failed to bind CPU");
    assert_eq!(CoreError::MemoryBindRejected.describe(), "failed to bind memory");
    assert_eq!(CoreError::LockPoisoned.describe(), "poisoned topology lock");
}

#[test]
fn core_index_round_trip() {
    let c = CoreIndex::new(5);
    assert_eq!(c.value(), 5);
    assert_eq!(c, CoreIndex::new(5));
    assert_ne!(c, CoreIndex::new(6));
}
