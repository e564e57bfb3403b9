//! Exclusive assignment of disjoint groups of CPU cores to worker threads,
//! plus per-thread affinity binding with guaranteed restoration.
//!
//! The machine's cores are partitioned once into fixed-size, non-overlapping
//! groups ([`partition`]); a [`pool::CoreGroupPool`] hands out exclusive
//! access to one group at a time ([`pool::checkout_core_group`]); and the
//! binding module decides, for one thread, which single logical processor to
//! bind to and what affinity to restore afterward ([`binding::Cleanup`]).

pub mod binding;
pub mod error;
pub mod groups;
pub mod pool;

pub use binding::{bind_target, capture_and_bind, check_core_index, release_step, Cleanup, CpuMask};
pub use error::CoreError;
pub use groups::{partition, CoreIndex};
pub use pool::{checkout_core_group, release_core_group, CoreGroupPool, GroupHandle};
