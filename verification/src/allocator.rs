//! Allocation counters for auditing the parsing hot path.
//!
//! The executable installs a global allocator that forwards to the system
//! allocator and reports every allocation and deallocation here.
use std::alloc::System;
use std::ops::Sub;
use std::sync::atomic::{AtomicUsize, Ordering};
use vstd::prelude::*;
use vstd::std_specs::ops::SubSpecImpl;

verus! {

#[verifier::external_type_specification]
#[verifier::external_body]
pub struct ExSystem(System);

/// Allocation counters next to the allocator they describe.
///
/// The counters are atomics updated by every thread; no contract here speaks
/// of their values.
pub struct TrackingAllocator {
    pub inner: System,
    pub alloc_count: AtomicUsize,
    pub alloc_bytes: AtomicUsize,
    pub dealloc_count: AtomicUsize,
    pub dealloc_bytes: AtomicUsize,
}

impl TrackingAllocator {
    /// Zeroes all counters; call immediately before the code under test.
    pub fn reset(&self) {
        self.alloc_count.store(0, Ordering::Relaxed);
        self.alloc_bytes.store(0, Ordering::Relaxed);
        self.dealloc_count.store(0, Ordering::Relaxed);
        self.dealloc_bytes.store(0, Ordering::Relaxed);
    }

    /// Reads the counters, each one separately: the snapshot is not atomic as
    /// a whole.
    pub fn snapshot(&self) -> AllocSnapshot {
        AllocSnapshot {
            alloc_count: self.alloc_count.load(Ordering::Relaxed),
            alloc_bytes: self.alloc_bytes.load(Ordering::Relaxed),
            dealloc_count: self.dealloc_count.load(Ordering::Relaxed),
            dealloc_bytes: self.dealloc_bytes.load(Ordering::Relaxed),
        }
    }

    /// Counts one allocation of `size` bytes.
    pub fn note_alloc(&self, size: usize) {
        self.alloc_count.fetch_add(1, Ordering::Relaxed);
        self.alloc_bytes.fetch_add(size, Ordering::Relaxed);
    }

    /// Counts one deallocation of `size` bytes.
    pub fn note_dealloc(&self, size: usize) {
        self.dealloc_count.fetch_add(1, Ordering::Relaxed);
        self.dealloc_bytes.fetch_add(size, Ordering::Relaxed);
    }
}

/// A point-in-time reading of the allocation counters.
#[derive(Debug, Clone, Copy)]
pub struct AllocSnapshot {
    pub alloc_count: usize,
    pub alloc_bytes: usize,
    pub dealloc_count: usize,
    pub dealloc_bytes: usize,
}

impl Default for AllocSnapshot {
    fn default() -> (s: AllocSnapshot)
        ensures
            s.alloc_count == 0 && s.alloc_bytes == 0 && s.dealloc_count == 0 && s.dealloc_bytes == 0,
    {
        AllocSnapshot { alloc_count: 0, alloc_bytes: 0, dealloc_count: 0, dealloc_bytes: 0 }
    }
}

/// `a - b` modulo 2^usize::BITS: the change of a counter that may have wrapped.
pub open spec fn counter_delta(a: usize, b: usize) -> usize {
    if a >= b {
        (a - b) as usize
    } else {
        (a - b + usize::MAX + 1) as usize
    }
}

/// Field-wise wrapping difference of two snapshots.
pub open spec fn snapshot_delta(a: AllocSnapshot, b: AllocSnapshot) -> AllocSnapshot {
    AllocSnapshot {
        alloc_count: counter_delta(a.alloc_count, b.alloc_count),
        alloc_bytes: counter_delta(a.alloc_bytes, b.alloc_bytes),
        dealloc_count: counter_delta(a.dealloc_count, b.dealloc_count),
        dealloc_bytes: counter_delta(a.dealloc_bytes, b.dealloc_bytes),
    }
}

impl Sub for AllocSnapshot {
    type Output = AllocSnapshot;

    /// The change between two snapshots, wrapping on underflow.
    fn sub(self, rhs: AllocSnapshot) -> (d: AllocSnapshot) {
        AllocSnapshot {
            alloc_count: self.alloc_count.wrapping_sub(rhs.alloc_count),
            alloc_bytes: self.alloc_bytes.wrapping_sub(rhs.alloc_bytes),
            dealloc_count: self.dealloc_count.wrapping_sub(rhs.dealloc_count),
            dealloc_bytes: self.dealloc_bytes.wrapping_sub(rhs.dealloc_bytes),
        }
    }
}

impl SubSpecImpl for AllocSnapshot {
    open spec fn obeys_sub_spec() -> bool {
        true
    }

    open spec fn sub_req(self, rhs: AllocSnapshot) -> bool {
        true
    }

    open spec fn sub_spec(self, rhs: AllocSnapshot) -> AllocSnapshot {
        snapshot_delta(self, rhs)
    }
}

/// Subtracting the earlier snapshot from the later one recovers the counts
/// added in between, also when a counter wrapped past `usize::MAX`.
pub proof fn law_delta_recovers_added(before: usize, added: usize)
    ensures
        counter_delta(((before + added) % (usize::MAX + 1)) as usize, before) == added,
{
    let m = usize::MAX + 1;
    assert((before + added) % m == if before + added < m { before + added } else { before + added - m }) by (nonlinear_arith)
        requires
            m == usize::MAX + 1,
            0 <= before < m,
            0 <= added < m,
    ;
}

} // verus!
